use cargo_xbuild::paths::{file_name, join, parent};
use cargo_xbuild::rustc::{condense, descriptor_candidate};
use cargo_xbuild::text::{ends_with, join_spaced, split_whitespace, starts_with};
use cargo_xbuild::util::{cp_r, search, CopyStep, Search};

#[test]
fn paths_are_joined_with_one_separator() {
    assert_eq!(join("a", "b"), "a/b");
    assert_eq!(join("a/", "b"), "a/b");
    assert_eq!(join("", "b"), "b");
    assert_eq!(join("a", "/b"), "/b");
    assert_eq!(join("/", "b"), "/b");
    assert_eq!(join("a", ""), "a/");
    assert_eq!(join("a/b", "c/d"), "a/b/c/d");
    assert_eq!(join("a", ".."), "a/..");
}

#[test]
fn the_last_component_is_the_file_name() {
    assert_eq!(file_name("a/b/c.json"), "c.json");
    assert_eq!(file_name("c"), "c");
    assert_eq!(file_name("/c"), "c");
    assert_eq!(file_name("a/"), "a");
    assert_eq!(file_name("a/b/"), "b");
    assert_eq!(file_name("a/b//"), "b");
    assert_eq!(file_name("/"), "");
    assert_eq!(file_name(""), "");
    assert_eq!(file_name("a/b\u{e9}/\u{fc}c"), "\u{fc}c");
}

#[test]
fn the_parent_is_what_stands_before_the_last_separator() {
    assert_eq!(parent("/a/b"), Some("/a"));
    assert_eq!(parent("/a"), Some("/"));
    assert_eq!(parent("a/b/c"), Some("a/b"));
    assert_eq!(parent("a"), Some(""));
    assert_eq!(parent("a/b/"), Some("a"));
    assert_eq!(parent("a//b"), Some("a"));
    assert_eq!(parent("/a/"), Some("/"));
    assert_eq!(parent("a/"), Some(""));
    assert_eq!(parent("//"), None);
    assert_eq!(parent("/"), None);
    assert_eq!(parent(""), None);
}

#[test]
fn a_target_is_filed_under_its_bare_name() {
    assert_eq!(condense("thumbv7em-none-eabi"), "thumbv7em-none-eabi");
    assert_eq!(condense("my-target.json"), "my-target");
    assert_eq!(condense("../specs/my-target.json"), "my-target");
    assert_eq!(condense("/abs/my-target"), "my-target");
    assert_eq!(condense("a.json/b"), "b");
    assert_eq!(condense("specs/my-target.json/"), "my-target");
    assert_eq!(condense(".json"), "");
    assert_eq!(condense("x.json.json"), "x.json");
}

#[test]
fn a_descriptor_is_looked_for_under_the_target_name() {
    assert_eq!(descriptor_candidate("/cd", "my-target"), "/cd/my-target.json");
    assert_eq!(descriptor_candidate("/cd", "my-target.json"), "/cd/my-target.json");
    assert_eq!(descriptor_candidate("/cd", "/abs/t.json"), "/abs/t.json");
}

#[test]
fn texts_start_and_end() {
    assert!(starts_with("link-arg=x", "link-arg="));
    assert!(starts_with("x", ""));
    assert!(!starts_with("link-arg", "link-arg="));
    assert!(!starts_with("xlink-arg=", "link-arg="));
    assert!(ends_with("t.json", ".json"));
    assert!(ends_with(".json", ".json"));
    assert!(!ends_with("t.json5", ".json"));
    assert!(!ends_with("json", ".json"));
}

#[test]
fn texts_are_joined_with_spaces() {
    let items: Vec<String> = vec!["a".to_string(), "".to_string(), "b c".to_string()];
    assert_eq!(join_spaced(&items), "a  b c");
    assert_eq!(join_spaced(&Vec::new()), "");
}

#[test]
fn a_search_goes_from_a_directory_to_those_that_hold_it() {
    let mut probed: Vec<String> = Vec::new();
    let mut step = search("/a/b/c", ".cargo/config", None);
    let found = loop {
        match step {
            Search::Probe { dir, candidate } => {
                let there = candidate == "/a/.cargo/config";
                probed.push(candidate);
                step = search(dir, ".cargo/config", Some(there));
            }
            Search::Found(dir) => break Some(dir.to_string()),
            Search::Missing => break None,
        }
    };
    assert_eq!(found, Some("/a".to_string()));
    assert_eq!(probed, vec!["/a/b/c/.cargo/config", "/a/b/.cargo/config", "/a/.cargo/config"]);
}

#[test]
fn a_search_ends_at_the_root() {
    let mut probed: Vec<String> = Vec::new();
    let mut step = search("/a/b", "f", None);
    let found = loop {
        match step {
            Search::Probe { dir, candidate } => {
                probed.push(candidate);
                step = search(dir, "f", Some(false));
            }
            Search::Found(dir) => break Some(dir.to_string()),
            Search::Missing => break None,
        }
    };
    assert_eq!(found, None);
    assert_eq!(probed, vec!["/a/b/f", "/a/f", "/f"]);
    assert!(matches!(search("rel", "f", Some(false)), Search::Probe { dir: "", .. }));
    assert!(matches!(search("", "f", Some(false)), Search::Missing));
}

#[test]
fn entries_are_copied_to_the_same_place_under_the_destination() {
    match cp_r("/src/deps", "/dst/lib", "/src/deps/liballoc.rlib", false) {
        Ok(CopyStep::CopyFile { from, to }) => {
            assert_eq!(from, "/src/deps/liballoc.rlib");
            assert_eq!(to, "/dst/lib/liballoc.rlib");
        }
        _ => panic!("expected a file to copy"),
    }
    match cp_r("/src/deps", "/dst/lib", "/src/deps/a/b", true) {
        Ok(CopyStep::MakeDir(path)) => assert_eq!(path, "/dst/lib/a/b"),
        _ => panic!("expected a directory to make"),
    }
    match cp_r("/src/deps", "/dst/lib", "/src/deps", true) {
        Ok(CopyStep::MakeDir(path)) => assert_eq!(path, "/dst/lib/"),
        _ => panic!("expected a directory to make"),
    }
    match cp_r("/src/deps/", "/dst", "/src/deps/x", false) {
        Ok(CopyStep::CopyFile { to, .. }) => assert_eq!(to, "/dst/x"),
        _ => panic!("expected a file to copy"),
    }
}

#[test]
fn an_entry_from_elsewhere_is_refused() {
    for entry in ["/src/depsx/a", "/other/a", "/src"] {
        match cp_r("/src/deps", "/dst", entry, false) {
            Err(e) => assert_eq!(
                e.message(),
                format!(
                    "Could not retrieve relative path of child directory or file `{}` with regards to parent directory `/src/deps`",
                    entry
                )
            ),
            Ok(_) => panic!("expected an error"),
        }
    }
    assert!(cp_r("/src/deps/", "/dst", "/src/depsx", false).is_err());
}

#[test]
fn words_stand_between_white_space() {
    for text in [
        "",
        " ",
        "a",
        " a ",
        "a b",
        "  -C   link-arg=x\t\n-g ",
        "a\u{3000}b\u{a0}c",
        "a\u{200b}b",
        "\u{e9}t\u{e9} \u{fc}ber",
        "\n\n",
    ] {
        let expected: Vec<String> = text.split_whitespace().map(|w| w.to_string()).collect();
        assert_eq!(split_whitespace(text), expected, "{:?}", text);
    }
    assert_eq!(split_whitespace("  -C   link-arg=x\t\n-g "), vec!["-C", "link-arg=x", "-g"]);
}
