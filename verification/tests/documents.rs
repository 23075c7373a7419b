use std::collections::hash_map::DefaultHasher;
use std::hash::Hasher;

use cargo_xbuild::cargo::{toml, BuildTarget, Config, Toml};
use cargo_xbuild::errors::ConfigError;
use cargo_xbuild::util::parse;
use cargo_xbuild::value::Node;

fn document(text: &str) -> Node {
    match Node::parse(text) {
        Ok(node) => node,
        Err(e) => panic!("{}", e.message),
    }
}

fn manifest(text: &str) -> Toml {
    match toml("/p/Cargo.toml", text) {
        Ok(manifest) => manifest,
        Err(e) => panic!("{}", e.message()),
    }
}

fn profile_key(text: &str) -> u64 {
    let manifest = manifest(text);
    let mut hasher = DefaultHasher::new();
    if let Some(profile) = manifest.profile() {
        assert!(profile.hash(&mut hasher).is_ok());
    }
    hasher.finish()
}

#[test]
fn a_document_is_read_into_values() {
    let doc = document("a = \"x\"\nb = 3\nc = true\nd = [1, 2]\n[t]\nk = \"v\"\n[t.u]\nn = -1\n");
    assert_eq!(doc.get("a").and_then(|v| v.as_str()), Some("x"));
    assert!(matches!(doc.get("b"), Some(Node::Integer(3))));
    assert!(matches!(doc.get("c"), Some(Node::Boolean(true))));
    match doc.get("d").and_then(|v| v.as_array()) {
        Some(items) => {
            assert_eq!(items.len(), 2);
            assert!(matches!(items[0], Node::Integer(1)));
            assert!(matches!(items[1], Node::Integer(2)));
        }
        None => panic!("expected an array"),
    }
    assert_eq!(doc.get_in("t", "k").and_then(|v| v.as_str()), Some("v"));
    assert!(matches!(doc.get("t").and_then(|t| t.get_in("u", "n")), Some(Node::Integer(-1))));
    assert!(doc.get("missing").is_none());
    assert!(doc.get_in("a", "x").is_none());
    assert!(doc.get_in("missing", "x").is_none());
    assert!(doc.get("a").and_then(|v| v.get("x")).is_none());
}

#[test]
fn tables_keep_their_entries_by_key() {
    match document("z = 1\na = 2\nm = 3\n") {
        Node::Table(entries) => {
            let keys: Vec<&str> = entries.iter().map(|e| e.0.as_str()).collect();
            assert_eq!(keys, vec!["a", "m", "z"]);
        }
        _ => panic!("expected a table"),
    }
}

#[test]
fn text_that_is_no_document_is_refused() {
    match Node::parse("a = ") {
        Err(e) => assert!(!e.message.is_empty()),
        Ok(_) => panic!("expected an error"),
    }
    match parse("/p/.cargo/config", "[build\n") {
        Err(ConfigError::InvalidToml { path, message }) => {
            assert_eq!(path, "/p/.cargo/config");
            let e = ConfigError::InvalidToml { path, message: message.clone() };
            assert_eq!(e.message(), format!("/p/.cargo/config is not valid TOML: {}", message));
        }
        _ => panic!("expected an error"),
    }
    assert!(matches!(toml("/p/Cargo.toml", "x"), Err(ConfigError::InvalidToml { .. })));
    assert!(parse("/p/Cargo.toml", "").is_ok());
}

#[test]
fn values_are_written_as_documents() {
    let doc = document("b = 3\na = \"x\"\n[t]\nk = [\"v\", \"w\"]\n");
    assert_eq!(doc.render(), Some("a = \"x\"\nb = 3\n\n[t]\nk = [\"v\", \"w\"]\n".to_string()));
    let table = Node::Table(vec![("n".to_string(), Node::Integer(1))]);
    assert_eq!(table.render(), Some("n = 1\n".to_string()));
    assert_eq!(Node::Table(Vec::new()).render(), Some("".to_string()));
}

#[test]
fn floats_and_dates_are_carried_through() {
    let doc = document("f = 1.5\nd = 1979-05-27T07:32:00Z\nx = 1\n");
    assert!(matches!(doc.get("f"), Some(Node::Other(_))));
    assert!(matches!(doc.get("d"), Some(Node::Other(_))));
    assert_eq!(
        doc.deep_copy().render(),
        Some("d = 1979-05-27T07:32:00Z\nf = 1.5\nx = 1\n".to_string())
    );
    assert_eq!(doc.without("x").render(), Some("d = 1979-05-27T07:32:00Z\nf = 1.5\n".to_string()));
}

#[test]
fn a_copy_holds_the_same() {
    let text = "a = [[1, 2], [\"x\"]]\n\n[t]\nb = true\n\n[t.u]\nc = \"d\"\n";
    let doc = document(text);
    assert_eq!(doc.deep_copy().render(), doc.render());
    assert_eq!(doc.deep_copy().render(), Some(text.to_string()));
}

#[test]
fn entries_are_left_out_by_key() {
    let doc = document("lto = true\nopt-level = 3\ndebug = false\n");
    assert_eq!(doc.without("lto").render(), Some("debug = false\nopt-level = 3\n".to_string()));
    assert_eq!(doc.without("absent").render(), doc.render());
    assert!(!doc.without("lto").is_empty_table());
    assert!(document("lto = true\n").without("lto").is_empty_table());
    assert!(document("").is_empty_table());
    assert!(matches!(Node::Integer(3).without("lto"), Node::Integer(3)));
    assert!(!Node::Integer(3).is_empty_table());
}

#[test]
fn an_entry_is_found_by_its_key() {
    let table = Node::Table(vec![
        ("a".to_string(), Node::Integer(1)),
        ("ab".to_string(), Node::Integer(2)),
        ("b".to_string(), Node::Integer(3)),
    ]);
    assert!(matches!(table.get("a"), Some(Node::Integer(1))));
    assert!(matches!(table.get("ab"), Some(Node::Integer(2))));
    assert!(matches!(table.get("b"), Some(Node::Integer(3))));
    assert!(table.get("").is_none());
    assert!(table.get("abc").is_none());
    assert!(Node::Array(vec![Node::Integer(1)]).get("a").is_none());
    assert_eq!(table.render(), Some("a = 1\nab = 2\nb = 3\n".to_string()));
    assert_eq!(table.without("ab").render(), Some("a = 1\nb = 3\n".to_string()));
}

#[test]
fn arrays_of_strings_are_told_from_others() {
    let doc = document("a = [\"x\", \"y\"]\nb = []\nc = [\"x\", 1]\nd = \"x\"\n");
    let strings = |key: &str| doc.get(key).and_then(|v| v.strings());
    assert_eq!(strings("a"), Some(vec!["x".to_string(), "y".to_string()]));
    assert_eq!(strings("b"), Some(Vec::new()));
    assert_eq!(strings("c"), None);
    assert_eq!(strings("d"), None);
    assert!(doc.get("d").and_then(|v| v.as_array()).is_none());
    assert!(doc.get("a").and_then(|v| v.as_str()).is_none());
}

#[test]
fn the_link_time_optimisation_does_not_change_the_key() {
    let plain = "[profile.release]\nopt-level = 3\n";
    assert_eq!(profile_key(plain), profile_key("[profile.release]\nopt-level = 3\nlto = true\n"));
    assert_eq!(profile_key(plain), profile_key("[profile.release]\nlto = false\nopt-level = 3\n"));
    assert_eq!(
        profile_key(plain),
        profile_key("[profile.release]\nopt-level = 3\nlto = \"thin\"\n")
    );
    assert_ne!(profile_key(plain), profile_key("[profile.release]\nopt-level = 2\n"));
    assert_ne!(profile_key(plain), profile_key("[profile.release]\nopt-level = 3\ndebug = true\n"));
}

#[test]
fn a_profile_of_nothing_else_counts_as_none() {
    let none = profile_key("[package]\nname = \"x\"\n");
    assert_eq!(none, DefaultHasher::new().finish());
    assert_eq!(profile_key("[profile.release]\nlto = true\n"), none);
    assert_eq!(profile_key("[profile.release]\n"), none);
    assert_eq!(profile_key("[profile.dev]\nopt-level = 3\n"), none);
    assert_ne!(profile_key("[profile.release]\nopt-level = 3\n"), none);
}

#[test]
fn the_profile_is_hashed_as_its_text() {
    let mut by_hand = DefaultHasher::new();
    by_hand.write(b"debug = true\nopt-level = 3\n");
    by_hand.write(&[0xff]);
    assert_eq!(
        profile_key("[profile.release]\nopt-level = 3\nlto = true\ndebug = true\n"),
        by_hand.finish()
    );
    let mut scalar = DefaultHasher::new();
    scalar.write(b"3");
    scalar.write(&[0xff]);
    assert_eq!(profile_key("[profile]\nrelease = 3\n"), scalar.finish());
}

#[test]
fn a_profile_is_written_as_a_manifest() {
    let manifest = manifest("[profile.release]\nopt-level = 3\nlto = true\n[package]\nname = \"x\"\n");
    match manifest.profile() {
        Some(profile) => assert_eq!(
            profile.to_text(),
            Some("[profile.release]\nlto = true\nopt-level = 3\n".to_string())
        ),
        None => panic!("expected a profile"),
    }
    assert!(manifest.features().is_none());
    assert!(self::manifest("[profile.dev]\nlto = true\n").profile().is_none());
    assert!(self::manifest("").profile().is_none());
}

#[test]
fn features_are_written_as_a_manifest() {
    let manifest = manifest("cargo-features = [\"a\", \"b\"]\n[package]\nname = \"x\"\n");
    match manifest.features() {
        Some(features) => {
            assert_eq!(features.to_text(), Some("cargo-features = [\"a\", \"b\"]\n".to_string()))
        }
        None => panic!("expected features"),
    }
    assert!(manifest.profile().is_none());
}

fn configured(text: &str) -> Result<Option<BuildTarget>, ConfigError> {
    Config::new("/project".to_string(), document(text)).target()
}

#[test]
fn the_configured_target_is_a_name_or_a_descriptor() {
    match configured("[build]\ntarget = \"thumbv7em-none-eabi\"\n") {
        Ok(Some(BuildTarget::Triple(name))) => assert_eq!(name, "thumbv7em-none-eabi"),
        _ => panic!("expected a target name"),
    }
    match configured("[build]\ntarget = \"specs/my.json\"\n") {
        Ok(Some(BuildTarget::Descriptor(path))) => assert_eq!(path, "/project/specs/my.json"),
        _ => panic!("expected a descriptor"),
    }
    match configured("[build]\ntarget = \"/abs/my.json\"\n") {
        Ok(Some(BuildTarget::Descriptor(path))) => assert_eq!(path, "/abs/my.json"),
        _ => panic!("expected a descriptor"),
    }
    assert!(matches!(configured("[build]\nrustflags = []\n"), Ok(None)));
    assert!(matches!(configured(""), Ok(None)));
    assert!(matches!(configured("build = 3\n"), Ok(None)));
}

#[test]
fn the_configured_target_must_be_a_string() {
    match configured("[build]\ntarget = [\"a\"]\n") {
        Err(e) => {
            assert_eq!(e.message(), ".cargo/config: build.target must be a string");
            assert!(matches!(e, ConfigError::BuildTarget));
        }
        Ok(_) => panic!("expected an error"),
    }
}
