use std::collections::hash_map::DefaultHasher;
use std::hash::Hasher;

use cargo_xbuild::cargo::{flags, rustflags, run, Config, Rustflags};
use cargo_xbuild::cli::Args;
use cargo_xbuild::config;
use cargo_xbuild::errors::ConfigError;
use cargo_xbuild::value::Node;
use cargo_xbuild::xargo::home;

fn key_of(env: &str) -> u64 {
    let flags = match rustflags(Some(env), None, "thumbv7em-none-eabi") {
        Ok(flags) => flags,
        Err(e) => panic!("{}", e.message()),
    };
    let mut hasher = DefaultHasher::new();
    flags.hash(&mut hasher);
    hasher.finish()
}

fn strings(items: &[&str]) -> Vec<String> {
    items.iter().map(|s| s.to_string()).collect()
}

fn cargo_config(text: &str) -> Config {
    match Node::parse(text) {
        Ok(table) => Config::new("/project".to_string(), table),
        Err(e) => panic!("{}", e.message),
    }
}

#[test]
fn linker_arguments_do_not_change_the_key() {
    assert_eq!(key_of(""), key_of("-C link-arg=/foo"));
    assert_eq!(key_of("-C link-arg=/foo"), key_of("-C link-arg=/bar"));
    assert_eq!(key_of("-C link-args=-a"), key_of(""));
    assert_eq!(key_of("-g -C link-arg=/foo -O"), key_of("-g -O"));
}

#[test]
fn other_flags_change_the_key() {
    assert_ne!(key_of(""), key_of("-C opt-level=s"));
    assert_ne!(key_of("-C opt-level=s"), key_of("-C opt-level=3"));
    assert_ne!(key_of("-C"), key_of(""));
    assert_ne!(key_of("link-arg=/foo"), key_of(""));
}

#[test]
fn every_introducer_before_a_linker_argument_is_left_out() {
    // the first `-C` stands before another `-C` and stays; the second one
    // stands before a linker argument and goes with it
    assert_eq!(key_of("-C -C link-arg=/foo"), key_of("-C -C link-arg=/bar"));
    assert_eq!(key_of("-C -C link-arg=/foo"), key_of("-C"));
    assert_eq!(key_of("-C link-arg=a -C link-args=b"), key_of(""));
    assert_ne!(key_of("-C link-arg=a link-arg=b"), key_of(""));
    assert_eq!(key_of("-C link-arg=a link-arg=b"), key_of("link-arg=b"));
    assert_ne!(key_of("-Clink-arg=a"), key_of(""));
}

#[test]
fn flags_that_leave_the_same_tokens_have_the_same_key() {
    // the skipped pair stands at different places; what is left is the same
    assert_eq!(key_of("-C link-arg=a q link-arg=a"), key_of("q link-arg=a -C link-arg=a"));
}

#[test]
fn the_hasher_gets_each_token_and_its_end() {
    let mut by_hand = DefaultHasher::new();
    by_hand.write(b"-g");
    by_hand.write(&[0xff]);
    by_hand.write(b"-C");
    by_hand.write(&[0xff]);
    by_hand.write(b"opt-level=s");
    by_hand.write(&[0xff]);
    assert_eq!(key_of("-g -C link-arg=x -C opt-level=s"), by_hand.finish());
}

#[test]
fn the_environment_comes_first() {
    let config = cargo_config("[build]\nrustflags = [\"-O\"]\n");
    let found = flags(Some("  -g \t -C  debuginfo=2\n"), Some(&config), "t", "rustflags");
    assert_eq!(found.ok(), Some(strings(&["-g", "-C", "debuginfo=2"])));
    let none = flags(Some(""), Some(&config), "t", "rustflags");
    assert_eq!(none.ok(), Some(Vec::<String>::new()));
}

#[test]
fn the_target_section_comes_before_the_build_section() {
    let config = cargo_config(
        "[build]\nrustflags = [\"-O\"]\n[target.thumb]\nrustflags = [\"-g\", \"-Z\"]\n",
    );
    let for_target = flags(None, Some(&config), "thumb", "rustflags");
    assert_eq!(for_target.ok(), Some(strings(&["-g", "-Z"])));
    let for_other = flags(None, Some(&config), "other", "rustflags");
    assert_eq!(for_other.ok(), Some(strings(&["-O"])));
    let other_tool = flags(None, Some(&config), "thumb", "rustdocflags");
    assert_eq!(other_tool.ok(), Some(Vec::<String>::new()));
}

#[test]
fn no_configuration_gives_no_flags() {
    assert_eq!(flags(None, None, "t", "rustflags").ok(), Some(Vec::<String>::new()));
    let empty = cargo_config("");
    assert_eq!(flags(None, Some(&empty), "t", "rustflags").ok(), Some(Vec::<String>::new()));
}

#[test]
fn flags_must_be_an_array_of_strings() {
    let build = cargo_config("[build]\nrustflags = \"-O\"\n");
    match flags(None, Some(&build), "t", "rustflags") {
        Err(ConfigError::BuildFlags { tool }) => assert_eq!(tool, "rustflags"),
        _ => panic!("expected an error for build.rustflags"),
    }
    let target = cargo_config("[target.t]\nrustflags = [\"-O\", 3]\n");
    match flags(None, Some(&target), "t", "rustflags") {
        Err(e) => {
            assert_eq!(
                e.message(),
                ".cargo/config: target.t.rustflags must be an array of strings"
            );
            assert!(matches!(e, ConfigError::TargetFlags { .. }));
        }
        Ok(_) => panic!("expected an error for target.t.rustflags"),
    }
    match rustflags(None, Some(&build), "t") {
        Err(e) => {
            assert_eq!(e.message(), ".cargo/config: build.rustflags must be an array of strings")
        }
        Ok(_) => panic!("expected an error"),
    }
}

#[test]
fn flags_are_shown_with_spaces_between() {
    assert_eq!(Rustflags::new(strings(&[])).to_text(), "");
    assert_eq!(Rustflags::new(strings(&["-g"])).to_text(), "-g");
    assert_eq!(Rustflags::new(strings(&["-g", "-C", "x=1"])).to_text(), "-g -C x=1");
}

fn settings(sysroot_path: &str) -> config::Config {
    config::Config {
        memcpy: true,
        sysroot_path: sysroot_path.to_string(),
        panic_immediate_abort: false,
    }
}

#[test]
fn the_sysroot_is_named_once() {
    let home = home("/project", &settings("target/sysroot"), false, None);
    let plain = Rustflags::new(strings(&["-g"]));
    assert_eq!(
        plain.for_xargo(&home, false).ok(),
        Some("-g --sysroot /project/target/sysroot".to_string())
    );
    let named = Rustflags::new(strings(&["--sysroot", "/elsewhere", "-g"]));
    assert_eq!(named.for_xargo(&home, false).ok(), Some("--sysroot /elsewhere -g".to_string()));
    let none = Rustflags::new(strings(&[]));
    assert_eq!(
        none.for_xargo(&home, false).ok(),
        Some("--sysroot /project/target/sysroot".to_string())
    );
}

#[test]
fn a_sysroot_with_spaces_is_refused_unless_allowed() {
    let home = home("/my project", &settings("target/sysroot"), false, None);
    let flags = Rustflags::new(strings(&["-g"]));
    match flags.for_xargo(&home, false) {
        Err(ConfigError::SysrootSpaces { sysroot }) => {
            assert_eq!(sysroot, "/my project/target/sysroot")
        }
        _ => panic!("expected an error"),
    }
    assert_eq!(
        flags.for_xargo(&home, true).ok(),
        Some("-g --sysroot /my project/target/sysroot".to_string())
    );
}

#[test]
fn a_plain_build_passes_the_arguments_on() {
    let args = match Args::from_raw(strings(&["--release", "-v"])) {
        Ok(args) => args,
        Err(e) => panic!("{}", e.message()),
    };
    assert_eq!(run(&args), strings(&["build", "--release", "-v"]));
}
