use std::collections::hash_map::DefaultHasher;
use std::hash::Hasher;

use cargo_xbuild::config::{Config, Metadata, Package, ParseConfig, Section};
use cargo_xbuild::errors::ConfigError;
use cargo_xbuild::rustc::{
    choose_source, version, Channel, Descriptor, Source, Target, VersionMeta,
};
use cargo_xbuild::xargo::{home, run};
use cargo_xbuild::cli::Args;
use cargo_xbuild::cargo::Rustflags;
use cargo_xbuild::flock::State;
use cargo_xbuild::{choose_mode, CompilationMode, CurrentDirectory, ModeChoice};

fn package(manifest_path: &str, section: Section) -> Package {
    Package { manifest_path: manifest_path.to_string(), section }
}

fn workspace(packages: Vec<Package>) -> Metadata {
    Metadata { workspace_root: "/ws".to_string(), packages }
}

fn loaded(metadata: &Metadata, quiet: bool) -> (Config, bool) {
    match Config::from_metadata(metadata, quiet) {
        Ok(loaded) => loaded,
        Err(e) => panic!("{}", e.message()),
    }
}

#[test]
fn settings_that_are_left_out_have_defaults() {
    let config = Config::from_parsed(&ParseConfig::empty());
    assert!(config.memcpy);
    assert_eq!(config.sysroot_path, "target/sysroot");
    assert!(!config.panic_immediate_abort);
    let config = Config::from_parsed(&ParseConfig {
        memcpy: Some(false),
        sysroot_path: Some("my/sysroot".to_string()),
        panic_immediate_abort: Some(true),
    });
    assert!(!config.memcpy);
    assert_eq!(config.sysroot_path, "my/sysroot");
    assert!(config.panic_immediate_abort);
}

#[test]
fn the_package_at_the_root_has_the_settings() {
    let metadata = workspace(vec![
        package(
            "/ws/member/Cargo.toml",
            Section::Found(ParseConfig {
                memcpy: Some(true),
                sysroot_path: Some("wrong".to_string()),
                panic_immediate_abort: None,
            }),
        ),
        package(
            "/ws/Cargo.toml",
            Section::Found(ParseConfig {
                memcpy: Some(false),
                sysroot_path: None,
                panic_immediate_abort: Some(true),
            }),
        ),
    ]);
    let (config, warn) = loaded(&metadata, false);
    assert!(!config.memcpy);
    assert_eq!(config.sysroot_path, "target/sysroot");
    assert!(config.panic_immediate_abort);
    assert!(!warn);
}

#[test]
fn a_root_package_without_a_section_has_the_defaults() {
    let metadata = workspace(vec![package("/ws/Cargo.toml", Section::Missing)]);
    let (config, warn) = loaded(&metadata, false);
    assert!(config.memcpy);
    assert_eq!(config.sysroot_path, "target/sysroot");
    assert!(!config.panic_immediate_abort);
    assert!(!warn);
}

#[test]
fn a_workspace_without_a_root_package_is_warned_of() {
    let metadata = workspace(vec![package(
        "/ws/member/Cargo.toml",
        Section::Invalid("ignored".to_string()),
    )]);
    let (config, warn) = loaded(&metadata, false);
    assert!(config.memcpy);
    assert!(warn);
    let (_, warn) = loaded(&metadata, true);
    assert!(!warn);
    let (_, warn) = loaded(&workspace(Vec::new()), false);
    assert!(warn);
}

#[test]
fn a_section_that_cannot_be_read_is_an_error() {
    let metadata = workspace(vec![package(
        "/ws/Cargo.toml",
        Section::Invalid("invalid type: string, expected a boolean".to_string()),
    )]);
    match Config::from_metadata(&metadata, false) {
        Err(e) => {
            assert_eq!(
                e.message(),
                "parsing package.metadata.cargo-xbuild section failed: invalid type: string, expected a boolean"
            );
            assert!(matches!(e, ConfigError::Metadata { .. }));
        }
        Ok(_) => panic!("expected an error"),
    }
}

#[test]
fn the_settings_are_hashed_field_by_field() {
    let config = Config {
        memcpy: false,
        sysroot_path: "target/sysroot".to_string(),
        panic_immediate_abort: true,
    };
    let mut hasher = DefaultHasher::new();
    config.hash(&mut hasher);
    let mut by_hand = DefaultHasher::new();
    by_hand.write(&[0]);
    by_hand.write(b"target/sysroot");
    by_hand.write(&[0xff]);
    by_hand.write(&[1]);
    assert_eq!(hasher.finish(), by_hand.finish());
}

#[test]
fn the_channel_decides_where_the_code_comes_from() {
    match choose_source(Channel::Dev, Some("/rust/library".to_string())) {
        Ok(Source::Environment(dir)) => assert_eq!(dir, "/rust/library"),
        _ => panic!("expected the named directory"),
    }
    match choose_source(Channel::Dev, None) {
        Err(e) => {
            assert_eq!(
                e.message(),
                "the directory of the standard library must be named when working with the 'dev' channel"
            );
            assert!(matches!(e, ConfigError::MissingSource));
        }
        Ok(_) => panic!("expected an error"),
    }
    assert!(matches!(choose_source(Channel::Nightly, None), Ok(Source::Sysroot)));
    match choose_source(Channel::Nightly, Some("/x".to_string())) {
        Ok(Source::Environment(dir)) => assert_eq!(dir, "/x"),
        _ => panic!("expected the named directory"),
    }
    match choose_source(Channel::Stable, Some("/x".to_string())) {
        Err(e) => {
            assert_eq!(
                e.message(),
                "The sysroot can't be built for the Stable channel. Switch to nightly."
            );
            assert!(matches!(e, ConfigError::Channel { .. }));
        }
        Ok(_) => panic!("expected an error"),
    }
    match choose_source(Channel::Beta, None) {
        Err(e) => assert_eq!(
            e.message(),
            "The sysroot can't be built for the Beta channel. Switch to nightly."
        ),
        Ok(_) => panic!("expected an error"),
    }
    assert_eq!(Channel::Dev.name(), "Dev");
    assert_eq!(Channel::Nightly.name(), "Nightly");
}

fn known() -> Vec<String> {
    vec!["thumb".to_string(), "thumbv7em-none-eabi".to_string(), "x86_64-unknown-linux-gnu".to_string()]
}

fn descriptor() -> Descriptor {
    Descriptor { json: "/cd/specs/my-target.json".to_string(), identity: "{\"arch\":\"arm\"}".to_string() }
}

#[test]
fn a_target_is_known_or_described_or_missing() {
    match Target::new("thumbv7em-none-eabi", &known(), Some(descriptor())) {
        Some(target) => {
            assert_eq!(target.triple(), "thumbv7em-none-eabi");
            assert_eq!(target.orig_triple(), "thumbv7em-none-eabi");
            assert_eq!(target.json(), None);
        }
        None => panic!("expected a target"),
    }
    match Target::new("specs/my-target.json", &known(), Some(descriptor())) {
        Some(target) => {
            assert_eq!(target.triple(), "my-target");
            assert_eq!(target.orig_triple(), "specs/my-target.json");
            assert_eq!(target.json(), Some("/cd/specs/my-target.json"));
        }
        None => panic!("expected a target"),
    }
    assert!(Target::new("unknown", &known(), None).is_none());
}

fn mode_key(mode: &CompilationMode) -> u64 {
    let mut hasher = DefaultHasher::new();
    mode.hash(&mut hasher);
    hasher.finish()
}

#[test]
fn a_mode_is_hashed_as_its_target() {
    let native = CompilationMode::Native("x86_64-unknown-linux-gnu".to_string());
    let mut by_hand = DefaultHasher::new();
    by_hand.write(b"x86_64-unknown-linux-gnu");
    by_hand.write(&[0xff]);
    assert_eq!(mode_key(&native), by_hand.finish());
    assert!(native.is_native());
    assert_eq!(native.triple(), "x86_64-unknown-linux-gnu");
    assert_eq!(native.orig_triple(), "x86_64-unknown-linux-gnu");

    let custom = match Target::new("specs/my-target.json", &known(), Some(descriptor())) {
        Some(target) => CompilationMode::Cross(target),
        None => panic!("expected a target"),
    };
    let mut by_hand = DefaultHasher::new();
    by_hand.write(b"my-target");
    by_hand.write(&[0xff]);
    by_hand.write(b"{\"arch\":\"arm\"}");
    by_hand.write(&[0xff]);
    assert_eq!(mode_key(&custom), by_hand.finish());
    assert!(!custom.is_native());
    assert_eq!(custom.triple(), "my-target");
    assert_eq!(custom.orig_triple(), "specs/my-target.json");

    let moved = Descriptor { json: "/elsewhere/my-target.json".to_string(), identity: "{\"arch\":\"arm\"}".to_string() };
    let moved = match Target::new("/elsewhere/my-target.json", &known(), Some(moved)) {
        Some(target) => CompilationMode::Cross(target),
        None => panic!("expected a target"),
    };
    assert_eq!(mode_key(&custom), mode_key(&moved));
}

#[test]
fn the_command_line_names_the_target_before_the_configuration() {
    match choose_mode(Some("thumb"), Some("other"), "host") {
        ModeChoice::Cross(triple) => assert_eq!(triple, "thumb"),
        _ => panic!("expected a cross build"),
    }
    match choose_mode(Some("host"), Some("other"), "host") {
        ModeChoice::Native(triple) => assert_eq!(triple, "host"),
        _ => panic!("expected a native build"),
    }
    match choose_mode(None, Some("host"), "host") {
        ModeChoice::Cross(triple) => assert_eq!(triple, "host"),
        _ => panic!("expected a cross build"),
    }
    match choose_mode(None, None, "host") {
        ModeChoice::Native(triple) => assert_eq!(triple, "host"),
        _ => panic!("expected a native build"),
    }
    assert_eq!(CurrentDirectory::new("/cd".to_string()).path(), "/cd");
}

fn settings() -> Config {
    Config { memcpy: true, sysroot_path: "target/sysroot".to_string(), panic_immediate_abort: false }
}

#[test]
fn the_sysroot_lies_where_it_is_named() {
    let default = home("/project", &settings(), false, None);
    assert_eq!(default.display(), "/project/target/sysroot");
    let named = home("/project", &settings(), false, Some("/tmp/sysroot".to_string()));
    assert_eq!(named.display(), "/tmp/sysroot");
    let mut absolute = settings();
    absolute.sysroot_path = "/abs/sysroot".to_string();
    assert_eq!(home("/project", &absolute, false, None).display(), "/abs/sysroot");
}

#[test]
fn the_libraries_of_a_target_have_a_directory_and_a_lock() {
    let sysroot = home("/project", &settings(), true, None);
    assert_eq!(sysroot.path("thumb").display(), "/project/target/sysroot/thumb");
    let shared = sysroot.lock_ro("thumb");
    assert_eq!(shared.path, "/project/target/sysroot/thumb/.sentinel");
    assert_eq!(shared.state, State::Shared);
    assert_eq!(shared.msg, "thumb's sysroot");
    assert!(shared.quiet);
    let alone = sysroot.lock_rw("thumb");
    assert_eq!(alone.path, "/project/target/sysroot/thumb/.sentinel");
    assert_eq!(alone.state, State::Exclusive);
    assert_eq!(alone.msg, "thumb's sysroot");
}

#[test]
fn a_build_reads_the_libraries_under_shared_locks() {
    let sysroot = home("/project", &settings(), false, None);
    let args = match Args::from_raw(vec!["--target".to_string(), "thumb".to_string()]) {
        Ok(args) => args,
        Err(e) => panic!("{}", e.message()),
    };
    let meta = VersionMeta {
        host: "x86_64-unknown-linux-gnu".to_string(),
        commit_hash: None,
        channel: Channel::Nightly,
    };
    let mode = match Target::new("thumb", &known(), None) {
        Some(target) => CompilationMode::Cross(target),
        None => panic!("expected a target"),
    };
    let flags = Rustflags::new(vec!["-g".to_string()]);
    match run(&args, &mode, &flags, &sysroot, &meta, "build", false) {
        Ok(invocation) => {
            assert_eq!(invocation.args, vec!["build", "--target", "thumb"]);
            assert_eq!(invocation.flags, "-g --sysroot /project/target/sysroot");
            assert_eq!(
                invocation.locks.0.path,
                "/project/target/sysroot/x86_64-unknown-linux-gnu/.sentinel"
            );
            assert_eq!(invocation.locks.0.state, State::Shared);
            assert_eq!(
                invocation.locks.1.path,
                "/project/target/sysroot/thumb/.sentinel"
            );
            assert_eq!(invocation.locks.1.state, State::Shared);
        }
        Err(e) => panic!("{}", e.message()),
    }
    let spaced = home("/my project", &settings(), false, None);
    assert!(matches!(
        run(&args, &mode, &flags, &spaced, &meta, "build", false),
        Err(ConfigError::SysrootSpaces { .. })
    ));
    assert!(run(&args, &mode, &flags, &spaced, &meta, "build", true).is_ok());
}

#[test]
fn the_compiler_describes_itself() {
    let text = "rustc 1.50.0-nightly (1c389ffef 2020-11-24)\nbinary: rustc\ncommit-hash: 1c389ffeff814726dec325f0f2b0c99107df2673\ncommit-date: 2020-11-24\nhost: x86_64-unknown-linux-gnu\nrelease: 1.50.0-nightly\n";
    match version(text) {
        Ok(meta) => {
            assert_eq!(meta.host, "x86_64-unknown-linux-gnu");
            assert_eq!(
                meta.commit_hash,
                Some("1c389ffeff814726dec325f0f2b0c99107df2673".to_string())
            );
            assert_eq!(meta.channel, Channel::Nightly);
        }
        Err(e) => panic!("{}", e.message()),
    }
    let stable = "rustc 1.48.0\nbinary: rustc\ncommit-hash: unknown\ncommit-date: unknown\nhost: aarch64-apple-darwin\nrelease: 1.48.0\n";
    match version(stable) {
        Ok(meta) => {
            assert_eq!(meta.host, "aarch64-apple-darwin");
            assert_eq!(meta.commit_hash, None);
            assert_eq!(meta.channel, Channel::Stable);
        }
        Err(e) => panic!("{}", e.message()),
    }
    let dev = "rustc 1.50.0-dev\nbinary: rustc\ncommit-hash: unknown\ncommit-date: unknown\nhost: h\nrelease: 1.50.0-dev\n";
    assert!(matches!(version(dev), Ok(VersionMeta { channel: Channel::Dev, .. })));
    let beta = "rustc 1.50.0-beta.2\nbinary: rustc\ncommit-hash: abc\ncommit-date: unknown\nhost: h\nrelease: 1.50.0-beta.2\n";
    assert!(matches!(version(beta), Ok(VersionMeta { channel: Channel::Beta, .. })));
}

#[test]
fn an_answer_in_another_form_is_refused() {
    match version("rustc 1.50.0\nhost: h\n") {
        Err(e) => {
            assert!(e.message().starts_with("getting rustc version failed: "));
            assert!(e.message().len() > "getting rustc version failed: ".len());
            assert!(matches!(e, ConfigError::Version { .. }));
        }
        Ok(_) => panic!("expected an error"),
    }
    assert!(version("").is_err());
}

#[test]
fn a_descriptor_is_known_by_its_content_written_anew() {
    let read = |path: &str, content: &str| match Descriptor::read(path.to_string(), content) {
        Ok(descriptor) => descriptor,
        Err(e) => panic!("{}", e.message()),
    };
    let one = read("/a/t.json", "{ \"os\": \"none\",\n  \"arch\": \"arm\", \"n\": [1, 2.5, true] }");
    assert_eq!(one.json, "/a/t.json");
    assert_eq!(one.identity, "{\"arch\":\"arm\",\"n\":[1,2.5,true],\"os\":\"none\"}");
    let moved = read("/b/t.json", "{\"n\":[1,2.5,true],\"arch\":\"arm\",\"os\":\"none\"}");
    assert_eq!(moved.identity, one.identity);
    let other = read("/a/t.json", "{\"arch\":\"arm\",\"os\":\"linux\"}");
    assert_ne!(other.identity, one.identity);
}

#[test]
fn a_descriptor_must_be_a_json_document() {
    match Descriptor::read("/a/t.json".to_string(), "{ \"os\": ") {
        Err(e) => {
            assert!(e.message().starts_with("/a/t.json is not valid JSON: "));
            assert!(e.message().len() > "/a/t.json is not valid JSON: ".len());
            assert!(matches!(e, ConfigError::InvalidJson { .. }));
        }
        Ok(_) => panic!("expected an error"),
    }
}

#[test]
fn every_target_has_a_lock_of_its_own() {
    let sysroot = home("/project/", &settings(), false, None);
    let names = ["thumb", "thumbv7em-none-eabi", "x86_64-unknown-linux-gnu", "t", ""];
    for (i, a) in names.iter().enumerate() {
        for (j, b) in names.iter().enumerate() {
            assert_eq!(sysroot.lock_rw(a).path == sysroot.lock_rw(b).path, i == j);
            assert_eq!(sysroot.lock_ro(a).path, sysroot.lock_rw(a).path);
        }
    }
}

#[test]
fn a_build_starts_only_under_both_read_locks() {
    let sysroot = home("/project", &settings(), false, None);
    let args = match Args::from_raw(Vec::new()) {
        Ok(args) => args,
        Err(e) => panic!("{}", e.message()),
    };
    let meta = VersionMeta { host: "host".to_string(), commit_hash: None, channel: Channel::Nightly };
    let mode = match Target::new("thumb", &known(), None) {
        Some(target) => CompilationMode::Cross(target),
        None => panic!("expected a target"),
    };
    let flags = Rustflags::new(Vec::new());
    let invocation = match run(&args, &mode, &flags, &sysroot, &meta, "build", false) {
        Ok(invocation) => invocation,
        Err(e) => panic!("{}", e.message()),
    };
    assert_eq!(invocation.locks.0.msg, "host's sysroot");
    assert_eq!(invocation.locks.1.msg, "thumb's sysroot");
    assert!(!invocation.locks.0.quiet);
    assert!(invocation.start(true, true).is_ok());
    for (host, target, named) in [(false, true, "host"), (false, false, "host"), (true, false, "thumb")] {
        match invocation.start(host, target) {
            Err(e) => {
                assert_eq!(e.message(), format!("couldn't lock {}'s sysroot as read-only", named));
                assert!(matches!(e, ConfigError::ReadLock { .. }));
            }
            Ok(()) => panic!("expected an error"),
        }
    }
}
