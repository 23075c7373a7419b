use cargo_xbuild::cli::{args, is_explicit_arg, Args, Command, Verbosity};
use cargo_xbuild::errors::ConfigError;

fn list(items: &[&str]) -> Vec<String> {
    items.iter().map(|s| s.to_string()).collect()
}

fn raw(items: &[&str]) -> Args {
    match Args::from_raw(list(items)) {
        Ok(args) => args,
        Err(e) => panic!("{}", e.message()),
    }
}

#[test]
fn explicit_parameters_are_added_behind_the_others() {
    let args = Args::new(
        Some("thumbv7em-none-eabi".to_string()),
        Some("/p/Cargo.toml".to_string()),
        Some(Verbosity::Verbose),
        list(&["--release", "--features", "a"]),
    );
    let args = match args {
        Ok(args) => args,
        Err(e) => panic!("{}", e.message()),
    };
    assert_eq!(
        args.all(),
        &list(&[
            "--release",
            "--features",
            "a",
            "--target=thumbv7em-none-eabi",
            "--manifest-path=/p/Cargo.toml",
            "--verbose"
        ])
    );
    assert_eq!(args.target(), Some("thumbv7em-none-eabi"));
    assert_eq!(args.manifest_path(), Some("/p/Cargo.toml"));
    assert!(args.verbose());
    assert!(!args.quiet());
}

#[test]
fn parameters_that_are_left_out_add_nothing() {
    let args = match Args::new(None, None, None, list(&["--release"])) {
        Ok(args) => args,
        Err(e) => panic!("{}", e.message()),
    };
    assert_eq!(args.all(), &list(&["--release"]));
    assert_eq!(args.target(), None);
    assert_eq!(args.manifest_path(), None);
    assert!(!args.verbose());
    assert!(!args.quiet());
    let quiet = match Args::new(None, None, Some(Verbosity::Quiet), Vec::new()) {
        Ok(args) => args,
        Err(e) => panic!("{}", e.message()),
    };
    assert_eq!(quiet.all(), &list(&["--quiet"]));
    assert!(quiet.quiet());
}

#[test]
fn explicit_arguments_among_the_others_are_refused() {
    let r = Args::new(
        None,
        None,
        None,
        list(&["--release", "--target", "x", "--quiet=1", "-q", "--manifest-path=/m"]),
    );
    match r {
        Err(ConfigError::ExplicitArgs { duplicates }) => {
            assert_eq!(duplicates, list(&["--target", "--quiet=1", "--manifest-path=/m"]));
            let e = ConfigError::ExplicitArgs { duplicates };
            assert_eq!(
                e.message(),
                "The following args should be passed explicitly: [\"--target\", \"--quiet=1\", \"--manifest-path=/m\"]"
            );
        }
        _ => panic!("expected an error"),
    }
}

#[test]
fn explicit_arguments_are_told_from_others() {
    assert!(is_explicit_arg("--target"));
    assert!(is_explicit_arg("--target=x"));
    assert!(is_explicit_arg("--verbose"));
    assert!(is_explicit_arg("--quiet"));
    assert!(is_explicit_arg("--manifest-path=a=b"));
    assert!(!is_explicit_arg("--targets"));
    assert!(!is_explicit_arg("-v"));
    assert!(!is_explicit_arg("target"));
    assert!(!is_explicit_arg(""));
}

#[test]
fn the_command_line_is_scanned_for_options() {
    let args = raw(&["--target", "thumb", "--manifest-path=/p/Cargo.toml", "-v", "--release"]);
    assert_eq!(args.target(), Some("thumb"));
    assert_eq!(args.manifest_path(), Some("/p/Cargo.toml"));
    assert!(args.verbose());
    assert_eq!(
        args.all(),
        &list(&["--target", "thumb", "--manifest-path=/p/Cargo.toml", "-v", "--release"])
    );
}

#[test]
fn the_last_value_of_an_option_counts() {
    let args = raw(&["--target=a", "--target", "b", "--target=c=d"]);
    assert_eq!(args.target(), Some("c=d"));
    let args = raw(&["--manifest-path", "x", "--manifest-path="]);
    assert_eq!(args.manifest_path(), Some(""));
}

#[test]
fn an_option_without_a_value_forgets_the_one_before() {
    let args = raw(&["--target=a", "--target"]);
    assert_eq!(args.target(), None);
    let args = raw(&["--manifest-path", "m", "--manifest-path"]);
    assert_eq!(args.manifest_path(), None);
}

#[test]
fn the_value_of_an_option_is_not_read_as_a_flag() {
    let args = raw(&["--target", "-q", "-v"]);
    assert_eq!(args.target(), Some("-q"));
    assert!(args.verbose());
    let args = raw(&["--manifest-path", "--target", "x"]);
    assert_eq!(args.manifest_path(), Some("--target"));
    assert_eq!(args.target(), None);
}

#[test]
fn verbose_and_quiet_exclude_each_other() {
    for line in [vec!["-v", "-q"], vec!["--quiet", "--verbose"], vec!["-q", "x", "-vv"]] {
        match Args::from_raw(list(&line)) {
            Err(e) => {
                assert_eq!(e.message(), "cannot set both --verbose and --quiet");
                assert!(matches!(e, ConfigError::VerboseAndQuiet));
            }
            Ok(_) => panic!("expected an error"),
        }
    }
    assert!(raw(&["-v", "-vv", "--verbose"]).verbose());
    assert!(raw(&["-q", "--quiet"]).quiet());
}

#[test]
fn the_subcommand_must_come_first() {
    match args("build", list(&["xbuild", "--release"])) {
        Ok((command, args)) => {
            assert_eq!(command, Command::Build);
            assert_eq!(args.all(), &list(&["--release"]));
        }
        Err(e) => panic!("{}", e.message()),
    }
    for line in [vec![], vec!["build"], vec!["--release", "xbuild"]] {
        match args("build", list(&line)) {
            Err(e) => {
                assert_eq!(e.message(), "must be invoked as cargo subcommand: `cargo xbuild`");
                assert!(matches!(e, ConfigError::NotSubcommand { .. }));
            }
            Ok(_) => panic!("expected an error"),
        }
    }
}

#[test]
fn help_and_version_are_asked_for_first() {
    let command = |line: &[&str]| match args("test", list(line)) {
        Ok((command, _)) => command,
        Err(e) => panic!("{}", e.message()),
    };
    assert_eq!(command(&["xtest", "-h"]), Command::Help);
    assert_eq!(command(&["xtest", "--help", "x"]), Command::Help);
    assert_eq!(command(&["xtest", "-v"]), Command::Version);
    assert_eq!(command(&["xtest", "--version"]), Command::Version);
    assert_eq!(command(&["xtest"]), Command::Build);
    assert_eq!(command(&["xtest", "--release", "--help"]), Command::Build);
    assert!(matches!(args("test", list(&["xtest", "-v", "-q"])), Err(ConfigError::VerboseAndQuiet)));
}
