//! The arguments of the command line.

use vstd::prelude::*;

use crate::errors::ConfigError;
use crate::text::{opt_view, same_text, starts_with, strip_prefix, views};

verus! {

/// How much the run says.
#[derive(Debug, PartialEq, Eq, Clone, Copy, Structural)]
pub enum Verbosity {
    Quiet,
    Verbose,
}

/// What the command line asks for.
#[derive(Debug, PartialEq, Eq, Clone, Copy, Structural)]
pub enum Command {
    Build,
    Help,
    Version,
}

/// Whether `arg` is an argument that has a parameter of its own: one of
/// `--target`, `--manifest-path`, `--verbose` and `--quiet`, alone or with
/// `=` and a value behind it.
pub open spec fn is_explicit(arg: Seq<char>) -> bool {
    ||| arg == "--target"@
    ||| "--target="@.is_prefix_of(arg)
    ||| arg == "--manifest-path"@
    ||| "--manifest-path="@.is_prefix_of(arg)
    ||| arg == "--verbose"@
    ||| "--verbose="@.is_prefix_of(arg)
    ||| arg == "--quiet"@
    ||| "--quiet="@.is_prefix_of(arg)
}

/// The arguments of `args` from index `i` on that have a parameter of their
/// own, in order.
pub open spec fn explicit_from(args: Seq<Seq<char>>, i: int) -> Seq<Seq<char>>
    decreases args.len() - i,
{
    if i < 0 || i >= args.len() {
        Seq::empty()
    } else if is_explicit(args[i]) {
        seq![args[i]] + explicit_from(args, i + 1)
    } else {
        explicit_from(args, i + 1)
    }
}

/// The arguments that stand for the parameters given: `--target=` and the
/// target, `--manifest-path=` and the path, and `--verbose` or `--quiet`,
/// each where it is given, in this order.
pub open spec fn explicit_args(
    target: Option<Seq<char>>,
    manifest_path: Option<Seq<char>>,
    verbosity: Option<Verbosity>,
) -> Seq<Seq<char>> {
    (match target {
        Some(t) => seq!["--target="@ + t],
        None => Seq::empty(),
    }) + (match manifest_path {
        Some(p) => seq!["--manifest-path="@ + p],
        None => Seq::empty(),
    }) + (match verbosity {
        Some(Verbosity::Verbose) => seq!["--verbose"@],
        Some(Verbosity::Quiet) => seq!["--quiet"@],
        None => Seq::empty(),
    })
}

/// What a scan of the command line has found so far.
pub struct Found {
    pub target: Option<Seq<char>>,
    pub manifest_path: Option<Seq<char>>,
    pub verbosity: Option<Verbosity>,
}

/// Whether `arg` asks for a verbose run.
pub open spec fn asks_verbose(arg: Seq<char>) -> bool {
    arg == "--verbose"@ || arg == "-v"@ || arg == "-vv"@
}

/// Whether `arg` asks for a quiet run.
pub open spec fn asks_quiet(arg: Seq<char>) -> bool {
    arg == "--quiet"@ || arg == "-q"@
}

/// The value that `arg` gives to the option `name`, where it gives one: the
/// argument behind it where `arg` is `name` (none where it is the last), or
/// what follows `=` where `arg` starts with `name` and `=`.
pub open spec fn option_value(all: Seq<Seq<char>>, i: int, name: Seq<char>) -> Option<
    Option<Seq<char>>,
> {
    if all[i] == name {
        Some(
            if i + 1 < all.len() {
                Some(all[i + 1])
            } else {
                None
            },
        )
    } else if (name + "="@).is_prefix_of(all[i]) {
        Some(Some(all[i].skip((name.len() + 1) as int)))
    } else {
        None
    }
}

/// What a scan of `all` from index `i` on finds, having found `found` before:
/// the last value given to each option, or nothing where both a verbose and a
/// quiet run are asked for. An argument that is taken as the value of
/// `--target` or `--manifest-path` is not looked at again.
pub open spec fn scan(all: Seq<Seq<char>>, i: int, found: Found) -> Option<Found>
    decreases all.len() - i,
{
    if i < 0 || i >= all.len() {
        Some(found)
    } else {
        let arg = all[i];
        let target = match option_value(all, i, "--target"@) {
            Some(v) => v,
            None => found.target,
        };
        let manifest_path = match option_value(all, i, "--manifest-path"@) {
            Some(v) => v,
            None => found.manifest_path,
        };
        let taken = (arg == "--target"@ || arg == "--manifest-path"@) && i + 1 < all.len();
        let next = if taken {
            i + 2
        } else {
            i + 1
        };
        if asks_verbose(arg) {
            if found.verbosity == Some(Verbosity::Quiet) {
                None
            } else {
                scan(all, next, Found { target, manifest_path, verbosity: Some(Verbosity::Verbose) })
            }
        } else if asks_quiet(arg) {
            if found.verbosity == Some(Verbosity::Verbose) {
                None
            } else {
                scan(all, next, Found { target, manifest_path, verbosity: Some(Verbosity::Quiet) })
            }
        } else {
            scan(all, next, Found { target, manifest_path, verbosity: found.verbosity })
        }
    }
}

/// The arguments of a run: all of them as they go on to the build tool, and
/// what they say of the target, the manifest and how much to print.
#[derive(Debug)]
pub struct Args {
    all: Vec<String>,
    target: Option<String>,
    manifest_path: Option<String>,
    verbosity: Option<Verbosity>,
}

impl Args {
    /// All arguments, in order.
    pub closed spec fn spec_all(&self) -> Seq<Seq<char>> {
        views(self.all@)
    }

    /// What the arguments say of the target, the manifest and how much to
    /// print.
    pub closed spec fn found(&self) -> Found {
        Found {
            target: opt_view(self.target),
            manifest_path: opt_view(self.manifest_path),
            verbosity: self.verbosity,
        }
    }

    /// The arguments made of the parameters given and of `other_args`, which
    /// go on unchanged. Fails where `other_args` holds an argument that has a
    /// parameter of its own, and names each of them.
    pub fn new(
        target: Option<String>,
        manifest_path: Option<String>,
        verbosity: Option<Verbosity>,
        other_args: Vec<String>,
    ) -> (r: Result<Args, ConfigError>)
        ensures
            match r {
                Ok(args) => {
                    &&& explicit_from(views(other_args@), 0).len() == 0
                    &&& args.spec_all() == views(other_args@) + explicit_args(
                        opt_view(target),
                        opt_view(manifest_path),
                        verbosity,
                    )
                    &&& args.found() == Found {
                        target: opt_view(target),
                        manifest_path: opt_view(manifest_path),
                        verbosity,
                    }
                },
                Err(e) => {
                    &&& e matches ConfigError::ExplicitArgs { duplicates }
                    &&& views(duplicates@) == explicit_from(views(other_args@), 0)
                    &&& duplicates@.len() > 0
                },
            },
    {
        let ghost others = views(other_args@);
        let mut duplicates: Vec<String> = Vec::new();
        let mut i: usize = 0;
        assert(views(duplicates@) + explicit_from(others, 0) =~= explicit_from(others, 0));
        while i < other_args.len()
            invariant
                i <= other_args.len(),
                others == views(other_args@),
                views(duplicates@) + explicit_from(others, i as int) == explicit_from(others, 0),
            decreases other_args.len() - i,
        {
            let arg = other_args[i].as_str();
            assert(arg@ == others[i as int]);
            if is_explicit_arg(arg) {
                let ghost before = views(duplicates@);
                duplicates.push(arg.to_owned());
                assert(views(duplicates@) =~= before.push(arg@));
                assert(views(duplicates@) + explicit_from(others, i + 1) =~= before
                    + explicit_from(others, i as int));
            }
            i += 1;
        }
        assert(views(duplicates@) =~= views(duplicates@) + explicit_from(others, i as int));
        if duplicates.len() > 0 {
            return Err(ConfigError::ExplicitArgs { duplicates });
        }
        let mut all = other_args;
        let ghost mut added: Seq<Seq<char>> = Seq::empty();
        assert(views(all@) =~= others + added);
        if let Some(t) = &target {
            all.push(String::from_str("--target=").concat(t.as_str()));
            proof {
                added = added.push("--target="@ + t@);
            }
            assert(views(all@) =~= others + added);
        }
        if let Some(p) = &manifest_path {
            all.push(String::from_str("--manifest-path=").concat(p.as_str()));
            proof {
                added = added.push("--manifest-path="@ + p@);
            }
            assert(views(all@) =~= others + added);
        }
        match verbosity {
            Some(Verbosity::Verbose) => {
                all.push(String::from_str("--verbose"));
                proof {
                    added = added.push("--verbose"@);
                }
                assert(views(all@) =~= others + added);
            },
            Some(Verbosity::Quiet) => {
                all.push(String::from_str("--quiet"));
                proof {
                    added = added.push("--quiet"@);
                }
                assert(views(all@) =~= others + added);
            },
            None => {},
        }
        assert(added =~= explicit_args(opt_view(target), opt_view(manifest_path), verbosity));
        Ok(Args { all, target, manifest_path, verbosity })
    }

    /// The arguments as the command line gives them. Fails where they ask
    /// for both a verbose and a quiet run.
    pub fn from_raw(all: Vec<String>) -> (r: Result<Args, ConfigError>)
        ensures
            match scan(
                views(all@),
                0,
                Found { target: None, manifest_path: None, verbosity: None },
            ) {
                Some(found) => r is Ok && r->Ok_0.spec_all() == views(all@) && r->Ok_0.found()
                    == found,
                None => r matches Err(ConfigError::VerboseAndQuiet),
            },
    {
        let ghost texts = views(all@);
        let mut target: Option<String> = None;
        let mut manifest_path: Option<String> = None;
        let mut verbosity: Option<Verbosity> = None;
        let mut i: usize = 0;
        while i < all.len()
            invariant
                i <= all.len(),
                texts == views(all@),
                scan(
                    texts,
                    i as int,
                    Found {
                        target: opt_view(target),
                        manifest_path: opt_view(manifest_path),
                        verbosity,
                    },
                ) == scan(texts, 0, Found { target: None, manifest_path: None, verbosity: None }),
            decreases all.len() - i,
        {
            let arg = all[i].as_str();
            assert(arg@ == texts[i as int]);
            let mut next: usize = i + 1;
            if same_text(arg, "--target") {
                if i + 1 < all.len() {
                    assert(all@[i + 1]@ == texts[i + 1]);
                    target = Some(all[i + 1].clone());
                    next = i + 2;
                } else {
                    target = None;
                }
            } else if let Some(value) = strip_prefix(arg, "--target=") {
                proof {
                    lemma_names_differ();
                    lemma_value_behind("--target"@, value@, arg@);
                }
                target = Some(value.to_owned());
            }
            if same_text(arg, "--manifest-path") {
                if i + 1 < all.len() {
                    assert(all@[i + 1]@ == texts[i + 1]);
                    manifest_path = Some(all[i + 1].clone());
                    next = i + 2;
                } else {
                    manifest_path = None;
                }
            } else if let Some(value) = strip_prefix(arg, "--manifest-path=") {
                proof {
                    lemma_names_differ();
                    lemma_value_behind("--manifest-path"@, value@, arg@);
                }
                manifest_path = Some(value.to_owned());
            }
            proof {
                lemma_names_differ();
            }
            if same_text(arg, "--verbose") || same_text(arg, "-v") || same_text(arg, "-vv") {
                if let Some(Verbosity::Quiet) = verbosity {
                    return Err(ConfigError::VerboseAndQuiet);
                }
                verbosity = Some(Verbosity::Verbose);
            } else if same_text(arg, "--quiet") || same_text(arg, "-q") {
                if let Some(Verbosity::Verbose) = verbosity {
                    return Err(ConfigError::VerboseAndQuiet);
                }
                verbosity = Some(Verbosity::Quiet);
            }
            i = next;
        }
        Ok(Args { all, target, manifest_path, verbosity })
    }

    /// All arguments, in order.
    pub fn all(&self) -> (r: &Vec<String>)
        ensures
            views(r@) == self.spec_all(),
    {
        &self.all
    }

    /// The target that the arguments name, where they name one.
    pub fn target(&self) -> (r: Option<&str>)
        ensures
            match r {
                Some(t) => self.found().target == Some(t@),
                None => self.found().target is None,
            },
    {
        match &self.target {
            Some(t) => Some(t.as_str()),
            None => None,
        }
    }

    /// The path of the manifest that the arguments name, where they name
    /// one.
    pub fn manifest_path(&self) -> (r: Option<&str>)
        ensures
            match r {
                Some(p) => self.found().manifest_path == Some(p@),
                None => self.found().manifest_path is None,
            },
    {
        match &self.manifest_path {
            Some(p) => Some(p.as_str()),
            None => None,
        }
    }

    /// Whether the arguments ask for a quiet run.
    pub fn quiet(&self) -> (r: bool)
        ensures
            r == (self.found().verbosity == Some(Verbosity::Quiet)),
    {
        match self.verbosity {
            Some(Verbosity::Quiet) => true,
            _ => false,
        }
    }

    /// Whether the arguments ask for a verbose run.
    pub fn verbose(&self) -> (r: bool)
        ensures
            r == (self.found().verbosity == Some(Verbosity::Verbose)),
    {
        match self.verbosity {
            Some(Verbosity::Verbose) => true,
            _ => false,
        }
    }
}

/// Whether `arg` is an argument that has a parameter of its own.
pub fn is_explicit_arg(arg: &str) -> (r: bool)
    ensures
        r == is_explicit(arg@),
{
    same_text(arg, "--target") || starts_with(arg, "--target=") || same_text(
        arg,
        "--manifest-path",
    ) || starts_with(arg, "--manifest-path=") || same_text(arg, "--verbose") || starts_with(
        arg,
        "--verbose=",
    ) || same_text(arg, "--quiet") || starts_with(arg, "--quiet=")
}

/// What follows `name` and `=` in an argument that starts with them.
proof fn lemma_value_behind(name: Seq<char>, value: Seq<char>, arg: Seq<char>)
    requires
        arg == name + "="@ + value,
    ensures
        (name + "="@).is_prefix_of(arg),
        arg.skip((name.len() + 1) as int) == value,
        arg != name,
{
    reveal_strlit("=");
    assert("="@.len() == 1);
    let prefix = name + "="@;
    assert(arg.subrange(0, prefix.len() as int) =~= prefix);
    assert(arg.skip((name.len() + 1) as int) =~= value);
}

/// The names of the options and flags are different texts, and an option's
/// name with `=` behind it is what it looks like.
proof fn lemma_names_differ()
    ensures
        "--target="@ == "--target"@ + "="@,
        "--manifest-path="@ == "--manifest-path"@ + "="@,
        "--target"@ != "--manifest-path"@,
        !asks_verbose("--target"@) && !asks_quiet("--target"@),
        !asks_verbose("--manifest-path"@) && !asks_quiet("--manifest-path"@),
        forall|arg: Seq<char>|
            "--target="@.is_prefix_of(arg) ==> !(#[trigger] asks_verbose(arg)) && arg
                != "--manifest-path"@,
        forall|arg: Seq<char>| "--target="@.is_prefix_of(arg) ==> !(#[trigger] asks_quiet(arg)),
        forall|arg: Seq<char>|
            "--manifest-path="@.is_prefix_of(arg) ==> !(#[trigger] asks_verbose(arg)) && arg
                != "--target"@,
        forall|arg: Seq<char>|
            "--manifest-path="@.is_prefix_of(arg) ==> !(#[trigger] asks_quiet(arg)),
        forall|arg: Seq<char>| asks_verbose(arg) ==> !(#[trigger] asks_quiet(arg)),
{
    reveal_strlit("--target");
    reveal_strlit("--target=");
    reveal_strlit("--manifest-path");
    reveal_strlit("--manifest-path=");
    reveal_strlit("--verbose");
    reveal_strlit("--quiet");
    reveal_strlit("-v");
    reveal_strlit("-vv");
    reveal_strlit("-q");
    reveal_strlit("=");
    let target = "--target"@;
    let target_eq = "--target="@;
    let manifest = "--manifest-path"@;
    let manifest_eq = "--manifest-path="@;
    let verbose = "--verbose"@;
    let quiet = "--quiet"@;
    assert(target.len() == 8 && target_eq.len() == 9 && manifest.len() == 15 && manifest_eq.len()
        == 16);
    assert(verbose.len() == 9 && quiet.len() == 7 && "-v"@.len() == 2 && "-vv"@.len() == 3
        && "-q"@.len() == 2 && "="@.len() == 1);
    assert(target[2] == 't' && target_eq[2] == 't' && manifest[2] == 'm' && manifest_eq[2] == 'm'
        && verbose[2] == 'v' && quiet[2] == 'q');
    assert("-v"@[1] == 'v' && "-q"@[1] == 'q');
    assert(target_eq =~= target + "="@);
    assert(manifest_eq =~= manifest + "="@);
    assert forall|arg: Seq<char>| target_eq.is_prefix_of(arg) implies !(#[trigger] asks_verbose(
        arg,
    )) && arg != manifest && !asks_quiet(arg) by {
        assert(arg.subrange(0, 9)[2] == arg[2]);
    }
    assert forall|arg: Seq<char>| manifest_eq.is_prefix_of(arg) implies !(#[trigger] asks_verbose(
        arg,
    )) && arg != target && !asks_quiet(arg) by {
        assert(arg.subrange(0, 16)[2] == arg[2]);
    }
    assert forall|arg: Seq<char>| target_eq.is_prefix_of(arg) implies !(#[trigger] asks_quiet(
        arg,
    )) by {
        assert(arg.subrange(0, 9)[2] == arg[2]);
    }
    assert forall|arg: Seq<char>| manifest_eq.is_prefix_of(arg) implies !(#[trigger] asks_quiet(
        arg,
    )) by {
        assert(arg.subrange(0, 16)[2] == arg[2]);
    }
}

/// What a command line asks for: help or the version where its first
/// argument says so, else a build.
pub open spec fn command_of(first: Option<Seq<char>>) -> Command {
    match first {
        Some(arg) => if arg == "-h"@ || arg == "--help"@ {
            Command::Help
        } else if arg == "-v"@ || arg == "--version"@ {
            Command::Version
        } else {
            Command::Build
        },
        None => Command::Build,
    }
}

/// The command and the arguments of a run. `raw` is the command line without
/// the program's name: the subcommand, `x` and `command_name`, then the
/// arguments.
pub fn args(command_name: &str, raw: Vec<String>) -> (r: Result<(Command, Args), ConfigError>)
    ensures
        if raw@.len() == 0 || raw@[0]@ != "x"@ + command_name@ {
            r matches Err(ConfigError::NotSubcommand { command_name: name }) && name@
                == command_name@
        } else {
            let all = views(raw@).skip(1);
            match scan(all, 0, Found { target: None, manifest_path: None, verbosity: None }) {
                Some(found) => {
                    &&& r is Ok
                    &&& r->Ok_0.0 == command_of(
                        if all.len() > 0 {
                            Some(all[0])
                        } else {
                            None
                        },
                    )
                    &&& r->Ok_0.1.spec_all() == all
                    &&& r->Ok_0.1.found() == found
                },
                None => r matches Err(ConfigError::VerboseAndQuiet),
            }
        },
{
    let subcommand = String::from_str("x").concat(command_name);
    if raw.len() == 0 || !same_text(raw[0].as_str(), subcommand.as_str()) {
        return Err(ConfigError::NotSubcommand { command_name: command_name.to_owned() });
    }
    let mut all: Vec<String> = Vec::new();
    let mut i: usize = 1;
    while i < raw.len()
        invariant
            1 <= i <= raw.len(),
            all.len() == i - 1,
            forall|j: int| 0 <= j < all.len() ==> all@[j]@ == raw@[j + 1]@,
        decreases raw.len() - i,
    {
        all.push(raw[i].clone());
        i += 1;
    }
    assert(views(all@) =~= views(raw@).skip(1));
    let command = if all.len() == 0 {
        Command::Build
    } else {
        let first = all[0].as_str();
        if same_text(first, "-h") || same_text(first, "--help") {
            Command::Help
        } else if same_text(first, "-v") || same_text(first, "--version") {
            Command::Version
        } else {
            Command::Build
        }
    };
    match Args::from_raw(all) {
        Ok(args) => Ok((command, args)),
        Err(e) => Err(e),
    }
}

} // verus!
