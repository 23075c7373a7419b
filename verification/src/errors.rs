//! What can go wrong before anything is built.

use vstd::prelude::*;

use crate::text::{debug_list, debug_text, views};

verus! {

/// A configuration that cannot be used, and why.
#[derive(Debug)]
pub enum ConfigError {
    /// `build.<tool>` of the configuration file is not an array of strings.
    BuildFlags { tool: String },
    /// `target.<target>.<tool>` of the configuration file is not an array of
    /// strings.
    TargetFlags { target: String, tool: String },
    /// `build.target` of the configuration file is not a string.
    BuildTarget,
    /// The file at `path` is no document of the configuration format.
    InvalidToml { path: String, message: String },
    /// The section of this tool in the manifest's metadata cannot be read.
    Metadata { message: String },
    /// A file that was found under a directory has a path that does not
    /// start with the directory's.
    NotUnder { entry: String, base: String },
    /// The compiler's description of itself cannot be read.
    Version { message: String },
    /// The descriptor file at `path` is no JSON document.
    InvalidJson { path: String, message: String },
    /// The libraries of an entry of the sysroot cannot be locked for
    /// reading.
    ReadLock { entry: String },
    /// A value cannot be written in the configuration format.
    Unwritable,
    /// Arguments that have a parameter of their own were passed among the
    /// others.
    ExplicitArgs { duplicates: Vec<String> },
    /// The program was not started as the build tool's subcommand.
    NotSubcommand { command_name: String },
    /// Both a verbose and a quiet run were asked for.
    VerboseAndQuiet,
    /// The sysroot's path holds a space.
    SysrootSpaces { sysroot: String },
    /// The compiler was built from source and no source directory was named.
    MissingSource,
    /// The compiler is of a channel that cannot build the runtime libraries.
    Channel { name: String },
}

impl ConfigError {
    /// The text of the error.
    pub open spec fn text(self) -> Seq<char> {
        match self {
            ConfigError::BuildFlags { tool } => ".cargo/config: build."@ + tool@
                + " must be an array of strings"@,
            ConfigError::TargetFlags { target, tool } => ".cargo/config: target."@ + target@ + "."@
                + tool@ + " must be an array of strings"@,
            ConfigError::BuildTarget => ".cargo/config: build.target must be a string"@,
            ConfigError::InvalidToml { path, message } => path@ + " is not valid TOML: "@ + message@,
            ConfigError::Metadata { message } => "parsing package.metadata.cargo-xbuild section failed: "@
                + message@,
            ConfigError::NotUnder { entry, base } => "Could not retrieve relative path of child directory or file `"@
                + entry@ + "` with regards to parent directory `"@ + base@ + "`"@,
            ConfigError::Version { message } => "getting rustc version failed: "@ + message@,
            ConfigError::InvalidJson { path, message } => path@ + " is not valid JSON: "@
                + message@,
            ConfigError::ReadLock { entry } => "couldn't lock "@ + entry@ + " as read-only"@,
            ConfigError::Unwritable => "a value cannot be written as TOML"@,
            ConfigError::ExplicitArgs { duplicates } => "The following args should be passed explicitly: "@
                + debug_text(views(duplicates@)),
            ConfigError::NotSubcommand { command_name } => "must be invoked as cargo subcommand: `cargo x"@
                + command_name@ + "`"@,
            ConfigError::VerboseAndQuiet => "cannot set both --verbose and --quiet"@,
            ConfigError::SysrootSpaces { sysroot } => "Sysroot must not contain spaces!\nSee issue https://github.com/rust-lang/cargo/issues/6139\n\nThe sysroot is `"@
                + sysroot@
                + "`.\n\nTo override this error, you can set the `XBUILD_ALLOW_SYSROOT_SPACES` environment variable."@,
            ConfigError::MissingSource => "the directory of the standard library must be named when working with the 'dev' channel"@,
            ConfigError::Channel { name } => "The sysroot can't be built for the "@ + name@
                + " channel. Switch to nightly."@,
        }
    }

    /// The text of the error.
    pub fn message(&self) -> (r: String)
        ensures
            r@ == self.text(),
    {
        match self {
            ConfigError::BuildFlags { tool } => String::from_str(".cargo/config: build.").concat(
                tool.as_str(),
            ).concat(" must be an array of strings"),
            ConfigError::TargetFlags { target, tool } => String::from_str(
                ".cargo/config: target.",
            ).concat(target.as_str()).concat(".").concat(tool.as_str()).concat(
                " must be an array of strings",
            ),
            ConfigError::BuildTarget => String::from_str(
                ".cargo/config: build.target must be a string",
            ),
            ConfigError::InvalidToml { path, message } => path.clone().concat(
                " is not valid TOML: ",
            ).concat(message.as_str()),
            ConfigError::Metadata { message } => String::from_str(
                "parsing package.metadata.cargo-xbuild section failed: ",
            ).concat(message.as_str()),
            ConfigError::NotUnder { entry, base } => String::from_str(
                "Could not retrieve relative path of child directory or file `",
            ).concat(entry.as_str()).concat("` with regards to parent directory `").concat(
                base.as_str(),
            ).concat("`"),
            ConfigError::Version { message } => String::from_str(
                "getting rustc version failed: ",
            ).concat(message.as_str()),
            ConfigError::InvalidJson { path, message } => path.clone().concat(
                " is not valid JSON: ",
            ).concat(message.as_str()),
            ConfigError::ReadLock { entry } => String::from_str("couldn't lock ").concat(
                entry.as_str(),
            ).concat(" as read-only"),
            ConfigError::Unwritable => String::from_str("a value cannot be written as TOML"),
            ConfigError::ExplicitArgs { duplicates } => String::from_str(
                "The following args should be passed explicitly: ",
            ).concat(debug_list(duplicates).as_str()),
            ConfigError::NotSubcommand { command_name } => String::from_str(
                "must be invoked as cargo subcommand: `cargo x",
            ).concat(command_name.as_str()).concat("`"),
            ConfigError::VerboseAndQuiet => String::from_str("cannot set both --verbose and --quiet"),
            ConfigError::SysrootSpaces { sysroot } => String::from_str(
                "Sysroot must not contain spaces!\nSee issue https://github.com/rust-lang/cargo/issues/6139\n\nThe sysroot is `",
            ).concat(sysroot.as_str()).concat(
                "`.\n\nTo override this error, you can set the `XBUILD_ALLOW_SYSROOT_SPACES` environment variable.",
            ),
            ConfigError::MissingSource => String::from_str(
                "the directory of the standard library must be named when working with the 'dev' channel",
            ),
            ConfigError::Channel { name } => String::from_str(
                "The sysroot can't be built for the ",
            ).concat(name.as_str()).concat(" channel. Switch to nightly."),
        }
    }
}

} // verus!
