//! What a project's manifest says of how its runtime libraries are built.

use std::collections::hash_map::DefaultHasher;
use vstd::prelude::*;

use crate::digest::{feed_flag, feed_text, flag_feed, text_feed};
use crate::errors::ConfigError;
use crate::paths::{join, joined};
use crate::text::same_text;

verus! {

/// How the runtime libraries are built.
#[derive(Debug)]
pub struct Config {
    /// Whether the optimised memory routines are built in.
    pub memcpy: bool,
    /// Where the sysroot is kept, from the project's root.
    pub sysroot_path: String,
    /// Whether a panic aborts at once.
    pub panic_immediate_abort: bool,
}

/// What a manifest says of how the runtime libraries are built: each
/// setting may be left out.
#[derive(Debug)]
pub struct ParseConfig {
    pub memcpy: Option<bool>,
    pub sysroot_path: Option<String>,
    pub panic_immediate_abort: Option<bool>,
}

/// The section of this tool in a package's metadata.
#[derive(Debug)]
pub enum Section {
    /// The package has none.
    Missing,
    /// The package has one that cannot be read, and why.
    Invalid(String),
    /// The package has this one.
    Found(ParseConfig),
}

/// One package of a workspace.
#[derive(Debug)]
pub struct Package {
    /// The path of the package's manifest.
    pub manifest_path: String,
    /// The section of this tool in the package's metadata.
    pub section: Section,
}

/// What the build tool says of a workspace.
#[derive(Debug)]
pub struct Metadata {
    /// The directory of the workspace.
    pub workspace_root: String,
    /// The packages of the workspace.
    pub packages: Vec<Package>,
}

/// The name of a manifest file.
pub open spec fn manifest_name() -> Seq<char> {
    "Cargo.toml"@
}

/// The sysroot's place where the manifest names none.
pub open spec fn default_sysroot_path() -> Seq<char> {
    "target/sysroot"@
}

/// The index of the first package of `packages`, from index `i` on, whose
/// manifest is the file at `manifest`.
pub open spec fn package_at(packages: Seq<Package>, manifest: Seq<char>, i: int) -> Option<int>
    decreases packages.len() - i,
{
    if i < 0 || i >= packages.len() {
        None
    } else if packages[i].manifest_path@ == manifest {
        Some(i)
    } else {
        package_at(packages, manifest, i + 1)
    }
}

/// The package at the root of a workspace, where there is one: the first
/// whose manifest lies in the workspace's directory.
pub open spec fn root_package(metadata: Metadata) -> Option<Package> {
    match package_at(
        metadata.packages@,
        joined(metadata.workspace_root@, manifest_name()),
        0,
    ) {
        Some(i) => Some(metadata.packages@[i]),
        None => None,
    }
}

impl ParseConfig {
    /// No setting at all.
    pub open spec fn spec_empty() -> ParseConfig {
        ParseConfig { memcpy: None, sysroot_path: None, panic_immediate_abort: None }
    }

    /// No setting at all.
    pub fn empty() -> (r: ParseConfig)
        ensures
            r == ParseConfig::spec_empty(),
    {
        ParseConfig { memcpy: None, sysroot_path: None, panic_immediate_abort: None }
    }
}

impl Config {
    /// Whether `self` holds the settings of `parsed`, and for each that is
    /// left out its default: the optimised memory routines are built in,
    /// the sysroot is kept under `target/sysroot`, a panic unwinds.
    pub open spec fn completes(&self, parsed: ParseConfig) -> bool {
        &&& self.memcpy == match parsed.memcpy {
            Some(b) => b,
            None => true,
        }
        &&& self.sysroot_path@ == match parsed.sysroot_path {
            Some(p) => p@,
            None => default_sysroot_path(),
        }
        &&& self.panic_immediate_abort == match parsed.panic_immediate_abort {
            Some(b) => b,
            None => false,
        }
    }

    /// The settings of `parsed`, with the default for each that is left out.
    pub fn from_parsed(parsed: &ParseConfig) -> (r: Config)
        ensures
            r.completes(*parsed),
    {
        Config {
            memcpy: match parsed.memcpy {
                Some(b) => b,
                None => true,
            },
            sysroot_path: match &parsed.sysroot_path {
                Some(p) => p.clone(),
                None => "target/sysroot".to_owned(),
            },
            panic_immediate_abort: match parsed.panic_immediate_abort {
                Some(b) => b,
                None => false,
            },
        }
    }

    /// How the runtime libraries of a workspace are built: as the package at
    /// its root says, with defaults for what that leaves out. The second
    /// part of the result says whether to warn that the workspace has no
    /// package at its root: then the defaults hold, and a warning is due
    /// unless `quiet`. Fails where the section of the package at the root
    /// cannot be read.
    pub fn from_metadata(metadata: &Metadata, quiet: bool) -> (r: Result<(Config, bool), ConfigError>)
        ensures
            match root_package(*metadata) {
                Some(package) => match package.section {
                    Section::Missing => r is Ok && r->Ok_0.0.completes(ParseConfig::spec_empty())
                        && !r->Ok_0.1,
                    Section::Invalid(why) => r matches Err(ConfigError::Metadata { message })
                        && message@ == why@,
                    Section::Found(parsed) => r is Ok && r->Ok_0.0.completes(parsed) && !r->Ok_0.1,
                },
                None => r is Ok && r->Ok_0.0.completes(ParseConfig::spec_empty()) && r->Ok_0.1
                    == !quiet,
            },
    {
        let root_manifest = join(metadata.workspace_root.as_str(), "Cargo.toml");
        let mut i: usize = 0;
        while i < metadata.packages.len()
            invariant
                i <= metadata.packages.len(),
                root_manifest@ == joined(metadata.workspace_root@, manifest_name()),
                package_at(metadata.packages@, root_manifest@, i as int) == package_at(
                    metadata.packages@,
                    root_manifest@,
                    0,
                ),
            decreases metadata.packages.len() - i,
        {
            let package = &metadata.packages[i];
            if same_text(package.manifest_path.as_str(), root_manifest.as_str()) {
                return match &package.section {
                    Section::Missing => Ok((Config::from_parsed(&ParseConfig::empty()), false)),
                    Section::Invalid(why) => Err(ConfigError::Metadata { message: why.clone() }),
                    Section::Found(parsed) => Ok((Config::from_parsed(parsed), false)),
                };
            }
            i += 1;
        }
        Ok((Config::from_parsed(&ParseConfig::empty()), !quiet))
    }

    /// What the settings add to the hasher's log.
    pub open spec fn feed(&self) -> Seq<Seq<u8>> {
        flag_feed(self.memcpy) + text_feed(self.sysroot_path@) + flag_feed(
            self.panic_immediate_abort,
        )
    }

    /// Feeds the settings to `hasher`.
    pub fn hash(&self, hasher: &mut DefaultHasher)
        ensures
            final(hasher)@ == old(hasher)@ + self.feed(),
    {
        feed_flag(hasher, self.memcpy);
        feed_text(hasher, self.sysroot_path.as_str());
        feed_flag(hasher, self.panic_immediate_abort);
        assert(hasher@ =~= old(hasher)@ + self.feed());
    }
}

} // verus!
