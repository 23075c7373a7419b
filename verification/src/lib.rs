//! Rebuilds a target's runtime library set only when its build configuration
//! has changed, and shares the result between concurrent invocations.

use std::collections::hash_map::DefaultHasher;
use vstd::prelude::*;

use crate::digest::{feed_text, text_feed};
use crate::rustc::Target;
use crate::text::same_text;

pub mod cargo;
pub mod cli;
pub mod config;
pub mod decimal;
pub mod digest;
pub mod errors;
pub mod flock;
pub mod paths;
pub mod rustc;
pub mod sysroot;
pub mod text;
pub mod util;
pub mod value;
pub mod xargo;

verus! {

/// What the libraries are built for. The compiler's own target has a sysroot
/// of its own, so that the two never share a directory.
#[derive(Debug)]
pub enum CompilationMode {
    /// Another target than the compiler's own.
    Cross(Target),
    /// The compiler's own target, by name.
    Native(String),
}

impl CompilationMode {
    /// What the mode adds to the hasher's log: the target for a cross build,
    /// the target's name for a native one.
    pub open spec fn feed(&self) -> Seq<Seq<u8>> {
        match self {
            CompilationMode::Cross(target) => target.feed(),
            CompilationMode::Native(triple) => text_feed(triple@),
        }
    }

    /// The name by which the target's libraries are filed.
    pub open spec fn spec_triple(&self) -> Seq<char> {
        match self {
            CompilationMode::Cross(target) => target.spec_triple(),
            CompilationMode::Native(triple) => triple@,
        }
    }

    /// The name of the target as it was asked for.
    pub open spec fn spec_orig_triple(&self) -> Seq<char> {
        match self {
            CompilationMode::Cross(target) => target.spec_orig_triple(),
            CompilationMode::Native(triple) => triple@,
        }
    }

    /// Feeds the mode to `hasher`.
    pub fn hash(&self, hasher: &mut DefaultHasher)
        ensures
            final(hasher)@ == old(hasher)@ + self.feed(),
    {
        match self {
            CompilationMode::Cross(target) => target.hash(hasher),
            CompilationMode::Native(triple) => feed_text(hasher, triple.as_str()),
        }
    }

    /// The name by which the target's libraries are filed: without the
    /// ending of a descriptor file and without directories in front.
    pub fn triple(&self) -> (r: &str)
        ensures
            r@ == self.spec_triple(),
    {
        match self {
            CompilationMode::Cross(target) => target.triple(),
            CompilationMode::Native(triple) => triple.as_str(),
        }
    }

    /// The name of the target as it was asked for, which may be the path of
    /// a descriptor file.
    pub fn orig_triple(&self) -> (r: &str)
        ensures
            r@ == self.spec_orig_triple(),
    {
        match self {
            CompilationMode::Cross(target) => target.orig_triple(),
            CompilationMode::Native(triple) => triple.as_str(),
        }
    }

    /// Whether the libraries are built for the compiler's own target.
    pub fn is_native(&self) -> (r: bool)
        ensures
            r == (self is Native),
    {
        match self {
            CompilationMode::Native(_) => true,
            _ => false,
        }
    }
}

/// What a run builds for, before the target is looked up.
#[derive(Debug)]
pub enum ModeChoice {
    /// The compiler's own target, by name.
    Native(String),
    /// The target of this name, if it can be found.
    Cross(String),
}

/// What a run builds for: the target that the command line names, else the
/// one that the configuration file names, else the compiler's own. A target
/// named on the command line that is the compiler's own is built natively.
pub fn choose_mode(named: Option<&str>, configured: Option<&str>, host: &str) -> (r: ModeChoice)
    ensures
        match named {
            Some(triple) => if triple@ == host@ {
                r matches ModeChoice::Native(h) && h@ == host@
            } else {
                r matches ModeChoice::Cross(t) && t@ == triple@
            },
            None => match configured {
                Some(triple) => r matches ModeChoice::Cross(t) && t@ == triple@,
                None => r matches ModeChoice::Native(h) && h@ == host@,
            },
        },
{
    match named {
        Some(triple) => if same_text(triple, host) {
            ModeChoice::Native(host.to_owned())
        } else {
            ModeChoice::Cross(triple.to_owned())
        },
        None => match configured {
            Some(triple) => ModeChoice::Cross(triple.to_owned()),
            None => ModeChoice::Native(host.to_owned()),
        },
    }
}

/// The directory that the program was started in.
#[derive(Debug)]
pub struct CurrentDirectory {
    path: String,
}

impl View for CurrentDirectory {
    type V = Seq<char>;

    closed spec fn view(&self) -> Seq<char> {
        self.path@
    }
}

impl CurrentDirectory {
    /// The directory at `path`.
    pub fn new(path: String) -> (r: CurrentDirectory)
        ensures
            r@ == path@,
    {
        CurrentDirectory { path }
    }

    /// The path of the directory.
    pub fn path(&self) -> (r: &str)
        ensures
            r@ == self@,
    {
        self.path.as_str()
    }
}

} // verus!
