//! The sysroot's place, and the build that runs against it.

use vstd::prelude::*;

use crate::cargo::{with_sysroot, Rustflags};
use crate::cli::Args;
use crate::config::Config;
use crate::errors::ConfigError;
use crate::flock::{Filesystem, LockRequest, State};
use crate::paths::{join, joined, separator};
use crate::rustc::VersionMeta;
use crate::text::{spaced, views};
use crate::CompilationMode;

verus! {

/// The name of the file in a target's directory that is locked.
pub open spec fn sentinel() -> Seq<char> {
    ".sentinel"@
}

/// The directory in the sysroot at `home` that holds what belongs to
/// `triple`: the locked file, the marker file and the libraries.
pub open spec fn entry(home: Seq<char>, triple: Seq<char>) -> Seq<char> {
    joined(home, triple)
}

/// What a lock on the sysroot of `triple` is called in a notice.
pub open spec fn lock_name(triple: Seq<char>) -> Seq<char> {
    triple + "'s sysroot"@
}

/// Whether `triple` names one directory: it holds no separator.
pub open spec fn is_bare(triple: Seq<char>) -> bool {
    forall|i: int| 0 <= i < triple.len() ==> triple[i] != '/'
}

/// The path of the file that is locked for the libraries of `triple` in the
/// sysroot at `home`.
pub open spec fn lock_path(home: Seq<char>, triple: Seq<char>) -> Seq<char> {
    joined(entry(home, triple), sentinel())
}

/// What is adjoined in front of a path that does not start at the root:
/// the directory, and a separator unless it is empty or ends with one.
proof fn lemma_joined_relative(base: Seq<char>, other: Seq<char>)
    requires
        other.len() == 0 || other[0] != '/',
    ensures
        joined(base, other) == base + other || joined(base, other) == base + separator() + other,
        joined(base, other) == base + other <==> base.len() == 0 || base.last() == '/',
        separator() == seq!['/'],
{
    reveal_strlit("/");
    assert(separator().len() == 1);
    assert(separator() =~= seq!['/']);
    if other.len() > 0 {
        assert(!separator().is_prefix_of(other)) by {
            if separator().is_prefix_of(other) {
                assert(other.subrange(0, 1)[0] == other[0]);
            }
        }
    }
    if base.len() > 0 {
        assert(separator().is_suffix_of(base) <==> base.last() == '/') by {
            assert(base.subrange(base.len() - 1, base.len() as int)[0] == base.last());
            if base.last() == '/' {
                assert(base.subrange(base.len() - 1, base.len() as int) =~= separator());
            }
        }
    }
    if joined(base, other) == base + other && !(base.len() == 0 || base.last() == '/') {
        assert((base + separator() + other).len() == (base + other).len() + 1);
    }
}

/// Different targets have different lock files: the libraries of one are
/// refreshed and read without regard to those of another.
pub proof fn lemma_targets_have_own_locks(home: Seq<char>, a: Seq<char>, b: Seq<char>)
    requires
        is_bare(a),
        is_bare(b),
        a != b,
    ensures
        lock_path(home, a) != lock_path(home, b),
{
    reveal_strlit(".sentinel");
    assert(sentinel().len() == 9);
    assert(sentinel()[0] == '.');
    let root = home;
    lemma_joined_relative(root, a);
    lemma_joined_relative(root, b);
    let dir_a = entry(home, a);
    let dir_b = entry(home, b);
    lemma_joined_relative(dir_a, sentinel());
    lemma_joined_relative(dir_b, sentinel());
    let front = if root.len() == 0 || root.last() == '/' {
        root
    } else {
        root + separator()
    };
    assert(dir_a =~= front + a);
    assert(dir_b =~= front + b);
    let end_a: Seq<char> = if dir_a.len() == 0 || dir_a.last() == '/' {
        Seq::empty()
    } else {
        separator()
    };
    let end_b: Seq<char> = if dir_b.len() == 0 || dir_b.last() == '/' {
        Seq::empty()
    } else {
        separator()
    };
    let lock_a = lock_path(home, a);
    let lock_b = lock_path(home, b);
    assert(lock_a =~= front + (a + end_a) + sentinel());
    assert(lock_b =~= front + (b + end_b) + sentinel());
    if lock_a == lock_b {
        let name_a = a + end_a;
        let name_b = b + end_b;
        assert(name_a.len() == name_b.len());
        assert(name_a =~= lock_a.subrange(front.len() as int, (front.len() + name_a.len()) as int));
        assert(name_b =~= lock_b.subrange(front.len() as int, (front.len() + name_b.len()) as int));
        if end_a.len() == end_b.len() {
            assert(a =~= name_a.take(a.len() as int));
            assert(b =~= name_b.take(b.len() as int));
        } else if end_a.len() == 1 {
            assert(name_a.last() == '/');
            assert(b.len() > 0);
            assert(name_b.last() == b.last());
        } else {
            assert(name_b.last() == '/');
            assert(a.len() > 0);
            assert(name_a.last() == a.last());
        }
    }
}

/// The sysroot.
#[derive(Debug)]
pub struct Home {
    path: Filesystem,
}

impl Home {
    /// The path of the sysroot.
    pub closed spec fn spec_path(&self) -> Seq<char> {
        self.path.spec_path()
    }

    /// Whether waiting for a lock in it goes unannounced.
    pub closed spec fn spec_quiet(&self) -> bool {
        self.path.spec_quiet()
    }

    /// The path of the sysroot, to show.
    pub fn display(&self) -> (r: &str)
        ensures
            r@ == self.spec_path(),
    {
        self.path.display()
    }

    /// The directory that holds what belongs to `triple`.
    pub fn path(&self, triple: &str) -> (r: Filesystem)
        ensures
            r.spec_path() == entry(self.spec_path(), triple@),
            r.spec_quiet() == self.spec_quiet(),
    {
        self.path.join(triple)
    }

    /// The request for the lock that readers of the libraries of `triple`
    /// share.
    pub fn lock_ro(&self, triple: &str) -> (r: LockRequest)
        ensures
            r.path@ == joined(entry(self.spec_path(), triple@), sentinel()),
            r.state == State::Shared,
            r.msg@ == lock_name(triple@),
            r.quiet == self.spec_quiet(),
    {
        let fs = self.path(triple);
        let msg = triple.to_owned().concat("'s sysroot");
        fs.open_ro(".sentinel", msg.as_str())
    }

    /// The request for the lock that whoever rebuilds the libraries of
    /// `triple` holds alone.
    pub fn lock_rw(&self, triple: &str) -> (r: LockRequest)
        ensures
            r.path@ == joined(entry(self.spec_path(), triple@), sentinel()),
            r.state == State::Exclusive,
            r.msg@ == lock_name(triple@),
            r.quiet == self.spec_quiet(),
    {
        let fs = self.path(triple);
        let msg = triple.to_owned().concat("'s sysroot");
        fs.open_rw(".sentinel", msg.as_str())
    }
}

/// The sysroot of the project at `root`: at `named` where the environment
/// names a place, else where the project's settings put it, from `root`.
pub fn home(root: &str, config: &Config, quiet: bool, named: Option<String>) -> (r: Home)
    ensures
        r.spec_path() == match named {
            Some(path) => path@,
            None => joined(root@, config.sysroot_path@),
        },
        r.spec_quiet() == quiet,
{
    let path = match named {
        Some(path) => path,
        None => join(root, config.sysroot_path.as_str()),
    };
    Home { path: Filesystem::new(path, quiet) }
}

/// A build against the sysroot.
#[derive(Debug)]
pub struct Invocation {
    /// The arguments of the build tool.
    pub args: Vec<String>,
    /// The flags that the compiler and the documentation tool get.
    pub flags: String,
    /// The locks to hold while the build runs: on the libraries of the
    /// compiler's own target, then on those of the target built for.
    pub locks: (LockRequest, LockRequest),
}

impl Invocation {
    /// Whether the build may start, the two locks having been asked for:
    /// it starts only when both were given, and a lock that was not given
    /// is an error that names its entry, the first of the two first.
    pub fn start(&self, host_locked: bool, target_locked: bool) -> (r: Result<(), ConfigError>)
        ensures
            r is Ok <==> host_locked && target_locked,
            !host_locked ==> (r matches Err(ConfigError::ReadLock { entry }) && entry@
                == self.locks.0.msg@),
            host_locked && !target_locked ==> (r matches Err(ConfigError::ReadLock { entry })
                && entry@ == self.locks.1.msg@),
    {
        if !host_locked {
            Err(ConfigError::ReadLock { entry: self.locks.0.msg.clone() })
        } else if !target_locked {
            Err(ConfigError::ReadLock { entry: self.locks.1.msg.clone() })
        } else {
            Ok(())
        }
    }
}

/// The build `command_name` with `args` against the sysroot `home`: the
/// command, then the arguments; the flags with the sysroot named; and the
/// locks that keep the libraries from being rebuilt while the build reads
/// them. Fails where the flags cannot name the sysroot.
pub fn run(
    args: &Args,
    cmode: &CompilationMode,
    rustflags: &Rustflags,
    home: &Home,
    meta: &VersionMeta,
    command_name: &str,
    allow_spaces: bool,
) -> (r: Result<Invocation, ConfigError>)
    ensures
        if !allow_spaces && home.spec_path().contains(' ') {
            r matches Err(ConfigError::SysrootSpaces { sysroot }) && sysroot@ == home.spec_path()
        } else {
            &&& r is Ok
            &&& views(r->Ok_0.args@) == seq![command_name@] + args.spec_all()
            &&& r->Ok_0.flags@ == spaced(with_sysroot(rustflags@, home.spec_path()))
            &&& r->Ok_0.locks.0.path@ == lock_path(home.spec_path(), meta.host@)
            &&& r->Ok_0.locks.0.state == State::Shared
            &&& r->Ok_0.locks.0.msg@ == lock_name(meta.host@)
            &&& r->Ok_0.locks.0.quiet == home.spec_quiet()
            &&& r->Ok_0.locks.1.path@ == lock_path(home.spec_path(), cmode.spec_triple())
            &&& r->Ok_0.locks.1.state == State::Shared
            &&& r->Ok_0.locks.1.msg@ == lock_name(cmode.spec_triple())
            &&& r->Ok_0.locks.1.quiet == home.spec_quiet()
        },
{
    let flags = match rustflags.for_xargo(home, allow_spaces) {
        Ok(flags) => flags,
        Err(e) => {
            return Err(e);
        },
    };
    let mut command: Vec<String> = Vec::new();
    command.push(command_name.to_owned());
    let all = args.all();
    let mut i: usize = 0;
    while i < all.len()
        invariant
            i <= all.len(),
            command.len() == i + 1,
            command@[0]@ == command_name@,
            forall|j: int| 0 <= j < i ==> command@[j + 1]@ == all@[j]@,
        decreases all.len() - i,
    {
        command.push(all[i].clone());
        i += 1;
    }
    assert(views(command@) =~= seq![command_name@] + views(all@));
    let locks = (home.lock_ro(meta.host.as_str()), home.lock_ro(cmode.triple()));
    Ok(Invocation { args: command, flags, locks })
}

} // verus!
