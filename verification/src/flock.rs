//! Locking a directory of the sysroot between processes: what to open, and
//! what to do with each answer of the operating system. The calls themselves
//! are the caller's.

use vstd::prelude::*;

use crate::paths::{file_name, file_name_of, join, joined, parent, parent_of};
use crate::text::same_text;

verus! {

/// How a file is locked.
#[derive(Debug, PartialEq, Eq, Clone, Copy, Structural)]
pub enum State {
    /// No other holder at the same time.
    Exclusive,
    /// Other holders of the same kind at the same time.
    Shared,
}

/// A directory whose files are locked before use.
#[derive(Debug)]
pub struct Filesystem {
    path: String,
    quiet: bool,
}

/// A file to open and lock.
#[derive(Debug)]
pub struct LockRequest {
    /// The path of the file.
    pub path: String,
    /// How to lock it. A file that is locked for itself alone is opened for
    /// reading and writing, and made if it is missing; one that is shared is
    /// opened for reading.
    pub state: State,
    /// What the lock is on, for the notice.
    pub msg: String,
    /// Whether to wait without a notice.
    pub quiet: bool,
}

impl Filesystem {
    /// The path of the directory.
    pub closed spec fn spec_path(&self) -> Seq<char> {
        self.path@
    }

    /// Whether waiting for a lock in it goes unannounced.
    pub closed spec fn spec_quiet(&self) -> bool {
        self.quiet
    }

    /// The directory at `path`.
    pub fn new(path: String, quiet: bool) -> (r: Filesystem)
        ensures
            r.spec_path() == path@,
            r.spec_quiet() == quiet,
    {
        Filesystem { path, quiet }
    }

    /// The directory `other` of this one.
    pub fn join(&self, other: &str) -> (r: Filesystem)
        ensures
            r.spec_path() == joined(self.spec_path(), other@),
            r.spec_quiet() == self.spec_quiet(),
    {
        Filesystem::new(join(self.path.as_str(), other), self.quiet)
    }

    /// The request to open the file `path` of the directory for reading, and
    /// to share its lock.
    pub fn open_ro(&self, path: &str, msg: &str) -> (r: LockRequest)
        ensures
            r.path@ == joined(self.spec_path(), path@),
            r.state == State::Shared,
            r.msg@ == msg@,
            r.quiet == self.spec_quiet(),
    {
        self.open(path, State::Shared, msg)
    }

    /// The request to open the file `path` of the directory for reading and
    /// writing, and to hold its lock alone.
    pub fn open_rw(&self, path: &str, msg: &str) -> (r: LockRequest)
        ensures
            r.path@ == joined(self.spec_path(), path@),
            r.state == State::Exclusive,
            r.msg@ == msg@,
            r.quiet == self.spec_quiet(),
    {
        self.open(path, State::Exclusive, msg)
    }

    fn open(&self, path: &str, state: State, msg: &str) -> (r: LockRequest)
        ensures
            r.path@ == joined(self.spec_path(), path@),
            r.state == state,
            r.msg@ == msg@,
            r.quiet == self.spec_quiet(),
    {
        LockRequest {
            path: join(self.path.as_str(), path),
            state,
            msg: msg.to_owned(),
            quiet: self.quiet,
        }
    }

    /// The path of the directory, to show.
    pub fn display(&self) -> (r: &str)
        ensures
            r@ == self.spec_path(),
    {
        self.path.as_str()
    }
}

impl LockRequest {
    /// A copy of the request.
    pub fn copy(&self) -> (r: LockRequest)
        ensures
            r.path@ == self.path@,
            r.state == self.state,
            r.msg@ == self.msg@,
            r.quiet == self.quiet,
    {
        LockRequest {
            path: self.path.clone(),
            state: self.state,
            msg: self.msg.clone(),
            quiet: self.quiet,
        }
    }

    /// The directory of the file, where its path names one.
    pub fn parent(&self) -> (r: Option<&str>)
        ensures
            match r {
                Some(dir) => parent_of(self.path@) == Some(dir@),
                None => parent_of(self.path@) is None,
            },
    {
        parent(self.path.as_str())
    }

    /// Whether a failure to open the file is answered by making its
    /// directory and opening again: where the file is to be made, was not
    /// found, and this has not been tried before.
    pub fn retries_open(&self, not_found: bool, retried: bool) -> (r: bool)
        ensures
            r == (not_found && self.state == State::Exclusive && !retried),
    {
        not_found && self.state == State::Exclusive && !retried
    }
}

/// What is done with an entry of a locked file's directory when the
/// directory is cleared.
#[derive(Debug, PartialEq, Eq, Clone, Copy, Structural)]
pub enum Removal {
    /// The entry stays: it is the locked file.
    Keep,
    /// The entry is a directory and goes with all it holds.
    RemoveDir,
    /// The entry is a file and goes.
    RemoveFile,
}

/// What clearing the directory of the locked file at `lock_path` does with
/// the entry called `entry_name`: everything goes but the locked file.
pub fn remove_sibling(lock_path: &str, entry_name: &str, is_dir: bool) -> (r: Removal)
    ensures
        r == if entry_name@ == file_name_of(lock_path@) {
            Removal::Keep
        } else if is_dir {
            Removal::RemoveDir
        } else {
            Removal::RemoveFile
        },
{
    if same_text(entry_name, file_name(lock_path)) {
        Removal::Keep
    } else if is_dir {
        Removal::RemoveDir
    } else {
        Removal::RemoveFile
    }
}

/// The error numbers by which the operating system says why a lock was not
/// given.
#[derive(Debug)]
pub struct ErrorCodes {
    /// Another process holds the lock.
    pub contended: i32,
    /// The file system of the file has no locks.
    pub unsupported: Vec<i32>,
}

/// Whether the error number `raw` says that another process holds the lock.
pub fn error_contended(raw: Option<i32>, codes: &ErrorCodes) -> (r: bool)
    ensures
        r == (raw == Some(codes.contended)),
{
    match raw {
        Some(code) => code == codes.contended,
        None => false,
    }
}

/// Whether the error number `raw` says that the file system has no locks.
pub fn error_unsupported(raw: Option<i32>, codes: &ErrorCodes) -> (r: bool)
    ensures
        r == (raw is Some && codes.unsupported@.contains(raw->Some_0)),
{
    match raw {
        Some(code) => {
            let mut i: usize = 0;
            while i < codes.unsupported.len()
                invariant
                    raw == Some(code),
                    i <= codes.unsupported.len(),
                    forall|j: int| 0 <= j < i ==> codes.unsupported@[j] != code,
                decreases codes.unsupported.len() - i,
            {
                if codes.unsupported[i] == code {
                    assert(codes.unsupported@[i as int] == code);
                    return true;
                }
                i += 1;
            }
            false
        },
        None => false,
    }
}

/// How far the taking of a lock has come.
#[derive(Debug)]
pub enum Progress {
    /// Nothing was asked of the operating system yet.
    Begin,
    /// The lock was asked for without waiting; the answer is the error
    /// number on failure, where the error has one.
    Tried(Result<(), Option<i32>>),
    /// The lock was waited for; the answer as before.
    Waited(Result<(), Option<i32>>),
}

/// What to do next to take a lock.
#[derive(Debug)]
pub enum Next {
    /// Ask for the lock without waiting.
    TryLock,
    /// Wait for the lock, after printing the notice if there is one.
    Wait { notice: Option<String> },
    /// Go on: with the lock where `locked`, without one where the file
    /// system has none to give.
    Proceed { locked: bool },
    /// Give up with the error that the operating system gave.
    Fail,
}

/// The notice that a process waits for the lock on `msg`.
pub open spec fn notice_text(msg: Seq<char>) -> Seq<char> {
    "    Blocking waiting for file lock on "@ + msg
}

/// What to do next to take a lock, without the words of the notice.
#[derive(Debug, PartialEq, Eq, Clone, Copy, Structural)]
pub enum Decision {
    TryLock,
    Wait { noticed: bool },
    Proceed { locked: bool },
    Fail,
}

impl Next {
    /// What `self` asks for, without the words of the notice.
    pub open spec fn decision(self) -> Decision {
        match self {
            Next::TryLock => Decision::TryLock,
            Next::Wait { notice } => Decision::Wait { noticed: notice is Some },
            Next::Proceed { locked } => Decision::Proceed { locked },
            Next::Fail => Decision::Fail,
        }
    }
}

/// What to do next to take a lock. A file on a network file system is not
/// locked at all. Else the lock is first asked for without waiting. Where
/// the file system has no locks, the caller goes on without one. Where
/// another process holds the lock, the caller waits for it, with a notice
/// unless it is to be quiet. Any other failure ends the attempt.
pub open spec fn decide(quiet: bool, on_nfs: bool, codes: ErrorCodes, progress: Progress) -> Decision {
    match progress {
        Progress::Begin => if on_nfs {
            Decision::Proceed { locked: false }
        } else {
            Decision::TryLock
        },
        Progress::Tried(Ok(())) => Decision::Proceed { locked: true },
        Progress::Tried(Err(raw)) => if raw is Some && codes.unsupported@.contains(raw->Some_0) {
            Decision::Proceed { locked: false }
        } else if raw == Some(codes.contended) {
            Decision::Wait { noticed: !quiet }
        } else {
            Decision::Fail
        },
        Progress::Waited(Ok(())) => Decision::Proceed { locked: true },
        Progress::Waited(Err(_)) => Decision::Fail,
    }
}

/// A caller goes on as the holder of a lock only when the operating system
/// gave it the lock, and while another process holds the lock it waits or
/// goes without, on a file system that has no locks.
pub proof fn lemma_lock_is_given(quiet: bool, on_nfs: bool, codes: ErrorCodes, progress: Progress)
    ensures
        decide(quiet, on_nfs, codes, progress) == (Decision::Proceed { locked: true }) ==> (
        progress matches Progress::Tried(Ok(_)) || progress matches Progress::Waited(Ok(_))),
        progress == Progress::Tried(Err(Some(codes.contended))) && !codes.unsupported@.contains(
            codes.contended,
        ) ==> decide(quiet, on_nfs, codes, progress) is Wait,
{
}

/// What to do next to take the lock of `request`, `progress` being how far
/// the taking has come.
pub fn acquire(request: &LockRequest, on_nfs: bool, codes: &ErrorCodes, progress: &Progress) -> (r:
    Next)
    ensures
        r.decision() == decide(request.quiet, on_nfs, *codes, *progress),
        r matches Next::Wait { notice: Some(text) } ==> text@ == notice_text(request.msg@),
{
    match progress {
        Progress::Begin => if on_nfs {
            Next::Proceed { locked: false }
        } else {
            Next::TryLock
        },
        Progress::Tried(Ok(())) => Next::Proceed { locked: true },
        Progress::Tried(Err(raw)) => if error_unsupported(*raw, codes) {
            Next::Proceed { locked: false }
        } else if error_contended(*raw, codes) {
            if request.quiet {
                Next::Wait { notice: None }
            } else {
                Next::Wait {
                    notice: Some(
                        String::from_str("    Blocking waiting for file lock on ").concat(
                            request.msg.as_str(),
                        ),
                    ),
                }
            }
        } else {
            Next::Fail
        },
        Progress::Waited(Ok(())) => Next::Proceed { locked: true },
        Progress::Waited(Err(_)) => Next::Fail,
    }
}

/// How the operating system answered the making of a directory.
#[derive(Debug, PartialEq, Eq, Clone, Copy, Structural)]
pub enum Made {
    /// The directory was made, or was there already.
    Created,
    /// The directory that is to hold it is missing.
    NotFound,
    /// It failed otherwise.
    Failed,
}

/// What to do next to make a directory and those that hold it.
#[derive(Debug)]
pub enum DirStep {
    /// Make the directory at this path.
    Create(String),
    /// All are made.
    Done,
    /// Give up with the error that the operating system gave.
    Fail,
}

/// The making of a directory and of those that hold it. A directory is
/// tried first; where the one that holds it is missing, that one is made in
/// the same way, and then the directory is tried once more.
#[derive(Debug)]
pub struct DirCreation {
    /// The directories still to make, the one that is tried now last.
    pending: Vec<String>,
    /// Whether a directory has been made, so that those left are tried for
    /// the second time.
    descending: bool,
}

impl DirCreation {
    /// The directories still to make, the one that is tried now last.
    pub closed spec fn pending(&self) -> Seq<Seq<char>> {
        crate::text::views(self.pending@)
    }

    /// Whether those left are tried for the second time.
    pub closed spec fn descending(&self) -> bool {
        self.descending
    }

    /// The making of the directory at `path`, which is tried first.
    pub fn create_dir_all(path: &str) -> (r: (DirCreation, DirStep))
        ensures
            r.0.pending() == seq![path@],
            !r.0.descending(),
            r.1 matches DirStep::Create(p) && p@ == path@,
    {
        let mut pending: Vec<String> = Vec::new();
        pending.push(path.to_owned());
        assert(crate::text::views(pending@) =~= seq![path@]);
        (DirCreation { pending, descending: false }, DirStep::Create(path.to_owned()))
    }

    /// What to do after the operating system answered `made` to the making
    /// of the last pending directory.
    pub fn next(&mut self, made: Made) -> (r: DirStep)
        requires
            old(self).pending().len() > 0,
        ensures
            match made {
                Made::Created => {
                    &&& final(self).pending() == old(self).pending().drop_last()
                    &&& final(self).descending()
                    &&& if final(self).pending().len() == 0 {
                        r is Done
                    } else {
                        r matches DirStep::Create(p) && p@ == final(self).pending().last()
                    }
                },
                Made::NotFound => match parent_of(old(self).pending().last()) {
                    Some(dir) if !old(self).descending() => {
                        &&& final(self).pending() == old(self).pending().push(dir)
                        &&& !final(self).descending()
                        &&& r matches DirStep::Create(p) && p@ == dir
                    },
                    _ => r is Fail && *final(self) == *old(self),
                },
                Made::Failed => r is Fail && *final(self) == *old(self),
            },
    {
        let ghost before = self.pending();
        match made {
            Made::Created => {
                self.pending.pop();
                self.descending = true;
                assert(self.pending() =~= before.drop_last());
                let n = self.pending.len();
                if n == 0 {
                    DirStep::Done
                } else {
                    DirStep::Create(self.pending[n - 1].clone())
                }
            },
            Made::NotFound => {
                if self.descending {
                    return DirStep::Fail;
                }
                let n = self.pending.len();
                let dir = match parent(self.pending[n - 1].as_str()) {
                    Some(dir) => dir.to_owned(),
                    None => {
                        return DirStep::Fail;
                    },
                };
                let step = DirStep::Create(dir.clone());
                self.pending.push(dir);
                assert(self.pending() =~= before.push(dir@));
                step
            },
            Made::Failed => DirStep::Fail,
        }
    }
}

} // verus!
