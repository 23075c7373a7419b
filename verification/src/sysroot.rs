//! Keeping a target's runtime libraries fresh: the key that says what they
//! were built from, and the steps that rebuild them when it has changed.

use std::collections::hash_map::DefaultHasher;
use std::hash::Hasher;
use vstd::prelude::*;
use vstd::std_specs::hash::DefaultHasherAdditionalSpecFns;

use crate::cargo::{
    differ_in_hashed_token, features_manifest, hashed_flags, lemma_other_token_changes_log,
    profile_manifest, lemma_link_arg_values_not_hashed, lto_key, profile_feed, same_but_key,
    same_but_link_args, Rustflags, Toml,
};
use crate::config::Config;
use crate::decimal::{decimal, from_decimal, lemma_key_round_trip, parsed_u64, to_decimal};
use crate::digest::{feed_text, text_feed, tokens_feed};
use crate::errors::ConfigError;
use crate::flock::LockRequest;
use crate::paths::{join, joined, parent, parent_of};
use crate::rustc::VersionMeta;
use crate::flock::State;
use crate::text::{copy_texts, opt_view, same_text, views};
use crate::xargo::{entry, lock_name, sentinel, Home};
use crate::value::{document_text, keys_in_order, text_lt, Node, NodeView};
use crate::CompilationMode;

verus! {

/// What a manifest's release profile adds to the hasher's log, where it can
/// be written: nothing where the manifest has none.
pub open spec fn profile_part(profile: Option<NodeView>) -> Option<Seq<Seq<u8>>> {
    match profile {
        Some(p) => profile_feed(p),
        None => Some(Seq::empty()),
    }
}

/// What the compiler's commit adds to the hasher's log: nothing where it is
/// not known.
pub open spec fn commit_part(commit: Option<Seq<char>>) -> Seq<Seq<u8>> {
    match commit {
        Some(c) => text_feed(c),
        None => Seq::empty(),
    }
}

/// The log of all that a target's libraries are built from, where the
/// release profile can be written: the flags without what goes to the
/// linker, the target, the release profile without its link-time
/// optimisation, the compiler's commit, and the project's settings.
pub open spec fn key_feed(
    cmode: CompilationMode,
    flags: Seq<Seq<char>>,
    profile: Option<NodeView>,
    commit: Option<Seq<char>>,
    config: Config,
) -> Option<Seq<Seq<u8>>> {
    match profile_part(profile) {
        Some(part) => Some(
            tokens_feed(hashed_flags(flags)) + cmode.feed() + part + commit_part(commit)
                + config.feed(),
        ),
        None => None,
    }
}

/// The key of a target's libraries: the hash of all that they are built
/// from.
pub open spec fn cache_key(
    cmode: CompilationMode,
    flags: Seq<Seq<char>>,
    profile: Option<NodeView>,
    commit: Option<Seq<char>>,
    config: Config,
) -> Option<u64> {
    match key_feed(cmode, flags, profile, commit, config) {
        Some(feed) => Some(DefaultHasher::spec_finish(feed)),
        None => None,
    }
}

/// Flags that differ only in the values of linker arguments give the same
/// key.
pub proof fn lemma_key_ignores_link_arg_values(
    cmode: CompilationMode,
    a: Seq<Seq<char>>,
    b: Seq<Seq<char>>,
    profile: Option<NodeView>,
    commit: Option<Seq<char>>,
    config: Config,
)
    requires
        same_but_link_args(a, b),
    ensures
        cache_key(cmode, a, profile, commit, config) == cache_key(
            cmode,
            b,
            profile,
            commit,
            config,
        ),
{
    lemma_link_arg_values_not_hashed(a, b);
}

/// Release profiles that differ only under the link-time-optimisation key
/// give the same key.
pub proof fn lemma_key_ignores_lto(
    cmode: CompilationMode,
    flags: Seq<Seq<char>>,
    a: NodeView,
    b: NodeView,
    commit: Option<Seq<char>>,
    config: Config,
)
    requires
        same_but_key(a, b, lto_key()),
    ensures
        cache_key(cmode, flags, Some(a), commit, config) == cache_key(
            cmode,
            flags,
            Some(b),
            commit,
            config,
        ),
{
}

/// A release profile that holds nothing but the link-time-optimisation key
/// gives the key of a manifest without a release profile.
pub proof fn lemma_key_of_lto_alone(
    cmode: CompilationMode,
    flags: Seq<Seq<char>>,
    profile: NodeView,
    commit: Option<Seq<char>>,
    config: Config,
)
    requires
        profile.without(lto_key()).is_empty_table(),
    ensures
        cache_key(cmode, flags, Some(profile), commit, config) == cache_key(
            cmode,
            flags,
            None,
            commit,
            config,
        ),
{
}

/// The key of the libraries that would be built now. Fails where the
/// manifest's release profile cannot be written.
pub fn hash(
    cmode: &CompilationMode,
    rustflags: &Rustflags,
    ctoml: &Toml,
    meta: &VersionMeta,
    config: &Config,
) -> (r: Result<u64, ConfigError>)
    ensures
        match cache_key(
            *cmode,
            rustflags@,
            ctoml@.get_in("profile"@, "release"@),
            opt_view(meta.commit_hash),
            *config,
        ) {
            Some(key) => r == Ok::<u64, ConfigError>(key),
            None => r matches Err(ConfigError::Unwritable),
        },
{
    let mut hasher = DefaultHasher::new();
    rustflags.hash(&mut hasher);
    cmode.hash(&mut hasher);
    let ghost before_profile = hasher@;
    if let Some(profile) = ctoml.profile() {
        match profile.hash(&mut hasher) {
            Ok(()) => {},
            Err(e) => {
                return Err(ConfigError::Unwritable);
            },
        }
    } else {
        assert(hasher@ =~= before_profile + Seq::<Seq<u8>>::empty());
    }
    let ghost before_commit = hasher@;
    if let Some(commit) = &meta.commit_hash {
        feed_text(&mut hasher, commit.as_str());
    } else {
        assert(hasher@ =~= before_commit + Seq::<Seq<u8>>::empty());
    }
    config.hash(&mut hasher);
    proof {
        let feed = key_feed(
            *cmode,
            rustflags@,
            ctoml@.get_in("profile"@, "release"@),
            opt_view(meta.commit_hash),
            *config,
        );
        assert(hasher@ =~= feed->Some_0);
    }
    Ok(hasher.finish())
}

/// Flag sequences that differ in one token, which is more than the value of
/// a linker argument, give the hasher different logs, so that the keys are
/// hashes of different inputs.
pub proof fn lemma_key_feed_tells_other_tokens(
    cmode: CompilationMode,
    a: Seq<Seq<char>>,
    b: Seq<Seq<char>>,
    k: int,
    profile: Option<NodeView>,
    commit: Option<Seq<char>>,
    config: Config,
)
    requires
        differ_in_hashed_token(a, b, k),
        profile_part(profile) is Some,
    ensures
        key_feed(cmode, a, profile, commit, config) != key_feed(
            cmode,
            b,
            profile,
            commit,
            config,
        ),
{
    lemma_other_token_changes_log(a, b, k);
    let fa = tokens_feed(hashed_flags(a));
    let fb = tokens_feed(hashed_flags(b));
    let rest = cmode.feed() + profile_part(profile)->Some_0 + commit_part(commit) + config.feed();
    let ka = key_feed(cmode, a, profile, commit, config)->Some_0;
    let kb = key_feed(cmode, b, profile, commit, config)->Some_0;
    assert(ka =~= fa + rest);
    assert(kb =~= fb + rest);
    if ka == kb {
        assert(fa.len() == fb.len());
        assert(fa =~= (fa + rest).take(fa.len() as int));
        assert(fb =~= (fb + rest).take(fb.len() as int));
    }
}

/// The key that a marker file holds, where its content is one.
pub open spec fn stored_key(marker: Option<Seq<char>>) -> Option<u64> {
    match marker {
        Some(text) => parsed_u64(text),
        None => None,
    }
}

/// The key that the marker file of a target's libraries holds. `marker` is
/// the file's content, where the file is there.
pub fn old_hash(marker: Option<&str>) -> (r: Option<u64>)
    ensures
        r == stored_key(
            match marker {
                Some(text) => Some(text@),
                None => None,
            },
        ),
{
    match marker {
        Some(text) => from_decimal(text),
        None => None,
    }
}

/// Whether libraries whose marker file holds `marker` are those that `key`
/// asks for.
pub open spec fn is_fresh(key: u64, marker: Option<Seq<char>>) -> bool {
    stored_key(marker) == Some(key)
}

/// What a marker file is to hold for the libraries beside it to be fresh.
#[derive(Debug)]
pub enum Expected {
    /// The text of this key.
    Key(u64),
    /// This text: the commit of the compiler whose libraries were copied.
    Commit(String),
}

impl Expected {
    /// Whether a marker file with the content `marker` says that the
    /// libraries beside it are fresh.
    pub open spec fn is_met_by(self, marker: Option<Seq<char>>) -> bool {
        match self {
            Expected::Key(key) => is_fresh(key, marker),
            Expected::Commit(commit) => marker == Some(commit@),
        }
    }

    /// The content of the marker file of fresh libraries.
    pub open spec fn text(self) -> Seq<char> {
        match self {
            Expected::Key(key) => decimal(key as nat),
            Expected::Commit(commit) => commit@,
        }
    }

    /// Whether a marker file with the content `marker` says that the
    /// libraries beside it are fresh.
    pub fn check(&self, marker: Option<&str>) -> (r: bool)
        ensures
            r == self.is_met_by(
                match marker {
                    Some(text) => Some(text@),
                    None => None,
                },
            ),
    {
        match self {
            Expected::Key(key) => match old_hash(marker) {
                Some(stored) => stored == *key,
                None => false,
            },
            Expected::Commit(commit) => match marker {
                Some(text) => same_text(text, commit.as_str()),
                None => false,
            },
        }
    }

    /// The content of the marker file of fresh libraries.
    pub fn to_text(&self) -> (r: String)
        ensures
            r@ == self.text(),
    {
        match self {
            Expected::Key(key) => to_decimal(*key),
            Expected::Commit(commit) => commit.clone(),
        }
    }
}

/// Libraries that were marked as fresh are found fresh.
pub proof fn lemma_marked_is_fresh(expected: Expected)
    ensures
        expected.is_met_by(Some(expected.text())),
{
    if let Expected::Key(key) = expected {
        lemma_key_round_trip(key);
    }
}

/// One piece of the work that makes libraries fresh.
#[derive(Debug)]
pub enum Work {
    /// Make the directory at this path.
    MakeDir(String),
    /// Build the crate of this name into the directory `into`.
    Build { name: String, into: String },
    /// Copy what is under `from` to `to`.
    Copy { from: String, to: String },
}

impl Work {
    /// Whether `self` and `other` are the same piece of work.
    pub open spec fn same(self, other: Work) -> bool {
        match (self, other) {
            (Work::MakeDir(a), Work::MakeDir(b)) => a@ == b@,
            (Work::Build { name: a, into: c }, Work::Build { name: b, into: d }) => a@ == b@ && c@
                == d@,
            (Work::Copy { from: a, to: c }, Work::Copy { from: b, to: d }) => a@ == b@ && c@ == d@,
            _ => false,
        }
    }

    /// A copy of the piece of work.
    pub fn copy(&self) -> (r: Work)
        ensures
            self.same(r),
    {
        match self {
            Work::MakeDir(path) => Work::MakeDir(path.clone()),
            Work::Build { name, into } => Work::Build { name: name.clone(), into: into.clone() },
            Work::Copy { from, to } => Work::Copy { from: from.clone(), to: to.clone() },
        }
    }
}

/// How far the refreshing of a target's libraries has come.
#[derive(Debug, PartialEq, Eq, Clone, Copy, Structural)]
pub enum Stage {
    /// The lock on the libraries is being taken.
    Locking,
    /// The marker file is being read.
    Checking,
    /// What is beside the locked file is being removed.
    Clearing,
    /// The piece of work of this index is being done.
    Working(usize),
    /// The marker file is being written.
    Marking,
    /// Nothing is left to do: the libraries are fresh, or the work failed
    /// and they are not marked.
    Finished { fresh: bool },
}

/// What came of the step that was asked for last.
#[derive(Debug)]
pub enum Event {
    /// It was done.
    Done,
    /// The marker file was looked for, and held this where it was there.
    Marker(Option<String>),
    /// It failed.
    Failed,
}

/// What an [`Event`] holds.
pub enum EventView {
    Done,
    Marker(Option<Seq<char>>),
    Failed,
}

impl View for Event {
    type V = EventView;

    open spec fn view(&self) -> EventView {
        match self {
            Event::Done => EventView::Done,
            Event::Marker(marker) => EventView::Marker(opt_view(*marker)),
            Event::Failed => EventView::Failed,
        }
    }
}

/// What to do next to refresh a target's libraries.
#[derive(Debug)]
pub enum Step {
    /// Take this lock, and hold it until the end.
    Acquire(LockRequest),
    /// Read the marker file at this path, if it is there.
    ReadMarker(String),
    /// Remove all that lies beside the locked file at this path.
    Clear(String),
    /// Do this piece of work.
    Do(Work),
    /// Write `text` to the marker file at `path`.
    WriteMarker { path: String, text: String },
    /// Release the lock: the libraries are fresh.
    Fresh,
    /// Release the lock and report the failure: the libraries are not
    /// marked, and the next run rebuilds them.
    Abort,
}

/// The name of the marker file in a target's directory.
pub open spec fn marker_name() -> Seq<char> {
    ".hash"@
}

/// The stage of the piece of work of index `i`, or of the writing of the
/// marker file where the work has no such piece.
pub open spec fn work_or_mark(i: int, works: Seq<Work>) -> Stage {
    if 0 <= i < works.len() && i <= usize::MAX {
        Stage::Working(i as usize)
    } else {
        Stage::Marking
    }
}

/// The stage that follows `stage` when `event` came of its step. The lock is
/// taken before anything is read. Fresh libraries are left as they are. Else
/// their directory is cleared, the pieces of work are done in order, and the
/// marker file is written last. A failure of any step ends the refreshing
/// at once, with the libraries not marked.
pub open spec fn after(stage: Stage, event: EventView, expected: Expected, works: Seq<Work>) -> Stage {
    match (stage, event) {
        (Stage::Locking, EventView::Done) => Stage::Checking,
        (Stage::Checking, EventView::Marker(marker)) => if expected.is_met_by(marker) {
            Stage::Finished { fresh: true }
        } else {
            Stage::Clearing
        },
        (Stage::Clearing, EventView::Done) => work_or_mark(0, works),
        (Stage::Working(i), EventView::Done) => if i < works.len() {
            work_or_mark(i + 1, works)
        } else {
            Stage::Finished { fresh: false }
        },
        (Stage::Marking, EventView::Done) => Stage::Finished { fresh: true },
        _ => Stage::Finished { fresh: false },
    }
}

/// How a refreshing ended.
pub struct Outcome {
    /// How many pieces of work were done.
    pub worked: nat,
    /// What the marker file holds, where it is there.
    pub marker: Option<Seq<char>>,
    /// Whether the libraries are fresh.
    pub fresh: bool,
}

/// How many steps a refreshing at `stage` has before it at most.
pub open spec fn steps_left(stage: Stage, works: Seq<Work>) -> nat {
    match stage {
        Stage::Locking => works.len() + 5,
        Stage::Checking => works.len() + 4,
        Stage::Clearing => works.len() + 3,
        Stage::Working(i) => if i < works.len() {
            (works.len() - i + 1) as nat
        } else {
            1
        },
        Stage::Marking => 1,
        Stage::Finished { .. } => 0,
    }
}

/// How a refreshing ends that is at `stage`, has done `worked` pieces of
/// work, and finds `marker` in the marker file, when every step succeeds:
/// clearing the directory takes the marker file away, and marking writes
/// what is expected.
pub open spec fn succeeds(
    stage: Stage,
    worked: nat,
    marker: Option<Seq<char>>,
    expected: Expected,
    works: Seq<Work>,
) -> Outcome
    decreases steps_left(stage, works),
{
    match stage {
        Stage::Locking => succeeds(
            after(stage, EventView::Done, expected, works),
            worked,
            marker,
            expected,
            works,
        ),
        Stage::Checking => succeeds(
            after(stage, EventView::Marker(marker), expected, works),
            worked,
            marker,
            expected,
            works,
        ),
        Stage::Clearing => succeeds(
            after(stage, EventView::Done, expected, works),
            worked,
            None,
            expected,
            works,
        ),
        Stage::Working(i) => if i < works.len() {
            succeeds(
                after(stage, EventView::Done, expected, works),
                worked + 1,
                marker,
                expected,
                works,
            )
        } else {
            Outcome { worked, marker, fresh: false }
        },
        Stage::Marking => succeeds(
            after(stage, EventView::Done, expected, works),
            worked,
            Some(expected.text()),
            expected,
            works,
        ),
        Stage::Finished { fresh } => Outcome { worked, marker, fresh },
    }
}

proof fn lemma_work_succeeds(
    i: int,
    worked: nat,
    marker: Option<Seq<char>>,
    expected: Expected,
    works: Seq<Work>,
)
    requires
        0 <= i <= works.len(),
        works.len() <= usize::MAX,
    ensures
        succeeds(work_or_mark(i, works), worked, marker, expected, works) == (Outcome {
            worked: (worked + works.len() - i) as nat,
            marker: Some(expected.text()),
            fresh: true,
        }),
    decreases works.len() - i,
{
    if i < works.len() {
        lemma_work_succeeds(i + 1, worked + 1, marker, expected, works);
        assert(after(Stage::Working(i as usize), EventView::Done, expected, works) == work_or_mark(
            i + 1,
            works,
        ));
    } else {
        assert(succeeds(Stage::Finished { fresh: true }, worked, Some(expected.text()), expected, works)
            == (Outcome { worked, marker: Some(expected.text()), fresh: true }));
    }
}

/// A refreshing in which every step succeeds does all the work once where
/// the libraries were not fresh and none where they were, and leaves them
/// fresh; a second one right after it does no work and leaves the marker
/// file as it is.
pub proof fn lemma_refreshed_once(marker: Option<Seq<char>>, expected: Expected, works: Seq<Work>)
    requires
        works.len() <= usize::MAX,
    ensures
        ({
            let first = succeeds(Stage::Locking, 0, marker, expected, works);
            let second = succeeds(Stage::Locking, 0, first.marker, expected, works);
            &&& first.fresh
            &&& first.worked == if expected.is_met_by(marker) {
                0
            } else {
                works.len()
            }
            &&& expected.is_met_by(first.marker)
            &&& second == Outcome { worked: 0, marker: first.marker, fresh: true }
        }),
{
    lemma_marked_is_fresh(expected);
    lemma_work_succeeds(0, 0, None, expected, works);
    let first = succeeds(Stage::Locking, 0, marker, expected, works);
    assert(first == succeeds(Stage::Checking, 0, marker, expected, works));
    if expected.is_met_by(marker) {
        assert(first == succeeds(Stage::Finished { fresh: true }, 0, marker, expected, works));
    } else {
        assert(first == succeeds(Stage::Clearing, 0, marker, expected, works));
    }
    let second = succeeds(Stage::Locking, 0, first.marker, expected, works);
    assert(second == succeeds(Stage::Checking, 0, first.marker, expected, works));
    assert(second == succeeds(Stage::Finished { fresh: true }, 0, first.marker, expected, works));
}

/// The marker file is written only when every piece of work before it is
/// through, and the libraries count as fresh only when they were found so
/// or the marker file was written.
pub proof fn lemma_marked_last(stage: Stage, event: EventView, expected: Expected, works: Seq<Work>)
    requires
        works.len() <= usize::MAX,
    ensures
        after(stage, event, expected, works) is Marking ==> {
            ||| stage is Clearing && works.len() == 0 && event is Done
            ||| stage matches Stage::Working(i) && i + 1 == works.len() && event is Done
        },
        after(stage, event, expected, works) == (Stage::Finished { fresh: true }) ==> {
            ||| stage is Marking && event is Done
            ||| stage is Checking && (event matches EventView::Marker(marker)
                && expected.is_met_by(marker))
        },
        stage is Finished ==> after(stage, event, expected, works) == (Stage::Finished {
            fresh: false,
        }),
{
}

/// A directory is cleared only right after its marker file was read, and
/// the marker file is read only right after the lock was taken: nothing is
/// removed or written by a caller that was not told that it holds the lock.
pub proof fn lemma_cleared_under_lock(
    stage: Stage,
    event: EventView,
    expected: Expected,
    works: Seq<Work>,
)
    ensures
        after(stage, event, expected, works) is Clearing ==> stage is Checking,
        after(stage, event, expected, works) is Checking ==> stage is Locking && event is Done,
        after(stage, event, expected, works) is Working ==> stage is Clearing || stage is Working,
        !(after(stage, event, expected, works) is Locking),
{
}

/// Fresh libraries are left alone: where the marker file meets what is
/// expected, the refreshing ends at once, with nothing removed, built or
/// written.
pub proof fn lemma_hit_does_nothing(
    marker: Option<Seq<char>>,
    expected: Expected,
    works: Seq<Work>,
)
    requires
        expected.is_met_by(marker),
    ensures
        after(Stage::Checking, EventView::Marker(marker), expected, works) == (Stage::Finished {
            fresh: true,
        }),
{
}

/// The refreshing of the libraries in one directory of the sysroot, step by
/// step. The caller does each step and says what came of it.
#[derive(Debug)]
pub struct Refresh {
    expected: Expected,
    lock: LockRequest,
    dir: String,
    works: Vec<Work>,
    stage: Stage,
}

impl Refresh {
    /// What the marker file is to hold.
    pub closed spec fn expected(&self) -> Expected {
        self.expected
    }

    /// The lock that is held from the first step to the last.
    pub closed spec fn lock(&self) -> LockRequest {
        self.lock
    }

    /// The directory of the libraries.
    pub closed spec fn dir(&self) -> Seq<char> {
        self.dir@
    }

    /// The pieces of work that rebuild the libraries, in order.
    pub closed spec fn works(&self) -> Seq<Work> {
        self.works@
    }

    /// How far the refreshing has come.
    pub closed spec fn stage(&self) -> Stage {
        self.stage
    }

    /// Whether `step` is the step of the stage that the refreshing is at.
    pub open spec fn asks(&self, step: Step) -> bool {
        match self.stage() {
            Stage::Locking => step matches Step::Acquire(lock) && lock.path@ == self.lock().path@
                && lock.state == self.lock().state && lock.msg@ == self.lock().msg@ && lock.quiet
                == self.lock().quiet,
            Stage::Checking => step matches Step::ReadMarker(path) && path@ == joined(
                self.dir(),
                marker_name(),
            ),
            Stage::Clearing => step matches Step::Clear(path) && path@ == self.lock().path@,
            Stage::Working(i) => i < self.works().len() && (step matches Step::Do(work)
                && self.works()[i as int].same(work)),
            Stage::Marking => step matches Step::WriteMarker { path, text } && path@ == joined(
                self.dir(),
                marker_name(),
            ) && text@ == self.expected().text(),
            Stage::Finished { fresh } => if fresh {
                step is Fresh
            } else {
                step is Abort
            },
        }
    }

    /// Whether the refreshing is at a stage that it can be at: one of a
    /// piece of work that there is.
    pub open spec fn wf(&self) -> bool {
        self.stage() matches Stage::Working(i) ==> i < self.works().len()
    }

    /// The refreshing of the libraries in `dir`, which are fresh when their
    /// marker file meets `expected`, are rebuilt by `works`, and are kept
    /// by `lock`. Its first step is to take the lock.
    pub fn new(expected: Expected, lock: LockRequest, dir: String, works: Vec<Work>) -> (r: (
        Refresh,
        Step,
    ))
        ensures
            r.0.expected() == expected,
            r.0.lock() == lock,
            r.0.dir() == dir@,
            r.0.works() == works@,
            r.0.stage() == Stage::Locking,
            r.0.wf(),
            r.0.asks(r.1),
    {
        let step = Step::Acquire(lock.copy());
        (Refresh { expected, lock, dir, works, stage: Stage::Locking }, step)
    }

    /// The step of the stage that the refreshing is at.
    fn step(&self) -> (r: Step)
        requires
            self.wf(),
        ensures
            self.asks(r),
    {
        match self.stage {
            Stage::Locking => Step::Acquire(self.lock.copy()),
            Stage::Checking => Step::ReadMarker(join(self.dir.as_str(), ".hash")),
            Stage::Clearing => Step::Clear(self.lock.path.clone()),
            Stage::Working(i) => Step::Do(self.works[i].copy()),
            Stage::Marking => Step::WriteMarker {
                path: join(self.dir.as_str(), ".hash"),
                text: self.expected.to_text(),
            },
            Stage::Finished { fresh } => if fresh {
                Step::Fresh
            } else {
                Step::Abort
            },
        }
    }

    /// What to do after `event` came of the step asked for last.
    pub fn next(&mut self, event: &Event) -> (r: Step)
        requires
            old(self).wf(),
        ensures
            final(self).stage() == after(
                old(self).stage(),
                event@,
                old(self).expected(),
                old(self).works(),
            ),
            final(self).expected() == old(self).expected(),
            final(self).lock() == old(self).lock(),
            final(self).dir() == old(self).dir(),
            final(self).works() == old(self).works(),
            final(self).wf(),
            final(self).asks(r),
    {
        let n = self.works.len();
        let failed = Stage::Finished { fresh: false };
        let next = match self.stage {
            Stage::Locking => match event {
                Event::Done => Stage::Checking,
                _ => failed,
            },
            Stage::Checking => match event {
                Event::Marker(marker) => {
                    let fresh = match marker {
                        Some(text) => self.expected.check(Some(text.as_str())),
                        None => self.expected.check(None),
                    };
                    if fresh {
                        Stage::Finished { fresh: true }
                    } else {
                        Stage::Clearing
                    }
                },
                _ => failed,
            },
            Stage::Clearing => match event {
                Event::Done => if 0 < n {
                    Stage::Working(0)
                } else {
                    Stage::Marking
                },
                _ => failed,
            },
            Stage::Working(i) => {
                let goes_on = match event {
                    Event::Done => true,
                    _ => false,
                };
                if goes_on {
                    if i + 1 < n {
                        Stage::Working(i + 1)
                    } else {
                        Stage::Marking
                    }
                } else {
                    failed
                }
            },
            Stage::Marking => match event {
                Event::Done => Stage::Finished { fresh: true },
                _ => failed,
            },
            Stage::Finished { .. } => failed,
        };
        self.stage = next;
        self.step()
    }
}

/// The name of the directory that the libraries of a target lie in.
pub open spec fn lib_name() -> Seq<char> {
    "lib"@
}

/// The name of the directory that the tools of a target lie in.
pub open spec fn bin_name() -> Seq<char> {
    "bin"@
}

/// The name of the crate that is built into the sysroot; what it depends on
/// is built with it.
pub open spec fn built_crate() -> Seq<char> {
    "alloc"@
}

/// The directory in the compiler's own sysroot at `sysroot` that holds the
/// directory `part` of the target `host`.
pub open spec fn shipped(sysroot: Seq<char>, host: Seq<char>, part: Seq<char>) -> Seq<char> {
    joined(joined(joined(joined(sysroot, "lib"@), "rustlib"@), host), part)
}

/// Whether `refresh` rebuilds the libraries of the target of `cmode` in the
/// sysroot at `home` for `key`: under the lock that a rebuild holds alone,
/// it makes the directory of the libraries and builds the crate into it.
pub open spec fn builds_target(refresh: Refresh, cmode: CompilationMode, home: Home, key: u64) -> bool {
    let dir = entry(home.spec_path(), cmode.spec_triple());
    &&& refresh.expected() == Expected::Key(key)
    &&& refresh.dir() == dir
    &&& refresh.lock().path@ == joined(dir, sentinel())
    &&& refresh.lock().state == State::Exclusive
    &&& refresh.lock().msg@ == lock_name(cmode.spec_triple())
    &&& refresh.lock().quiet == home.spec_quiet()
    &&& refresh.works().len() == 2
    &&& refresh.works()[0] matches Work::MakeDir(path) && path@ == joined(dir, lib_name())
    &&& refresh.works()[1] matches Work::Build { name, into } && name@ == built_crate() && into@
        == joined(dir, lib_name())
    &&& refresh.stage() == Stage::Locking
    &&& refresh.wf()
}

/// The rebuilding of the libraries of the target of `cmode` in the sysroot
/// `home`, for the key `hash`, and its first step.
pub fn build(cmode: &CompilationMode, home: &Home, hash: u64) -> (r: (Refresh, Step))
    ensures
        builds_target(r.0, *cmode, *home, hash),
        r.0.asks(r.1),
{
    let triple = cmode.triple();
    let lock = home.lock_rw(triple);
    let dir = home.path(triple);
    let dst = join(dir.display(), "lib");
    let mut works: Vec<Work> = Vec::new();
    works.push(Work::MakeDir(dst.clone()));
    works.push(Work::Build { name: "alloc".to_owned(), into: dst });
    Refresh::new(Expected::Key(hash), lock, dir.display().to_owned(), works)
}

/// Whether `refresh` copies the libraries and tools that come with the
/// compiler `meta`, whose own sysroot is at `sysroot`, into the sysroot at
/// `home`: they are fresh when the marker file holds the compiler's commit,
/// or nothing where that is not known.
pub open spec fn copies_host(refresh: Refresh, home: Home, meta: VersionMeta, sysroot: Seq<char>) -> bool {
    let dir = entry(home.spec_path(), meta.host@);
    &&& refresh.expected() matches Expected::Commit(commit) && commit@ == match meta.commit_hash {
        Some(c) => c@,
        None => Seq::empty(),
    }
    &&& refresh.dir() == dir
    &&& refresh.lock().path@ == joined(dir, sentinel())
    &&& refresh.lock().state == State::Exclusive
    &&& refresh.lock().msg@ == lock_name(meta.host@)
    &&& refresh.lock().quiet == home.spec_quiet()
    &&& refresh.works().len() == 4
    &&& refresh.works()[0] matches Work::MakeDir(path) && path@ == joined(dir, lib_name())
    &&& refresh.works()[1] matches Work::Copy { from, to } && from@ == shipped(
        sysroot,
        meta.host@,
        lib_name(),
    ) && to@ == joined(dir, lib_name())
    &&& refresh.works()[2] matches Work::MakeDir(path) && path@ == joined(dir, bin_name())
    &&& refresh.works()[3] matches Work::Copy { from, to } && from@ == shipped(
        sysroot,
        meta.host@,
        bin_name(),
    ) && to@ == joined(dir, bin_name())
    &&& refresh.stage() == Stage::Locking
    &&& refresh.wf()
}

/// All that brings a sysroot up to date.
#[derive(Debug)]
pub struct Update {
    /// The rebuilding of the libraries of the target built for.
    pub target: (Refresh, Step),
    /// The copying of what comes with the compiler, for a build that is not
    /// for the compiler's own target.
    pub host: Option<(Refresh, Step)>,
}

/// All that brings the sysroot `home` up to date for a build in the mode
/// `cmode`: the libraries of the target are rebuilt unless their marker
/// file holds the key of what they would be built from now; for another
/// target than the compiler's own, what comes with the compiler at
/// `sysroot` is copied unless it was copied from the same compiler before.
/// Fails where the manifest's release profile cannot be written.
pub fn update(
    cmode: &CompilationMode,
    home: &Home,
    ctoml: &Toml,
    config: &Config,
    rustflags: &Rustflags,
    meta: &VersionMeta,
    sysroot: &str,
) -> (r: Result<Update, ConfigError>)
    ensures
        match cache_key(
            *cmode,
            rustflags@,
            ctoml@.get_in("profile"@, "release"@),
            opt_view(meta.commit_hash),
            *config,
        ) {
            Some(key) => {
                &&& r is Ok
                &&& builds_target(r->Ok_0.target.0, *cmode, *home, key)
                &&& r->Ok_0.target.0.asks(r->Ok_0.target.1)
                &&& r->Ok_0.host is None <==> cmode is Native
                &&& r->Ok_0.host matches Some(host) ==> copies_host(host.0, *home, *meta, sysroot@)
                    && host.0.asks(host.1)
            },
            None => r matches Err(ConfigError::Unwritable),
        },
{
    let key = match hash(cmode, rustflags, ctoml, meta, config) {
        Ok(key) => key,
        Err(e) => {
            return Err(ConfigError::Unwritable);
        },
    };
    let target = build(cmode, home, key);
    if cmode.is_native() {
        return Ok(Update { target, host: None });
    }
    let host = meta.host.as_str();
    let lock = home.lock_rw(host);
    let dir = home.path(host);
    let commit = match &meta.commit_hash {
        Some(c) => c.clone(),
        None => String::new(),
    };
    let shipped = join(join(join(sysroot, "lib").as_str(), "rustlib").as_str(), host);
    let lib = join(dir.display(), "lib");
    let bin = join(dir.display(), "bin");
    let mut works: Vec<Work> = Vec::new();
    works.push(Work::MakeDir(lib.clone()));
    works.push(Work::Copy { from: join(shipped.as_str(), "lib"), to: lib });
    works.push(Work::MakeDir(bin.clone()));
    works.push(Work::Copy { from: join(shipped.as_str(), "bin"), to: bin });
    let refresh = Refresh::new(Expected::Commit(commit), lock, dir.display().to_owned(), works);
    Ok(Update { target, host: Some(refresh) })
}

/// The name of the directory that the build tool puts what it built for
/// release in.
pub open spec fn profile_name() -> Seq<char> {
    "release"@
}

/// The name of the directory that the build tool puts what it built for
/// release in.
pub fn profile() -> (r: &'static str)
    ensures
        r@ == profile_name(),
{
    "release"
}

/// The views of a list of pairs of strings.
pub open spec fn pair_views(pairs: Seq<(String, String)>) -> Seq<(Seq<char>, Seq<char>)> {
    Seq::new(pairs.len(), |i: int| (pairs[i].0@, pairs[i].1@))
}

/// The build of one crate in a scratch directory.
#[derive(Debug)]
pub struct CrateBuild {
    /// The path of the manifest to write.
    pub manifest_path: String,
    /// The manifest.
    pub manifest: String,
    /// The lock file to copy, and where to; the copy is made writable.
    pub lockfile: (String, String),
    /// The directory to make for the crate's code.
    pub src_dir: String,
    /// The file to write, empty, as the crate's code.
    pub lib_file: String,
    /// What is set in the environment of the build tool.
    pub envs: Vec<(String, String)>,
    /// The arguments of the build tool.
    pub args: Vec<String>,
    /// The directory whose content is copied after the build, and where to.
    pub artifacts: (String, String),
}

/// How far the build of a crate in a scratch directory has come.
#[derive(Debug, PartialEq, Eq, Clone, Copy, Structural)]
pub enum CrateStage {
    /// The manifest is being written.
    Manifest,
    /// The lock file is being copied.
    Lockfile,
    /// The directory of the crate's code is being made.
    Source,
    /// The crate's code is being written.
    Library,
    /// The build tool is running.
    Driver,
    /// What was built is being copied to where the libraries go.
    Artifacts,
    /// Nothing is left to do: the crate was built and copied, or a step
    /// failed.
    Finished { built: bool },
}

/// What to do next to build a crate in a scratch directory.
#[derive(Debug)]
pub enum CrateStep {
    /// Write `content` to the file at `path`.
    WriteFile { path: String, content: String },
    /// Copy the lock file at `from` to `to`, and make the copy writable.
    CopyLockfile { from: String, to: String },
    /// Make the directory at this path.
    MakeDir(String),
    /// Run the build tool with these arguments, and this set in its
    /// environment.
    Run { envs: Vec<(String, String)>, args: Vec<String> },
    /// Copy what is under `from` to `to`.
    CopyArtifacts { from: String, to: String },
    /// The crate is built and its libraries are in place.
    Built,
    /// Report the failure: nothing more is done.
    Failed,
}

/// The stage that follows `stage` when its step was done, and when it
/// failed: the scratch directory is filled, then the build tool runs, and
/// only what a successful run built is copied. A failure of any step ends
/// the build at once.
pub open spec fn crate_after(stage: CrateStage, done: bool) -> CrateStage {
    if !done {
        CrateStage::Finished { built: false }
    } else {
        match stage {
            CrateStage::Manifest => CrateStage::Lockfile,
            CrateStage::Lockfile => CrateStage::Source,
            CrateStage::Source => CrateStage::Library,
            CrateStage::Library => CrateStage::Driver,
            CrateStage::Driver => CrateStage::Artifacts,
            CrateStage::Artifacts => CrateStage::Finished { built: true },
            CrateStage::Finished { .. } => CrateStage::Finished { built: false },
        }
    }
}

/// Nothing is copied unless the build tool ran and succeeded, and a crate
/// counts as built only when what was built was copied.
pub proof fn lemma_copied_after_built(stage: CrateStage, done: bool)
    ensures
        crate_after(stage, done) is Artifacts ==> stage is Driver && done,
        crate_after(stage, done) is Driver ==> stage is Library && done,
        crate_after(stage, done) == (CrateStage::Finished { built: true }) ==> stage is Artifacts
            && done,
        !done ==> crate_after(stage, done) == (CrateStage::Finished { built: false }),
{
}

/// The manifest of a build in a scratch directory: `stoml`, with the
/// unstable features of the project's manifest `project` in front and its
/// release profile behind, where they can be written.
pub open spec fn scratch_manifest(stoml: Seq<char>, project: NodeView) -> Option<Seq<char>> {
    let head = match project.get("cargo-features"@) {
        Some(features) => document_text(features_manifest(features)),
        None => Some(Seq::empty()),
    };
    let tail = match project.get_in("profile"@, "release"@) {
        Some(profile) => document_text(profile_manifest(profile)),
        None => Some(Seq::empty()),
    };
    match (head, tail) {
        (Some(h), Some(t)) => Some(h + stoml + t),
        _ => None,
    }
}

/// The arguments of the build of the crate `crate_name` from the manifest
/// at `manifest_path` for the target asked for as `target`.
pub open spec fn scratch_args(
    crate_name: Seq<char>,
    manifest_path: Seq<char>,
    target: Seq<char>,
    verbose: bool,
) -> Seq<Seq<char>> {
    seq![
        "rustc"@,
        "-p"@,
        crate_name,
        "--release"@,
        "--manifest-path"@,
        manifest_path,
        "--target"@,
        target,
    ] + (if verbose {
        seq!["-v"@]
    } else {
        Seq::empty()
    }) + seq!["--"@, "-Z"@, "force-unstable-if-unmarked"@]
}

/// The directory in which the compiler is to look for the descriptor of the
/// target of `cmode`, where it has to be told: the target has a descriptor
/// file, and the environment names no directory yet.
pub open spec fn target_path(cmode: CompilationMode, target_path_set: bool) -> Option<Seq<char>> {
    if target_path_set {
        None
    } else {
        match cmode {
            CompilationMode::Cross(target) => match target.spec_descriptor() {
                Some(descriptor) => parent_of(descriptor.json@),
                None => None,
            },
            CompilationMode::Native(_) => None,
        }
    }
}

/// What is set in the environment of a build that puts its output in
/// `target_dir`. The flags of the outer build are not among it.
pub open spec fn scratch_envs(target_dir: Seq<char>, target_path: Option<Seq<char>>) -> Seq<
    (Seq<char>, Seq<char>),
> {
    seq![
        ("RUSTFLAGS"@, "-Cembed-bitcode=yes"@),
        ("CARGO_TARGET_DIR"@, target_dir),
        ("__CARGO_DEFAULT_LIB_METADATA"@, "XARGO"@),
    ] + match target_path {
        Some(dir) => seq![("RUST_TARGET_PATH"@, dir)],
        None => Seq::empty(),
    }
}

/// Whether `build` is the build of the crate `crate_name` in the scratch
/// directory `td` with the manifest `manifest`, for the mode `cmode`, with
/// the lock file at `lockfile`, which puts the libraries it built into
/// `dst`.
pub open spec fn is_crate_build(
    build: CrateBuild,
    crate_name: Seq<char>,
    lockfile: Seq<char>,
    manifest: Seq<char>,
    cmode: CompilationMode,
    td: Seq<char>,
    dst: Seq<char>,
    verbose: bool,
    target_path_set: bool,
) -> bool {
    let target_dir = joined(td, "target"@);
    &&& build.manifest_path@ == joined(td, "Cargo.toml"@)
    &&& build.manifest@ == manifest
    &&& build.lockfile.0@ == lockfile
    &&& build.lockfile.1@ == joined(td, "Cargo.lock"@)
    &&& build.src_dir@ == joined(td, "src"@)
    &&& build.lib_file@ == joined(td, "src/lib.rs"@)
    &&& pair_views(build.envs@) == scratch_envs(target_dir, target_path(cmode, target_path_set))
    &&& views(build.args@) == scratch_args(
        crate_name,
        joined(td, "Cargo.toml"@),
        cmode.spec_orig_triple(),
        verbose,
    )
    &&& build.artifacts.0@ == joined(
        joined(joined(target_dir, cmode.spec_triple()), profile_name()),
        "deps"@,
    )
    &&& build.artifacts.1@ == dst
}

/// The build of the crate `crate_name` in the scratch directory `td`, from
/// the manifest `stoml` with the project's unstable features and release
/// profile added. `target_path_set` says whether the environment names a
/// directory of target descriptors. Fails where the features or the profile
/// cannot be written.
pub fn build_crate(
    crate_name: &str,
    lockfile: &str,
    stoml: String,
    cmode: &CompilationMode,
    ctoml: &Toml,
    td: &str,
    dst: &str,
    verbose: bool,
    target_path_set: bool,
) -> (r: Result<CrateBuild, ConfigError>)
    ensures
        match scratch_manifest(stoml@, ctoml@) {
            Some(manifest) => r is Ok && is_crate_build(
                r->Ok_0,
                crate_name@,
                lockfile@,
                manifest,
                *cmode,
                td@,
                dst@,
                verbose,
                target_path_set,
            ),
            None => r matches Err(ConfigError::Unwritable),
        },
{
    let mut manifest = match ctoml.features() {
        Some(features) => match features.to_text() {
            Some(text) => text,
            None => {
                return Err(ConfigError::Unwritable);
            },
        },
        None => String::new(),
    };
    manifest.append(stoml.as_str());
    match ctoml.profile() {
        Some(profile) => match profile.to_text() {
            Some(text) => {
                manifest.append(text.as_str());
            },
            None => {
                return Err(ConfigError::Unwritable);
            },
        },
        None => {
            assert(manifest@ =~= manifest@ + Seq::<char>::empty());
        },
    }
    let target_dir = join(td, "target");
    let manifest_path = join(td, "Cargo.toml");
    let mut envs: Vec<(String, String)> = Vec::new();
    envs.push(("RUSTFLAGS".to_owned(), "-Cembed-bitcode=yes".to_owned()));
    envs.push(("CARGO_TARGET_DIR".to_owned(), target_dir.clone()));
    envs.push(("__CARGO_DEFAULT_LIB_METADATA".to_owned(), "XARGO".to_owned()));
    let ghost wanted = target_path(*cmode, target_path_set);
    if !target_path_set {
        if let CompilationMode::Cross(target) = cmode {
            if let Some(json) = target.json() {
                if let Some(dir) = parent(json) {
                    envs.push(("RUST_TARGET_PATH".to_owned(), dir.to_owned()));
                }
            }
        }
    }
    assert(pair_views(envs@) =~= scratch_envs(target_dir@, wanted));
    let mut args: Vec<String> = Vec::new();
    args.push("rustc".to_owned());
    args.push("-p".to_owned());
    args.push(crate_name.to_owned());
    args.push("--release".to_owned());
    args.push("--manifest-path".to_owned());
    args.push(manifest_path.clone());
    args.push("--target".to_owned());
    args.push(cmode.orig_triple().to_owned());
    if verbose {
        args.push("-v".to_owned());
    }
    args.push("--".to_owned());
    args.push("-Z".to_owned());
    args.push("force-unstable-if-unmarked".to_owned());
    assert(views(args@) =~= scratch_args(
        crate_name@,
        manifest_path@,
        cmode.spec_orig_triple(),
        verbose,
    ));
    let artifacts = join(
        join(join(target_dir.as_str(), cmode.triple()).as_str(), profile()).as_str(),
        "deps",
    );
    Ok(
        CrateBuild {
            manifest_path,
            manifest,
            lockfile: (lockfile.to_owned(), join(td, "Cargo.lock")),
            src_dir: join(td, "src"),
            lib_file: join(td, "src/lib.rs"),
            envs,
            args,
            artifacts: (artifacts, dst.to_owned()),
        },
    )
}

impl CrateBuild {
    /// Whether `step` is the step of `stage` in this build.
    pub open spec fn asks(&self, stage: CrateStage, step: CrateStep) -> bool {
        match stage {
            CrateStage::Manifest => step matches CrateStep::WriteFile { path, content } && path@
                == self.manifest_path@ && content@ == self.manifest@,
            CrateStage::Lockfile => step matches CrateStep::CopyLockfile { from, to } && from@
                == self.lockfile.0@ && to@ == self.lockfile.1@,
            CrateStage::Source => step matches CrateStep::MakeDir(path) && path@ == self.src_dir@,
            CrateStage::Library => step matches CrateStep::WriteFile { path, content } && path@
                == self.lib_file@ && content@.len() == 0,
            CrateStage::Driver => step matches CrateStep::Run { envs, args } && pair_views(envs@)
                == pair_views(self.envs@) && views(args@) == views(self.args@),
            CrateStage::Artifacts => step matches CrateStep::CopyArtifacts { from, to } && from@
                == self.artifacts.0@ && to@ == self.artifacts.1@,
            CrateStage::Finished { built } => if built {
                step is Built
            } else {
                step is Failed
            },
        }
    }

    /// The step of `stage` in this build.
    fn step(&self, stage: CrateStage) -> (r: CrateStep)
        ensures
            self.asks(stage, r),
    {
        match stage {
            CrateStage::Manifest => CrateStep::WriteFile {
                path: self.manifest_path.clone(),
                content: self.manifest.clone(),
            },
            CrateStage::Lockfile => CrateStep::CopyLockfile {
                from: self.lockfile.0.clone(),
                to: self.lockfile.1.clone(),
            },
            CrateStage::Source => CrateStep::MakeDir(self.src_dir.clone()),
            CrateStage::Library => CrateStep::WriteFile {
                path: self.lib_file.clone(),
                content: String::new(),
            },
            CrateStage::Driver => {
                let mut envs: Vec<(String, String)> = Vec::new();
                let mut i: usize = 0;
                while i < self.envs.len()
                    invariant
                        i <= self.envs.len(),
                        envs.len() == i,
                        forall|j: int|
                            0 <= j < i ==> envs@[j].0@ == self.envs@[j].0@ && envs@[j].1@
                                == self.envs@[j].1@,
                    decreases self.envs.len() - i,
                {
                    envs.push((self.envs[i].0.clone(), self.envs[i].1.clone()));
                    i += 1;
                }
                assert(pair_views(envs@) =~= pair_views(self.envs@));
                CrateStep::Run { envs, args: copy_texts(&self.args) }
            },
            CrateStage::Artifacts => CrateStep::CopyArtifacts {
                from: self.artifacts.0.clone(),
                to: self.artifacts.1.clone(),
            },
            CrateStage::Finished { built } => if built {
                CrateStep::Built
            } else {
                CrateStep::Failed
            },
        }
    }

    /// The first stage of the build, and its step.
    pub fn first(&self) -> (r: (CrateStage, CrateStep))
        ensures
            r.0 == CrateStage::Manifest,
            self.asks(r.0, r.1),
    {
        (CrateStage::Manifest, self.step(CrateStage::Manifest))
    }

    /// The stage that follows `stage`, and its step, `done` saying whether
    /// the step of `stage` was done.
    pub fn next(&self, stage: CrateStage, done: bool) -> (r: (CrateStage, CrateStep))
        ensures
            r.0 == crate_after(stage, done),
            self.asks(r.0, r.1),
    {
        let next = if !done {
            CrateStage::Finished { built: false }
        } else {
            match stage {
                CrateStage::Manifest => CrateStage::Lockfile,
                CrateStage::Lockfile => CrateStage::Source,
                CrateStage::Source => CrateStage::Library,
                CrateStage::Library => CrateStage::Driver,
                CrateStage::Driver => CrateStage::Artifacts,
                CrateStage::Artifacts => CrateStage::Finished { built: true },
                CrateStage::Finished { .. } => CrateStage::Finished { built: false },
            }
        };
        (next, self.step(next))
    }
}

/// What every manifest of the built crate starts with.
pub open spec fn alloc_head() -> Seq<char> {
    "\n[package]\nauthors = [\"The Rust Project Developers\"]\nname = \"alloc\"\nversion = \"0.0.0\"\nedition = \"2018\"\n\n[dependencies.compiler_builtins]\nversion = \"0.1.0\"\n"@
}

/// The table that names the built crate's library and the file that its
/// code starts in.
pub open spec fn alloc_lib(path: Seq<char>) -> NodeView {
    NodeView::Table(
        seq![
            (
                "lib"@,
                NodeView::Table(
                    seq![
                        ("name"@, NodeView::String("alloc"@)),
                        ("path"@, NodeView::String(path)),
                    ],
                ),
            ),
        ],
    )
}

/// The manifest of the built crate, with the libraries' code under `src`,
/// where it can be written: the crate and what it depends on, with the
/// optimised memory routines where `config` asks for them; the core library
/// from `src`, with panics that abort at once where `config` asks for them;
/// the stand-in for the core library from `src`; and the crate's library.
pub open spec fn alloc_manifest(config: Config, src: Seq<char>) -> Option<Seq<char>> {
    match document_text(alloc_lib(joined(src, "alloc/src/lib.rs"@))) {
        Some(lib) => Some(
            alloc_head() + (if config.memcpy {
                "features = ['mem', 'core']\n"@
            } else {
                "features = ['core']\n"@
            }) + "[dependencies.core]\n"@ + "path = '"@ + joined(src, "core"@) + "'\n"@
                + (if config.panic_immediate_abort {
                "features = ['panic_immediate_abort']\n"@
            } else {
                Seq::empty()
            }) + "[patch.crates-io.rustc-std-workspace-core]\n"@ + "path = '"@ + joined(
                src,
                "rustc-std-workspace-core"@,
            ) + "'\n"@ + lib,
        ),
        None => None,
    }
}

/// The build of the crate of the sysroot in the scratch directory `td`,
/// with the libraries' code under `src`.
pub fn build_liballoc(
    cmode: &CompilationMode,
    ctoml: &Toml,
    src: &str,
    dst: &str,
    config: &Config,
    verbose: bool,
    td: &str,
    target_path_set: bool,
) -> (r: Result<CrateBuild, ConfigError>)
    ensures
        match alloc_manifest(*config, src@) {
            Some(stoml) => match scratch_manifest(stoml, ctoml@) {
                Some(manifest) => r is Ok && is_crate_build(
                    r->Ok_0,
                    built_crate(),
                    joined(joined(src@, ".."@), "Cargo.lock"@),
                    manifest,
                    *cmode,
                    td@,
                    dst@,
                    verbose,
                    target_path_set,
                ),
                None => r matches Err(ConfigError::Unwritable),
            },
            None => r matches Err(ConfigError::Unwritable),
        },
{
    let mut stoml = String::from_str(
        "\n[package]\nauthors = [\"The Rust Project Developers\"]\nname = \"alloc\"\nversion = \"0.0.0\"\nedition = \"2018\"\n\n[dependencies.compiler_builtins]\nversion = \"0.1.0\"\n",
    );
    if config.memcpy {
        stoml.append("features = ['mem', 'core']\n");
    } else {
        stoml.append("features = ['core']\n");
    }
    stoml.append("[dependencies.core]\n");
    stoml.append("path = '");
    stoml.append(join(src, "core").as_str());
    stoml.append("'\n");
    if config.panic_immediate_abort {
        stoml.append("features = ['panic_immediate_abort']\n");
    } else {
        assert(stoml@ =~= stoml@ + Seq::<char>::empty());
    }
    stoml.append("[patch.crates-io.rustc-std-workspace-core]\n");
    stoml.append("path = '");
    stoml.append(join(src, "rustc-std-workspace-core").as_str());
    stoml.append("'\n");
    let path = join(src, "alloc/src/lib.rs");
    let mut lib: Vec<(String, Node)> = Vec::new();
    lib.push(("name".to_owned(), Node::String("alloc".to_owned())));
    lib.push(("path".to_owned(), Node::String(path)));
    let inner = Node::Table(lib);
    let mut map: Vec<(String, Node)> = Vec::new();
    map.push(("lib".to_owned(), inner));
    let table = Node::Table(map);
    proof {
        inner.lemma_table_view();
        table.lemma_table_view();
        assert(inner@->Table_0 =~= seq![
            ("name"@, NodeView::String("alloc"@)),
            ("path"@, NodeView::String(joined(src@, "alloc/src/lib.rs"@))),
        ]);
        assert(table@->Table_0 =~= seq![("lib"@, inner@)]);
        assert(table@ == alloc_lib(joined(src@, "alloc/src/lib.rs"@)));
        reveal_strlit("name");
        reveal_strlit("path");
        assert("name"@.len() == 4 && "path"@.len() == 4);
        assert("name"@[0] == 'n' && "path"@[0] == 'p');
        assert(text_lt("name"@, "path"@));
        let lib_entries = inner@->Table_0;
        assert(lib_entries.len() == 2);
        assert(lib_entries[0].0 == "name"@ && lib_entries[1].0 == "path"@);
        assert(keys_in_order(lib_entries));
        assert(lib_entries[0].1.wf() && lib_entries[1].1.wf());
        assert(inner@.wf());
        assert(table@.wf());
    }
    match table.render() {
        Some(text) => {
            stoml.append(text.as_str());
        },
        None => {
            return Err(ConfigError::Unwritable);
        },
    }
    assert(Some(stoml@) == alloc_manifest(*config, src@));
    let lockfile = join(join(src, "..").as_str(), "Cargo.lock");
    build_crate("alloc", lockfile.as_str(), stoml, cmode, ctoml, td, dst, verbose, target_path_set)
}

} // verus!
