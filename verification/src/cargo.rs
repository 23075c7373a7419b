//! Compiler flags, the build tool's configuration file and the project
//! manifest, as far as they decide what the runtime libraries are built from.

use std::collections::hash_map::DefaultHasher;
use vstd::prelude::*;

use crate::cli::Args;
use crate::digest::{
    feed_text, lemma_tokens_feed_injective, lemma_tokens_feed_push_front, text_feed, tokens_feed,
};
use crate::errors::ConfigError;
use crate::paths::{join, joined};
use crate::text::{
    contains_char, ends_with, join_spaced, same_text, spaced, split_whitespace, starts_with, views,
    words,
};
use crate::value::{document_text, imported, parsed, Node, NodeView};
use crate::xargo::Home;

verus! {

/// The flag that introduces a code generation option.
pub open spec fn introducer() -> Seq<char> {
    "-C"@
}

/// Whether `token` is a code generation option that passes arguments to the
/// linker.
pub open spec fn is_link_arg(token: Seq<char>) -> bool {
    "link-arg="@.is_prefix_of(token) || "link-args="@.is_prefix_of(token)
}

/// Whether the token at `i` is an introducer that stands right before a
/// linker argument.
pub open spec fn introduces_link_arg(flags: Seq<Seq<char>>, i: int) -> bool {
    0 <= i && i + 1 < flags.len() && flags[i] == introducer() && is_link_arg(flags[i + 1])
}

/// The tokens of `flags` from index `i` on that take part in the cache key:
/// all of them but each introducer that stands right before a linker
/// argument, and that argument.
pub open spec fn hashed_from(flags: Seq<Seq<char>>, i: int) -> Seq<Seq<char>>
    decreases flags.len() - i,
{
    if i < 0 || i >= flags.len() {
        Seq::empty()
    } else if introduces_link_arg(flags, i) {
        hashed_from(flags, i + 2)
    } else {
        seq![flags[i]] + hashed_from(flags, i + 1)
    }
}

/// The tokens of `flags` that take part in the cache key.
pub open spec fn hashed_flags(flags: Seq<Seq<char>>) -> Seq<Seq<char>> {
    hashed_from(flags, 0)
}

/// A linker argument is no introducer.
pub proof fn lemma_link_arg_is_no_introducer(token: Seq<char>)
    requires
        is_link_arg(token),
    ensures
        token != introducer(),
{
    reveal_strlit("-C");
    reveal_strlit("link-arg=");
    reveal_strlit("link-args=");
    assert("-C"@.len() == 2);
    assert("link-arg="@.len() == 9);
    assert("link-args="@.len() == 10);
}

/// Whether `a` and `b` are the same but for the values of linker arguments:
/// where they differ, the token before is an introducer and the token is a
/// linker argument in both.
pub open spec fn same_but_link_args(a: Seq<Seq<char>>, b: Seq<Seq<char>>) -> bool {
    &&& a.len() == b.len()
    &&& forall|i: int|
        0 <= i < a.len() && a[i] != b[i] ==> i > 0 && a[i - 1] == introducer() && is_link_arg(a[i])
            && is_link_arg(b[i])
}

/// Whether a scan of `flags` comes to the token at `i`: it is not a linker
/// argument right behind an introducer.
spec fn is_scanned(flags: Seq<Seq<char>>, i: int) -> bool {
    !introduces_link_arg(flags, i - 1)
}

proof fn lemma_hashed_from_same_but_link_args(a: Seq<Seq<char>>, b: Seq<Seq<char>>, i: int)
    requires
        same_but_link_args(a, b),
        0 <= i,
        i >= a.len() || is_scanned(a, i),
    ensures
        hashed_from(a, i) == hashed_from(b, i),
    decreases a.len() - i,
{
    if i < a.len() {
        if a[i] != b[i] {
            lemma_link_arg_is_no_introducer(a[i]);
        }
        assert(a[i] == b[i]);
        if i + 1 < a.len() && a[i + 1] != b[i + 1] {
            assert(is_link_arg(a[i + 1]) && is_link_arg(b[i + 1]));
        }
        if introduces_link_arg(a, i) {
            lemma_link_arg_is_no_introducer(a[i + 1]);
            assert(introduces_link_arg(b, i));
            lemma_hashed_from_same_but_link_args(a, b, i + 2);
        } else {
            assert(!introduces_link_arg(b, i));
            lemma_hashed_from_same_but_link_args(a, b, i + 1);
        }
    }
}

/// Flag sequences that differ only in the values of linker arguments have the
/// same tokens in the cache key.
pub proof fn lemma_link_arg_values_not_hashed(a: Seq<Seq<char>>, b: Seq<Seq<char>>)
    requires
        same_but_link_args(a, b),
    ensures
        hashed_flags(a) == hashed_flags(b),
{
    lemma_hashed_from_same_but_link_args(a, b, 0);
}

/// The flags handed to the compiler for the target.
#[derive(Debug)]
pub struct Rustflags {
    flags: Vec<String>,
}

impl View for Rustflags {
    type V = Seq<Seq<char>>;

    closed spec fn view(&self) -> Seq<Seq<char>> {
        views(self.flags@)
    }
}

/// Flags that are the same from `m` on give the same tokens from `m` on.
proof fn lemma_hashed_from_same_tail(a: Seq<Seq<char>>, b: Seq<Seq<char>>, m: int)
    requires
        a.len() == b.len(),
        0 <= m,
        forall|i: int| m <= i < a.len() ==> a[i] == b[i],
    ensures
        hashed_from(a, m) == hashed_from(b, m),
    decreases a.len() - m,
{
    if m < a.len() {
        if introduces_link_arg(a, m) {
            lemma_hashed_from_same_tail(a, b, m + 2);
        } else {
            lemma_hashed_from_same_tail(a, b, m + 1);
        }
    }
}

/// Tokens that differ from some scanned token on differ from every scanned
/// token before it on, where the flags before `k` are the same.
proof fn lemma_hashed_from_same_head(a: Seq<Seq<char>>, b: Seq<Seq<char>>, j: int, s: int, k: int)
    requires
        a.len() == b.len(),
        0 <= j <= s <= k < a.len(),
        s == k || s == k - 1,
        is_scanned(a, j),
        is_scanned(a, s),
        s == k - 1 || k == 0 || !is_scanned(a, k - 1),
        forall|i: int| 0 <= i < k ==> a[i] == b[i],
        hashed_from(a, s) != hashed_from(b, s),
    ensures
        hashed_from(a, j) != hashed_from(b, j),
    decreases s - j,
{
    if j < s {
        assert(j + 1 < k);
        if introduces_link_arg(a, j) {
            lemma_link_arg_is_no_introducer(a[j + 1]);
            assert(!is_scanned(a, j + 1));
            lemma_hashed_from_same_head(a, b, j + 2, s, k);
        } else {
            lemma_hashed_from_same_head(a, b, j + 1, s, k);
            let x = hashed_from(a, j + 1);
            let y = hashed_from(b, j + 1);
            let head = seq![a[j]];
            assert((head + x).skip(1) =~= x);
            assert((head + y).skip(1) =~= y);
        }
    }
}

/// Whether `a` and `b` are the same but for the token at `k`, which is more
/// than the value of a linker argument: the token before it is no
/// introducer, or it is not a linker argument in both.
pub open spec fn differ_in_hashed_token(a: Seq<Seq<char>>, b: Seq<Seq<char>>, k: int) -> bool {
    &&& a.len() == b.len()
    &&& 0 <= k < a.len()
    &&& a[k] != b[k]
    &&& forall|i: int| 0 <= i < a.len() && i != k ==> a[i] == b[i]
    &&& !(k > 0 && a[k - 1] == introducer() && is_link_arg(a[k]) && is_link_arg(b[k]))
}

/// Where a scan of both comes to the one token in which `a` and `b` differ,
/// the tokens from there on differ.
proof fn lemma_differ_at_scanned(a: Seq<Seq<char>>, b: Seq<Seq<char>>, k: int)
    requires
        a.len() == b.len(),
        0 <= k < a.len(),
        a[k] != b[k],
        forall|i: int| 0 <= i < a.len() && i != k ==> a[i] == b[i],
    ensures
        hashed_from(a, k) != hashed_from(b, k),
{
    let far = hashed_from(a, k + 2);
    lemma_hashed_from_same_tail(a, b, k + 2);
    lemma_hashed_from_same_tail(a, b, k + 1);
    if introduces_link_arg(a, k) {
        lemma_link_arg_is_no_introducer(a[k + 1]);
        assert(hashed_from(a, k) == far);
        assert(!introduces_link_arg(b, k));
        assert(!introduces_link_arg(b, k + 1));
        assert(hashed_from(b, k + 1) == seq![b[k + 1]] + far);
        assert(hashed_from(b, k).len() == far.len() + 2);
    } else if introduces_link_arg(b, k) {
        lemma_link_arg_is_no_introducer(b[k + 1]);
        assert(hashed_from(b, k) == far);
        assert(!introduces_link_arg(a, k + 1));
        assert(hashed_from(a, k + 1) == seq![a[k + 1]] + far);
        assert(hashed_from(a, k).len() == far.len() + 2);
    } else {
        assert(hashed_from(a, k)[0] == a[k]);
        assert(hashed_from(b, k)[0] == b[k]);
    }
}

/// Flag sequences that differ in one token, which is more than the value of
/// a linker argument, have different tokens in the cache key.
pub proof fn lemma_other_token_is_hashed(a: Seq<Seq<char>>, b: Seq<Seq<char>>, k: int)
    requires
        differ_in_hashed_token(a, b, k),
    ensures
        hashed_flags(a) != hashed_flags(b),
{
    if k == 0 || !is_scanned(a, k - 1) {
        // the scan of both comes to `k`: the token before it is a linker
        // argument that was left out, or there is none
        if k > 0 {
            lemma_link_arg_is_no_introducer(a[k - 1]);
        }
        lemma_differ_at_scanned(a, b, k);
        lemma_hashed_from_same_head(a, b, 0, k, k);
    } else {
        let s = k - 1;
        let near = hashed_from(a, k + 1);
        lemma_hashed_from_same_tail(a, b, k + 1);
        lemma_hashed_from_same_tail(a, b, k + 2);
        assert(hashed_from(a, s) != hashed_from(b, s)) by {
            if introduces_link_arg(a, s) {
                // `a` leaves the pair out; `b` keeps the introducer
                assert(hashed_from(a, s) == near);
                assert(hashed_from(b, s) == seq![b[s]] + hashed_from(b, k));
                if introduces_link_arg(b, k) {
                    lemma_link_arg_is_no_introducer(b[k + 1]);
                    assert(!introduces_link_arg(a, k + 1));
                    assert(near == seq![a[k + 1]] + hashed_from(a, k + 2));
                    assert(hashed_from(b, s)[0] == b[s]);
                    assert(near[0] == a[k + 1]);
                } else {
                    assert(hashed_from(b, k) == seq![b[k]] + near);
                    assert(hashed_from(b, s).len() == near.len() + 2);
                }
            } else if introduces_link_arg(b, s) {
                assert(hashed_from(b, s) == near);
                assert(hashed_from(a, s) == seq![a[s]] + hashed_from(a, k));
                if introduces_link_arg(a, k) {
                    lemma_link_arg_is_no_introducer(a[k + 1]);
                    assert(!introduces_link_arg(b, k + 1));
                    assert(near == seq![b[k + 1]] + hashed_from(b, k + 2));
                    assert(hashed_from(a, s)[0] == a[s]);
                    assert(near[0] == b[k + 1]);
                } else {
                    assert(hashed_from(a, k) == seq![a[k]] + near);
                    assert(hashed_from(a, s).len() == near.len() + 2);
                }
            } else {
                lemma_differ_at_scanned(a, b, k);
                let x = hashed_from(a, k);
                let y = hashed_from(b, k);
                let head = seq![a[s]];
                assert((head + x).skip(1) =~= x);
                assert((head + y).skip(1) =~= y);
            }
        }
        lemma_hashed_from_same_head(a, b, 0, s, k);
    }
}

/// Flag sequences that differ in one token, which is more than the value of
/// a linker argument, add different logs to the hasher.
pub proof fn lemma_other_token_changes_log(a: Seq<Seq<char>>, b: Seq<Seq<char>>, k: int)
    requires
        differ_in_hashed_token(a, b, k),
    ensures
        tokens_feed(hashed_flags(a)) != tokens_feed(hashed_flags(b)),
{
    lemma_other_token_is_hashed(a, b, k);
    if tokens_feed(hashed_flags(a)) == tokens_feed(hashed_flags(b)) {
        lemma_tokens_feed_injective(hashed_flags(a), hashed_flags(b));
    }
}

/// Whether `token` passes arguments to the linker.
pub fn is_link_arg_flag(token: &str) -> (r: bool)
    ensures
        r == is_link_arg(token@),
{
    starts_with(token, "link-arg=") || starts_with(token, "link-args=")
}

/// The flag that names the sysroot.
pub open spec fn sysroot_flag() -> Seq<char> {
    "--sysroot"@
}

/// `flags` with the sysroot at `sysroot` named at their end, unless they name
/// one.
pub open spec fn with_sysroot(flags: Seq<Seq<char>>, sysroot: Seq<char>) -> Seq<Seq<char>> {
    if flags.contains(sysroot_flag()) {
        flags
    } else {
        flags.push(sysroot_flag()).push(sysroot)
    }
}

impl Rustflags {
    /// The flags `flags`, in order.
    pub fn new(flags: Vec<String>) -> (r: Rustflags)
        ensures
            r@ == views(flags@),
    {
        Rustflags { flags }
    }

    /// The flags as one text, a space between each two.
    pub fn to_text(&self) -> (r: String)
        ensures
            r@ == spaced(self@),
    {
        join_spaced(&self.flags)
    }

    /// The flags as one text for a build against the sysroot `home`: with the
    /// sysroot named at their end, unless they name one. Fails where the
    /// sysroot's path holds a space and `allow_spaces` is not set: the build
    /// tool would take the path apart.
    pub fn for_xargo(&self, home: &Home, allow_spaces: bool) -> (r: Result<String, ConfigError>)
        ensures
            if !allow_spaces && home.spec_path().contains(' ') {
                r matches Err(ConfigError::SysrootSpaces { sysroot }) && sysroot@
                    == home.spec_path()
            } else {
                r is Ok && r->Ok_0@ == spaced(with_sysroot(self@, home.spec_path()))
            },
    {
        let sysroot = home.display();
        if !allow_spaces && contains_char(sysroot, ' ') {
            return Err(ConfigError::SysrootSpaces { sysroot: sysroot.to_owned() });
        }
        let mut flags: Vec<String> = Vec::new();
        let mut named = false;
        let mut i: usize = 0;
        while i < self.flags.len()
            invariant
                i <= self.flags.len(),
                flags.len() == i,
                forall|j: int| 0 <= j < i ==> flags@[j]@ == self.flags@[j]@,
                named == exists|j: int| 0 <= j < i && self.flags@[j]@ == sysroot_flag(),
            decreases self.flags.len() - i,
        {
            if same_text(self.flags[i].as_str(), "--sysroot") {
                named = true;
            }
            flags.push(self.flags[i].clone());
            i += 1;
        }
        assert(views(flags@) =~= self@);
        assert(named == self@.contains(sysroot_flag())) by {
            if named {
                let j = choose|j: int| 0 <= j < self.flags.len() && self.flags@[j]@ == sysroot_flag();
                assert(self@[j] == sysroot_flag());
            }
            if self@.contains(sysroot_flag()) {
                let j = choose|j: int| 0 <= j < self@.len() && self@[j] == sysroot_flag();
                assert(self.flags@[j]@ == sysroot_flag());
            }
        }
        if !named {
            flags.push("--sysroot".to_owned());
            flags.push(sysroot.to_owned());
            assert(views(flags@) =~= self@.push(sysroot_flag()).push(sysroot@));
        }
        Ok(join_spaced(&flags))
    }

    /// Feeds the flags to `hasher`, leaving out what is passed to the linker.
    pub fn hash(&self, hasher: &mut DefaultHasher)
        ensures
            final(hasher)@ == old(hasher)@ + tokens_feed(hashed_flags(self@)),
    {
        let n = self.flags.len();
        let mut i: usize = 0;
        let ghost start = hasher@;
        assert(start + tokens_feed(hashed_from(self@, 0)) == start + tokens_feed(
            hashed_flags(self@),
        ));
        while i < n
            invariant
                i <= n,
                n == self.flags.len(),
                hasher@ + tokens_feed(hashed_from(self@, i as int)) == start + tokens_feed(
                    hashed_flags(self@),
                ),
            decreases n - i,
        {
            let ghost before = hasher@;
            let ghost rest = hashed_from(self@, i as int);
            let flag = &self.flags[i];
            if same_text(flag, "-C") && i + 1 < n && is_link_arg_flag(self.flags[i + 1].as_str()) {
                assert(introduces_link_arg(self@, i as int));
                i += 2;
            } else {
                feed_text(hasher, flag);
                proof {
                    let after = hashed_from(self@, i + 1);
                    lemma_tokens_feed_push_front(flag@, after);
                    assert(hasher@ + tokens_feed(after) =~= before + tokens_feed(rest));
                }
                i += 1;
            }
        }
        assert(tokens_feed(hashed_from(self@, n as int)) =~= Seq::<Seq<u8>>::empty());
        assert(hasher@ =~= hasher@ + Seq::<Seq<u8>>::empty());
    }
}

/// The value in a configuration file that names the flags of `tool` for
/// `target`, and whether it stands under `build`: the one under
/// `target.<target>.<tool>` where there is one, else the one under
/// `build.<tool>`.
pub open spec fn configured_flags(table: NodeView, target: Seq<char>, tool: Seq<char>) -> Option<
    (NodeView, bool),
> {
    let for_target = match table.get_in("target"@, target) {
        Some(section) => section.get(tool),
        None => None,
    };
    match for_target {
        Some(v) => Some((v, false)),
        None => match table.get_in("build"@, tool) {
            Some(v) => Some((v, true)),
            None => None,
        },
    }
}

/// Whether `r` is what the flags of `tool` for `target` are, given the value
/// `env` of the tool's environment variable and the configuration file's
/// table `config`: the words of `env` where it is set; else the configured
/// strings; else none. A configured value that is no array of strings is an
/// error that names its key.
pub open spec fn is_flags_of(
    r: Result<Seq<Seq<char>>, ConfigError>,
    env: Option<Seq<char>>,
    config: Option<NodeView>,
    target: Seq<char>,
    tool: Seq<char>,
) -> bool {
    match env {
        Some(e) => r == Ok::<Seq<Seq<char>>, ConfigError>(words(e)),
        None => match config {
            None => r == Ok::<Seq<Seq<char>>, ConfigError>(Seq::empty()),
            Some(table) => match configured_flags(table, target, tool) {
                None => r == Ok::<Seq<Seq<char>>, ConfigError>(Seq::empty()),
                Some((v, build)) => match v.strings() {
                    Some(texts) => r == Ok::<Seq<Seq<char>>, ConfigError>(texts),
                    None => if build {
                        r matches Err(ConfigError::BuildFlags { tool: t }) && t@ == tool
                    } else {
                        r matches Err(ConfigError::TargetFlags { target: g, tool: t }) && g@
                            == target && t@ == tool
                    },
                },
            },
        },
    }
}

/// The flags of `tool` for `target`. `env` is the value of the tool's
/// environment variable, where it is set.
pub fn flags(env: Option<&str>, config: Option<&Config>, target: &str, tool: &str) -> (r: Result<
    Vec<String>,
    ConfigError,
>)
    ensures
        is_flags_of(
            match r {
                Ok(f) => Ok(views(f@)),
                Err(e) => Err(e),
            },
            match env {
                Some(e) => Some(e@),
                None => None,
            },
            match config {
                Some(c) => Some(c.table()),
                None => None,
            },
            target@,
            tool@,
        ),
{
    if let Some(e) = env {
        return Ok(split_whitespace(e));
    }
    let none: Vec<String> = Vec::new();
    assert(views(none@) =~= Seq::<Seq<char>>::empty());
    let config = match config {
        Some(config) => config,
        None => return Ok(none),
    };
    let for_target = match config.table.get_in("target", target) {
        Some(section) => section.get(tool),
        None => None,
    };
    let (value, build) = match for_target {
        Some(v) => (v, false),
        None => match config.table.get_in("build", tool) {
            Some(v) => (v, true),
            None => return Ok(none),
        },
    };
    match value.strings() {
        Some(texts) => Ok(texts),
        None => if build {
            Err(ConfigError::BuildFlags { tool: tool.to_owned() })
        } else {
            Err(ConfigError::TargetFlags { target: target.to_owned(), tool: tool.to_owned() })
        },
    }
}

/// The compiler flags for `target`. `env` is the value of the environment
/// variable `RUSTFLAGS`, where it is set.
pub fn rustflags(env: Option<&str>, config: Option<&Config>, target: &str) -> (r: Result<
    Rustflags,
    ConfigError,
>)
    ensures
        r is Ok <==> flags_are_ok(env, config, target),
        is_flags_of(
            match r {
                Ok(f) => Ok(f@),
                Err(e) => Err(e),
            },
            match env {
                Some(e) => Some(e@),
                None => None,
            },
            match config {
                Some(c) => Some(c.table()),
                None => None,
            },
            target@,
            "rustflags"@,
        ),
{
    match flags(env, config, target, "rustflags") {
        Ok(flags) => Ok(Rustflags { flags }),
        Err(e) => Err(e),
    }
}

/// Whether the compiler flags for `target` can be had: the environment
/// names them, or the configuration file names none, or strings only.
pub open spec fn flags_are_ok(env: Option<&str>, config: Option<&Config>, target: &str) -> bool {
    env is Some || config is None || match configured_flags(
        config->Some_0.table(),
        target@,
        "rustflags"@,
    ) {
        None => true,
        Some((v, _)) => v.strings() is Some,
    }
}

/// What the configuration file says of the target to build for.
#[derive(Debug)]
pub enum BuildTarget {
    /// The name of a target.
    Triple(String),
    /// The path of a target's descriptor file, the configuration file's
    /// directory in front.
    Descriptor(String),
}

/// The build tool's configuration file.
#[derive(Debug)]
pub struct Config {
    parent_path: String,
    table: Node,
}

impl Config {
    #[verifier::type_invariant]
    spec fn keys_in_order(self) -> bool {
        self.table@.wf()
    }

    /// The directory that holds the file's own directory.
    pub closed spec fn parent_path(&self) -> Seq<char> {
        self.parent_path@
    }

    /// What the file holds.
    pub closed spec fn table(&self) -> NodeView {
        self.table@
    }

    /// The configuration file found under `parent_path`, holding `table`,
    /// in which the keys of every table must stand in order.
    pub fn new(parent_path: String, table: Node) -> (r: Config)
        requires
            table@.wf(),
        ensures
            r.parent_path() == parent_path@,
            r.table() == table@,
    {
        Config { parent_path, table }
    }

    /// The target that the file asks to build for, where it names one: a
    /// name, or a descriptor file where the name ends in `.json`.
    pub fn target(&self) -> (r: Result<Option<BuildTarget>, ConfigError>)
        ensures
            match self.table().get_in("build"@, "target"@) {
                None => r matches Ok(None),
                Some(NodeView::String(name)) => if ".json"@.is_suffix_of(name) {
                    r matches Ok(Some(BuildTarget::Descriptor(path))) && path@ == joined(
                        self.parent_path(),
                        name,
                    )
                } else {
                    r matches Ok(Some(BuildTarget::Triple(triple))) && triple@ == name
                },
                Some(_) => r matches Err(ConfigError::BuildTarget),
            },
    {
        match self.table.get_in("build", "target") {
            None => Ok(None),
            Some(v) => match v.as_str() {
                None => Err(ConfigError::BuildTarget),
                Some(name) => if ends_with(name, ".json") {
                    Ok(Some(BuildTarget::Descriptor(join(self.parent_path.as_str(), name))))
                } else {
                    Ok(Some(BuildTarget::Triple(name.to_owned())))
                },
            },
        }
    }
}

/// The key of a release profile that says whether to optimise at link time.
pub open spec fn lto_key() -> Seq<char> {
    "lto"@
}

/// What a release profile adds to the hasher's log, where it can be written:
/// nothing where it is a table with no entries but those under the
/// link-time-optimisation key; else its text, written without those.
pub open spec fn profile_feed(profile: NodeView) -> Option<Seq<Seq<u8>>> {
    let hashed = profile.without(lto_key());
    if hashed.is_empty_table() {
        Some(Seq::empty())
    } else {
        match document_text(hashed) {
            Some(text) => Some(text_feed(text)),
            None => None,
        }
    }
}

/// Whether two tables hold the same entries in the same order, but for those
/// under `key`.
pub open spec fn same_but_key(a: NodeView, b: NodeView, key: Seq<char>) -> bool {
    a is Table && b is Table && a.without(key) == b.without(key)
}

/// Release profiles that differ only under the link-time-optimisation key add
/// the same to the hasher's log.
pub proof fn lemma_lto_not_hashed(a: NodeView, b: NodeView)
    requires
        same_but_key(a, b, lto_key()),
    ensures
        profile_feed(a) == profile_feed(b),
{
}

/// A release profile that holds nothing but the link-time-optimisation key
/// adds nothing to the hasher's log.
pub proof fn lemma_lto_alone_not_hashed(profile: NodeView)
    requires
        profile.without(lto_key()).is_empty_table(),
    ensures
        profile_feed(profile) == Some(Seq::<Seq<u8>>::empty()),
{
}

/// The release profile of a manifest.
#[derive(Debug)]
pub struct Profile<'t> {
    table: &'t Node,
}

impl<'t> View for Profile<'t> {
    type V = NodeView;

    closed spec fn view(&self) -> NodeView {
        self.table@
    }
}

/// The manifest that holds nothing but `profile` as its release profile.
pub open spec fn profile_manifest(profile: NodeView) -> NodeView {
    NodeView::Table(seq![("profile"@, NodeView::Table(seq![("release"@, profile)]))])
}

impl<'t> Profile<'t> {
    #[verifier::type_invariant]
    spec fn keys_in_order(self) -> bool {
        self.table@.wf()
    }

    /// Feeds the profile to `hasher`, leaving out whether to optimise at link
    /// time: that does not change how a library is compiled. Fails, and
    /// feeds nothing, where the profile cannot be written.
    pub fn hash(&self, hasher: &mut DefaultHasher) -> (r: Result<(), ConfigError>)
        ensures
            match profile_feed(self@) {
                Some(feed) => r is Ok && final(hasher)@ == old(hasher)@ + feed,
                None => r matches Err(ConfigError::Unwritable) && final(hasher)@ == old(hasher)@,
            },
    {
        proof {
            use_type_invariant(self);
        }
        let hashed = self.table.without("lto");
        if hashed.is_empty_table() {
            assert(hasher@ =~= hasher@ + Seq::<Seq<u8>>::empty());
            return Ok(());
        }
        match hashed.render() {
            Some(text) => {
                feed_text(hasher, text.as_str());
                Ok(())
            },
            None => Err(ConfigError::Unwritable),
        }
    }

    /// The profile as the text of a manifest that holds nothing else, where
    /// it can be written.
    pub fn to_text(&self) -> (r: Option<String>)
        ensures
            match r {
                Some(text) => document_text(profile_manifest(self@)) == Some(text@),
                None => document_text(profile_manifest(self@)) is None,
            },
    {
        proof {
            use_type_invariant(self);
        }
        let mut release: Vec<(String, Node)> = Vec::new();
        release.push(("release".to_owned(), self.table.deep_copy()));
        let inner = Node::Table(release);
        let mut profile: Vec<(String, Node)> = Vec::new();
        profile.push(("profile".to_owned(), inner));
        let manifest = Node::Table(profile);
        proof {
            inner.lemma_table_view();
            manifest.lemma_table_view();
            assert(inner@->Table_0 =~= seq![("release"@, self@)]);
            assert(inner@.wf());
            assert(manifest@->Table_0 =~= seq![("profile"@, inner@)]);
            assert(manifest@.wf());
        }
        manifest.render()
    }
}

/// The manifest that holds nothing but `features` as its unstable features.
pub open spec fn features_manifest(features: NodeView) -> NodeView {
    NodeView::Table(seq![("cargo-features"@, features)])
}

/// The unstable features that a manifest asks for.
#[derive(Debug)]
pub struct Features<'a> {
    array: &'a Node,
}

impl<'a> View for Features<'a> {
    type V = NodeView;

    closed spec fn view(&self) -> NodeView {
        self.array@
    }
}

impl<'a> Features<'a> {
    #[verifier::type_invariant]
    spec fn keys_in_order(self) -> bool {
        self.array@.wf()
    }

    /// The features as the text of a manifest that holds nothing else, where
    /// they can be written.
    pub fn to_text(&self) -> (r: Option<String>)
        ensures
            match r {
                Some(text) => document_text(features_manifest(self@)) == Some(text@),
                None => document_text(features_manifest(self@)) is None,
            },
    {
        proof {
            use_type_invariant(self);
        }
        let mut entries: Vec<(String, Node)> = Vec::new();
        entries.push(("cargo-features".to_owned(), self.array.deep_copy()));
        let manifest = Node::Table(entries);
        proof {
            manifest.lemma_table_view();
            assert(manifest@->Table_0 =~= seq![("cargo-features"@, self@)]);
        }
        manifest.render()
    }
}

/// A project's manifest.
#[derive(Debug)]
pub struct Toml {
    table: Node,
}

impl View for Toml {
    type V = NodeView;

    closed spec fn view(&self) -> NodeView {
        self.table@
    }
}

impl Toml {
    #[verifier::type_invariant]
    spec fn keys_in_order(self) -> bool {
        self.table@.wf()
    }

    /// The release profile of the manifest, where it has one.
    pub fn profile(&self) -> (r: Option<Profile<'_>>)
        ensures
            match r {
                Some(p) => self@.get_in("profile"@, "release"@) == Some(p@),
                None => self@.get_in("profile"@, "release"@) is None,
            },
    {
        proof {
            use_type_invariant(self);
        }
        match self.table.get_in("profile", "release") {
            Some(table) => Some(Profile { table }),
            None => None,
        }
    }

    /// The unstable features that the manifest asks for, where it names any.
    pub fn features(&self) -> (r: Option<Features<'_>>)
        ensures
            match r {
                Some(f) => self@.get("cargo-features"@) == Some(f@),
                None => self@.get("cargo-features"@) is None,
            },
    {
        proof {
            use_type_invariant(self);
        }
        match self.table.get("cargo-features") {
            Some(array) => Some(Features { array }),
            None => None,
        }
    }
}

/// The arguments of a plain build: `build`, then `args` as they are.
pub fn run(args: &Args) -> (r: Vec<String>)
    ensures
        views(r@) == seq!["build"@] + args.spec_all(),
{
    let mut command: Vec<String> = Vec::new();
    command.push("build".to_owned());
    let all = args.all();
    let mut i: usize = 0;
    while i < all.len()
        invariant
            i <= all.len(),
            command.len() == i + 1,
            command@[0]@ == "build"@,
            forall|j: int| 0 <= j < i ==> command@[j + 1]@ == all@[j]@,
        decreases all.len() - i,
    {
        command.push(all[i].clone());
        i += 1;
    }
    assert(views(command@) =~= seq!["build"@] + views(all@));
    command
}

/// Reads `text`, the content of the file at `path`, as a project's manifest.
pub fn toml(path: &str, text: &str) -> (r: Result<Toml, ConfigError>)
    ensures
        match parsed(text@) {
            Some(raw) => r is Ok && r->Ok_0@ == imported(raw),
            None => r matches Err(ConfigError::InvalidToml { path: p, .. }) && p@ == path@,
        },
{
    match crate::util::parse(path, text) {
        Ok(table) => Ok(Toml { table }),
        Err(e) => Err(e),
    }
}

} // verus!
