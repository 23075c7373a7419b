//! Paths as text. Components are separated by `/`; a path that starts with
//! `/` is absolute.

use vstd::prelude::*;

use crate::text::{ends_with, starts_with};

verus! {

/// The separator between the components of a path.
pub open spec fn separator() -> Seq<char> {
    "/"@
}

/// `other` adjoined to `base`: `other` itself where it is absolute, else
/// `base`, a separator unless `base` is empty or ends with one, and `other`.
pub open spec fn joined(base: Seq<char>, other: Seq<char>) -> Seq<char> {
    if separator().is_prefix_of(other) {
        other
    } else if base.len() == 0 || separator().is_suffix_of(base) {
        base + other
    } else {
        base + separator() + other
    }
}

/// Adjoins `other` to `base`.
pub fn join(base: &str, other: &str) -> (r: String)
    ensures
        r@ == joined(base@, other@),
{
    if starts_with(other, "/") {
        other.to_owned()
    } else if base.is_empty() || ends_with(base, "/") {
        base.to_owned().concat(other)
    } else {
        base.to_owned().concat("/").concat(other)
    }
}

/// The index of the last separator in `p`, or -1 where it holds none.
pub open spec fn last_separator(p: Seq<char>) -> int
    decreases p.len(),
{
    if p.len() == 0 {
        -1
    } else if p.last() == '/' {
        p.len() - 1
    } else {
        last_separator(p.drop_last())
    }
}

/// Where the last separator of `p` is: nothing behind it is a separator.
pub proof fn lemma_last_separator(p: Seq<char>)
    ensures
        -1 <= last_separator(p) < p.len(),
        last_separator(p) >= 0 ==> p[last_separator(p)] == '/',
        forall|i: int| last_separator(p) < i < p.len() ==> p[i] != '/',
    decreases p.len(),
{
    if p.len() > 0 && p.last() != '/' {
        let head = p.drop_last();
        lemma_last_separator(head);
        assert forall|i: int| last_separator(p) < i < p.len() implies p[i] != '/' by {
            if i < head.len() {
                assert(head[i] == p[i]);
            }
        }
    }
}

/// `p` without the separators at its end.
pub open spec fn trimmed(p: Seq<char>) -> Seq<char>
    decreases p.len(),
{
    if p.len() > 0 && p.last() == '/' {
        trimmed(p.drop_last())
    } else {
        p
    }
}

/// What is left of a path without the separators at its end: its start, up
/// to a character that is no separator.
pub proof fn lemma_trimmed(p: Seq<char>)
    ensures
        trimmed(p).len() <= p.len(),
        trimmed(p) == p.take(trimmed(p).len() as int),
        trimmed(p).len() > 0 ==> trimmed(p).last() != '/',
    decreases p.len(),
{
    if p.len() > 0 && p.last() == '/' {
        let head = p.drop_last();
        lemma_trimmed(head);
        assert(head.take(trimmed(head).len() as int) =~= p.take(trimmed(head).len() as int));
    } else {
        assert(p.take(p.len() as int) =~= p);
    }
}

/// The last component of `p`: what stands behind the last separator that
/// has something behind it. Separators at the end of `p` do not count.
pub open spec fn file_name_of(p: Seq<char>) -> Seq<char> {
    let body = trimmed(p);
    body.skip(last_separator(body) + 1)
}

/// The path that holds `p`: `p` up to the separators before its last
/// component. The root and the empty path have none; a single component has
/// the empty path; what lies in the root has the root.
pub open spec fn parent_of(p: Seq<char>) -> Option<Seq<char>> {
    let body = trimmed(p);
    let cut = last_separator(body);
    if body.len() == 0 {
        None
    } else if cut < 0 {
        Some(Seq::empty())
    } else {
        let head = trimmed(body.take(cut));
        if head.len() == 0 {
            Some(body.take(cut + 1))
        } else {
            Some(head)
        }
    }
}

/// The path that holds another is shorter than it.
pub proof fn lemma_parent_is_shorter(p: Seq<char>)
    ensures
        parent_of(p) matches Some(up) ==> up.len() < p.len(),
{
    let body = trimmed(p);
    lemma_trimmed(p);
    lemma_last_separator(body);
    if body.len() > 0 && last_separator(body) >= 0 {
        lemma_trimmed(body.take(last_separator(body)));
    }
}

/// The number of characters of `p` before the separators at its end.
fn body_len(p: &str) -> (r: usize)
    ensures
        r <= p@.len(),
        trimmed(p@) == p@.take(r as int),
{
    let mut i: usize = p.unicode_len();
    assert(p@.take(i as int) =~= p@);
    while i > 0
        invariant
            i <= p@.len(),
            trimmed(p@) == trimmed(p@.take(i as int)),
        decreases i,
    {
        if p.get_char(i - 1) != '/' {
            return i;
        }
        assert(p@.take(i as int).drop_last() =~= p@.take(i - 1));
        i -= 1;
    }
    0
}

/// The number of characters in front of the last component of `p`, where
/// `p` does not end with a separator.
fn name_start(p: &str) -> (r: usize)
    ensures
        r == last_separator(p@) + 1,
        r <= p@.len(),
{
    let mut i: usize = p.unicode_len();
    proof {
        lemma_last_separator(p@);
    }
    while i > 0
        invariant
            i <= p@.len(),
            forall|j: int| i <= j < p@.len() ==> p@[j] != '/',
        decreases i,
    {
        if p.get_char(i - 1) == '/' {
            proof {
                lemma_last_separator(p@);
            }
            return i;
        }
        i -= 1;
    }
    proof {
        lemma_last_separator(p@);
    }
    0
}

/// The last component of `p`.
pub fn file_name(p: &str) -> (r: &str)
    ensures
        r@ == file_name_of(p@),
{
    let body = p.substring_char(0, body_len(p));
    assert(body@ =~= trimmed(p@));
    let start = name_start(body);
    body.substring_char(start, body.unicode_len())
}

/// The path that holds `p`, where there is one.
pub fn parent(p: &str) -> (r: Option<&str>)
    ensures
        match r {
            Some(dir) => parent_of(p@) == Some(dir@),
            None => parent_of(p@) is None,
        },
{
    let body = p.substring_char(0, body_len(p));
    assert(body@ =~= trimmed(p@));
    if body.is_empty() {
        return None;
    }
    let start = name_start(body);
    if start == 0 {
        return Some(body.substring_char(0, 0));
    }
    let head = body.substring_char(0, start - 1);
    let end = body_len(head);
    assert(head@ =~= body@.take(start - 1));
    assert(head@.take(end as int) =~= body@.take(end as int));
    if end == 0 {
        Some(body.substring_char(0, start))
    } else {
        Some(body.substring_char(0, end))
    }
}

} // verus!
