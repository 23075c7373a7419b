//! Text as sequences of characters: the views that contracts speak of, and
//! the few string operations of the standard library that the crate calls.

use vstd::prelude::*;

verus! {

/// The views of a sequence of strings, in order.
pub open spec fn views(v: Seq<String>) -> Seq<Seq<char>> {
    Seq::new(v.len(), |i: int| v[i]@)
}

/// The view of a string that may be missing.
pub open spec fn opt_view(o: Option<String>) -> Option<Seq<char>> {
    match o {
        Some(s) => Some(s@),
        None => None,
    }
}

/// The text that `Debug` writes for a list of strings: each in quotes and
/// escaped, with commas between and square brackets around.
pub uninterp spec fn debug_text(items: Seq<Seq<char>>) -> Seq<char>;

/// `Debug` for a list of strings, as `format!` writes it.
#[verifier::external_body]
pub(crate) fn debug_list(items: &Vec<String>) -> (r: String)
    ensures
        r@ == debug_text(views(items@)),
{
    format!("{:?}", items)
}

/// Whether `c` is white space: one of the characters U+0009 to U+000D,
/// U+0020, U+0085, U+00A0, U+1680, U+2000 to U+200A, U+2028, U+2029, U+202F,
/// U+205F and U+3000.
pub open spec fn is_space(c: char) -> bool {
    let n = c as u32;
    ||| 0x9 <= n <= 0xd
    ||| n == 0x20
    ||| n == 0x85
    ||| n == 0xa0
    ||| n == 0x1680
    ||| 0x2000 <= n <= 0x200a
    ||| n == 0x2028
    ||| n == 0x2029
    ||| n == 0x202f
    ||| n == 0x205f
    ||| n == 0x3000
}

/// `char::is_whitespace`: whether `c` is white space, which is to have the
/// property `White_Space` of the character database; the characters that
/// have it are those that `is_space` lists.
#[verifier::external_body]
pub(crate) fn is_whitespace(c: char) -> (r: bool)
    ensures
        r == is_space(c),
{
    c.is_whitespace()
}

/// `word` as a list of words: none where it is empty.
pub open spec fn word_if_any(word: Seq<char>) -> Seq<Seq<char>> {
    if word.len() > 0 {
        seq![word]
    } else {
        Seq::empty()
    }
}

/// The words of `s` from index `i` on, `word` being what was read of a word
/// before `i`: a word ends at white space and at the end of the text.
pub open spec fn words_from(s: Seq<char>, i: int, word: Seq<char>) -> Seq<Seq<char>>
    decreases s.len() - i,
{
    if i < 0 || i >= s.len() {
        word_if_any(word)
    } else if is_space(s[i]) {
        word_if_any(word) + words_from(s, i + 1, Seq::empty())
    } else {
        words_from(s, i + 1, word.push(s[i]))
    }
}

/// The words of a text: what stands between its runs of white space, in
/// order.
pub open spec fn words(s: Seq<char>) -> Seq<Seq<char>> {
    words_from(s, 0, Seq::empty())
}

/// The words of `s`, each as a string of its own.
pub fn split_whitespace(s: &str) -> (r: Vec<String>)
    ensures
        views(r@) == words(s@),
{
    let len = s.unicode_len();
    let mut found: Vec<String> = Vec::new();
    let mut start: usize = 0;
    let mut i: usize = 0;
    assert(s@.subrange(0, 0) =~= Seq::<char>::empty());
    assert(views(found@) + words(s@) =~= words(s@));
    while i < len
        invariant
            start <= i <= len,
            len == s@.len(),
            views(found@) + words_from(s@, i as int, s@.subrange(start as int, i as int)) == words(
                s@,
            ),
        decreases len - i,
    {
        let ghost word = s@.subrange(start as int, i as int);
        let ghost before = views(found@);
        if is_whitespace(s.get_char(i)) {
            if start < i {
                found.push(s.substring_char(start, i).to_owned());
                assert(views(found@) =~= before + seq![word]);
            }
            assert(views(found@) =~= before + word_if_any(word));
            start = i + 1;
            assert(s@.subrange(start as int, i + 1) =~= Seq::<char>::empty());
            assert(views(found@) + words_from(s@, i + 1, Seq::empty()) =~= before + (word_if_any(
                word,
            ) + words_from(s@, i + 1, Seq::empty())));
        } else {
            assert(s@.subrange(start as int, i + 1) =~= word.push(s@[i as int]));
        }
        i += 1;
    }
    let ghost word = s@.subrange(start as int, i as int);
    let ghost before = views(found@);
    if start < len {
        found.push(s.substring_char(start, len).to_owned());
        assert(views(found@) =~= before + seq![word]);
    }
    assert(views(found@) =~= before + word_if_any(word));
    found
}

/// `str`'s `==`: whether two strings hold the same characters.
#[verifier::external_body]
pub(crate) fn same_text(a: &str, b: &str) -> (r: bool)
    ensures
        r == (a@ == b@),
{
    a == b
}

/// `str::contains` for one character: whether `c` occurs in `s`.
#[verifier::external_body]
pub(crate) fn contains_char(s: &str, c: char) -> (r: bool)
    ensures
        r == s@.contains(c),
{
    s.contains(c)
}

/// The texts of `tokens` in order, with one space between each two.
pub open spec fn spaced(tokens: Seq<Seq<char>>) -> Seq<char>
    decreases tokens.len(),
{
    if tokens.len() == 0 {
        Seq::empty()
    } else if tokens.len() == 1 {
        tokens[0]
    } else {
        spaced(tokens.drop_last()) + " "@ + tokens.last()
    }
}

/// The texts of `tokens` in order, with one space between each two.
pub fn join_spaced(tokens: &Vec<String>) -> (r: String)
    ensures
        r@ == spaced(views(tokens@)),
{
    let mut text = String::new();
    let mut i: usize = 0;
    let ghost all = views(tokens@);
    assert(all.take(0) =~= Seq::<Seq<char>>::empty());
    while i < tokens.len()
        invariant
            i <= tokens.len(),
            all == views(tokens@),
            text@ == spaced(all.take(i as int)),
        decreases tokens.len() - i,
    {
        let ghost more = all.take(i + 1);
        assert(more.drop_last() =~= all.take(i as int));
        assert(more.last() == tokens@[i as int]@);
        if i > 0 {
            text.append(" ");
        } else {
            assert(text@ + tokens@[i as int]@ =~= tokens@[i as int]@);
        }
        text.append(tokens[i].as_str());
        i += 1;
    }
    assert(all.take(tokens@.len() as int) =~= all);
    text
}

/// A copy of `texts`.
pub fn copy_texts(texts: &Vec<String>) -> (r: Vec<String>)
    ensures
        views(r@) == views(texts@),
{
    let mut copy: Vec<String> = Vec::new();
    let mut i: usize = 0;
    while i < texts.len()
        invariant
            i <= texts.len(),
            copy.len() == i,
            forall|j: int| 0 <= j < i ==> copy@[j]@ == texts@[j]@,
        decreases texts.len() - i,
    {
        copy.push(texts[i].clone());
        i += 1;
    }
    assert(views(copy@) =~= views(texts@));
    copy
}

/// `str::strip_prefix`: the rest of `s` behind `prefix`, or `None` where `s`
/// does not start with `prefix`.
#[verifier::external_body]
pub(crate) fn strip_prefix<'a>(s: &'a str, prefix: &str) -> (rest: Option<&'a str>)
    ensures
        match rest {
            Some(r) => s@ == prefix@ + r@,
            None => !prefix@.is_prefix_of(s@),
        },
{
    s.strip_prefix(prefix)
}

/// `str::strip_suffix`: the part of `s` before `suffix`, or `None` where `s`
/// does not end with `suffix`.
#[verifier::external_body]
pub(crate) fn strip_suffix<'a>(s: &'a str, suffix: &str) -> (head: Option<&'a str>)
    ensures
        match head {
            Some(h) => s@ == h@ + suffix@,
            None => !suffix@.is_suffix_of(s@),
        },
{
    s.strip_suffix(suffix)
}

/// Whether `s` starts with `prefix`.
pub fn starts_with(s: &str, prefix: &str) -> (r: bool)
    ensures
        r == prefix@.is_prefix_of(s@),
{
    match strip_prefix(s, prefix) {
        Some(rest) => {
            assert((prefix@ + rest@).subrange(0, prefix@.len() as int) =~= prefix@);
            true
        },
        None => false,
    }
}

/// Whether `s` ends with `suffix`.
pub fn ends_with(s: &str, suffix: &str) -> (r: bool)
    ensures
        r == suffix@.is_suffix_of(s@),
{
    match strip_suffix(s, suffix) {
        Some(head) => {
            let ghost whole = head@ + suffix@;
            assert(whole.subrange(whole.len() - suffix@.len(), whole.len() as int) =~= suffix@);
            true
        },
        None => false,
    }
}

} // verus!
