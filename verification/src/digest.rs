//! Feeding values to the hasher that produces cache keys.
//!
//! A hasher's view is the log of the byte strings written to it so far. Every
//! function here states which byte strings it appends to that log.

use std::collections::hash_map::DefaultHasher;
use std::hash::Hasher;
use vstd::prelude::*;
use vstd::utf8::{encode_utf8, encode_utf8_decode_utf8};

verus! {

/// The byte that closes a text token. It occurs in no UTF-8 encoding, so the
/// log of a token sequence determines the sequence.
pub const TEXT_END: u8 = 0xff;

/// What one text token appends to the log: its UTF-8 bytes, then the closing
/// byte.
pub open spec fn text_feed(s: Seq<char>) -> Seq<Seq<u8>> {
    seq![encode_utf8(s), seq![TEXT_END]]
}

/// What one flag appends to the log: a single byte, 1 for `true` and 0 for
/// `false`.
pub open spec fn flag_feed(b: bool) -> Seq<Seq<u8>> {
    seq![seq![if b { 1u8 } else { 0u8 }]]
}

/// What a sequence of text tokens appends to the log, token by token.
pub open spec fn tokens_feed(tokens: Seq<Seq<char>>) -> Seq<Seq<u8>>
    decreases tokens.len(),
{
    if tokens.len() == 0 {
        Seq::empty()
    } else {
        text_feed(tokens[0]) + tokens_feed(tokens.skip(1))
    }
}

/// The log of a token followed by more tokens.
pub proof fn lemma_tokens_feed_push_front(token: Seq<char>, rest: Seq<Seq<char>>)
    ensures
        tokens_feed(seq![token] + rest) == text_feed(token) + tokens_feed(rest),
{
    let all = seq![token] + rest;
    assert(all.skip(1) =~= rest);
}

/// Every token adds two byte strings to the log.
pub proof fn lemma_tokens_feed_len(tokens: Seq<Seq<char>>)
    ensures
        tokens_feed(tokens).len() == 2 * tokens.len(),
    decreases tokens.len(),
{
    if tokens.len() > 0 {
        lemma_tokens_feed_len(tokens.skip(1));
    }
}

/// The log of a token sequence determines the sequence: different tokens
/// give different logs.
pub proof fn lemma_tokens_feed_injective(a: Seq<Seq<char>>, b: Seq<Seq<char>>)
    requires
        tokens_feed(a) == tokens_feed(b),
    ensures
        a == b,
    decreases a.len(),
{
    lemma_tokens_feed_len(a);
    lemma_tokens_feed_len(b);
    if a.len() == 0 {
        assert(a =~= b);
    } else {
        let rest_a = tokens_feed(a.skip(1));
        let rest_b = tokens_feed(b.skip(1));
        assert(tokens_feed(a)[0] == encode_utf8(a[0]));
        assert(tokens_feed(b)[0] == encode_utf8(b[0]));
        encode_utf8_decode_utf8(a[0]);
        encode_utf8_decode_utf8(b[0]);
        assert(a[0] == b[0]);
        assert(rest_a =~= tokens_feed(a).skip(2));
        assert(rest_b =~= tokens_feed(b).skip(2));
        lemma_tokens_feed_injective(a.skip(1), b.skip(1));
        assert(a =~= seq![a[0]] + a.skip(1));
        assert(b =~= seq![b[0]] + b.skip(1));
    }
}

/// Feeds one text token to the hasher.
pub fn feed_text(hasher: &mut DefaultHasher, s: &str)
    ensures
        final(hasher)@ == old(hasher)@ + text_feed(s@),
{
    hasher.write(s.as_bytes());
    let end: [u8; 1] = [TEXT_END];
    assert(end@ =~= seq![TEXT_END]);
    hasher.write(&end);
    assert(hasher@ =~= old(hasher)@ + text_feed(s@));
}

/// Feeds one flag to the hasher.
pub fn feed_flag(hasher: &mut DefaultHasher, b: bool)
    ensures
        final(hasher)@ == old(hasher)@ + flag_feed(b),
{
    let byte: [u8; 1] = [if b { 1u8 } else { 0u8 }];
    assert(byte@ =~= seq![if b { 1u8 } else { 0u8 }]);
    hasher.write(&byte);
    assert(hasher@ =~= old(hasher)@ + flag_feed(b));
}

} // verus!
