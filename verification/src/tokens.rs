//! Splitting a line into its whitespace-separated words.
//!
//! The words of a line are its maximal runs of characters other than ASCII
//! whitespace. `tokens` defines them on the characters; `split_whitespace`
//! finds them in one pass over the bytes and hands out slices of the line.

use crate::encoding::{
    lemma_encode_injective, lemma_encode_subrange, lemma_offset_is_boundary,
    lemma_offset_monotone, lemma_offset_step, lemma_scalar_bytes, offset, substring,
};
use vstd::prelude::*;
use vstd::utf8::*;

verus! {

/// ASCII whitespace: space, tab, line feed, form feed and carriage return.
pub open spec fn is_whitespace(c: char) -> bool {
    c == ' ' || c == '\t' || c == '\n' || c == '\u{c}' || c == '\r'
}

/// The bytes of the ASCII whitespace characters.
pub open spec fn is_whitespace_byte(b: u8) -> bool {
    b == 0x20 || b == 0x09 || b == 0x0a || b == 0x0c || b == 0x0d
}

/// The length of the word at the head of `s`: the number of characters before
/// the first whitespace, or all of them if there is none.
pub open spec fn word_len(s: Seq<char>) -> nat
    decreases s.len(),
{
    if s.len() > 0 && !is_whitespace(s[0]) {
        1 + word_len(s.drop_first())
    } else {
        0
    }
}

/// The words of `s`, in the order in which they stand in it.
pub open spec fn tokens(s: Seq<char>) -> Seq<Seq<char>>
    decreases s.len(),
    via tokens_decreases
{
    if s.len() == 0 {
        Seq::empty()
    } else if is_whitespace(s[0]) {
        tokens(s.drop_first())
    } else {
        seq![s.take(word_len(s) as int)] + tokens(s.skip(word_len(s) as int))
    }
}

#[via_fn]
proof fn tokens_decreases(s: Seq<char>) {
    lemma_word_len(s);
}

/// A word: not empty, and without whitespace.
pub open spec fn is_word(w: Seq<char>) -> bool {
    w.len() > 0 && forall|i: int| 0 <= i < w.len() ==> !is_whitespace(#[trigger] w[i])
}

/// The views of a sequence of string slices.
pub open spec fn texts(parts: Seq<&str>) -> Seq<Seq<char>> {
    Seq::new(parts.len(), |i: int| parts[i]@)
}

/// `word_len(s)` is where the first whitespace of `s` stands, or its end.
pub proof fn lemma_word_len(s: Seq<char>)
    ensures
        word_len(s) <= s.len(),
        forall|i: int| 0 <= i < word_len(s) ==> !is_whitespace(#[trigger] s[i]),
        word_len(s) == s.len() || is_whitespace(s[word_len(s) as int]),
        s.len() > 0 && !is_whitespace(s[0]) ==> word_len(s) >= 1,
    decreases s.len(),
{
    if s.len() > 0 && !is_whitespace(s[0]) {
        let rest = s.drop_first();
        lemma_word_len(rest);
        assert forall|i: int| 0 <= i < word_len(s) implies !is_whitespace(#[trigger] s[i]) by {
            if i > 0 {
                assert(s[i] == rest[i - 1]);
            }
        }
        if word_len(s) < s.len() {
            assert(s[word_len(s) as int] == rest[word_len(rest) as int]);
        }
    }
}

/// The only place that has no whitespace before it and whitespace, or the end,
/// at it is `word_len(s)`.
pub proof fn lemma_word_len_is(s: Seq<char>, m: int)
    requires
        0 <= m <= s.len(),
        forall|i: int| 0 <= i < m ==> !is_whitespace(#[trigger] s[i]),
        m == s.len() || is_whitespace(s[m]),
    ensures
        word_len(s) == m,
{
    lemma_word_len(s);
    let n = word_len(s) as int;
    if n < m {
        assert(!is_whitespace(s[n]));
    }
}

/// Whitespace at the head of a line does not change its words.
pub proof fn lemma_tokens_skip_whitespace(s: Seq<char>, k: int)
    requires
        0 <= k <= s.len(),
        forall|i: int| 0 <= i < k ==> is_whitespace(#[trigger] s[i]),
    ensures
        tokens(s) == tokens(s.skip(k)),
    decreases k,
{
    if k == 0 {
        assert(s.skip(0) =~= s);
    } else {
        let rest = s.drop_first();
        assert(is_whitespace(s[0]));
        assert forall|i: int| 0 <= i < k - 1 implies is_whitespace(#[trigger] rest[i]) by {
            assert(rest[i] == s[i + 1]);
        }
        lemma_tokens_skip_whitespace(rest, k - 1);
        assert(rest.skip(k - 1) =~= s.skip(k));
    }
}

/// A line that starts with a word has that word as its first token, followed
/// by the tokens of what comes after the word.
pub proof fn lemma_tokens_first_word(s: Seq<char>, m: int)
    requires
        1 <= m <= s.len(),
        forall|i: int| 0 <= i < m ==> !is_whitespace(#[trigger] s[i]),
        m == s.len() || is_whitespace(s[m]),
    ensures
        tokens(s) == seq![s.take(m)] + tokens(s.skip(m)),
{
    lemma_word_len_is(s, m);
    assert(!is_whitespace(s[0]));
}

/// Every token is a word.
pub proof fn lemma_tokens_are_words(s: Seq<char>)
    ensures
        forall|i: int| 0 <= i < tokens(s).len() ==> is_word(#[trigger] tokens(s)[i]),
    decreases s.len(),
{
    if s.len() == 0 {
        assert(tokens(s).len() == 0);
    } else if is_whitespace(s[0]) {
        lemma_tokens_are_words(s.drop_first());
        assert(tokens(s) == tokens(s.drop_first()));
    } else {
        let m = word_len(s) as int;
        lemma_word_len(s);
        lemma_tokens_are_words(s.skip(m));
        assert(tokens(s) == seq![s.take(m)] + tokens(s.skip(m)));
        let first = s.take(m);
        let rest = tokens(s.skip(m));
        assert(is_word(first)) by {
            assert forall|i: int| 0 <= i < first.len() implies !is_whitespace(
                #[trigger] first[i],
            ) by {
                assert(first[i] == s[i]);
            }
        }
        assert forall|i: int| 0 <= i < tokens(s).len() implies is_word(#[trigger] tokens(s)[i]) by {
            if i > 0 {
                assert(tokens(s)[i] == rest[i - 1]);
            }
        }
    }
}

/// A word alone is its own single token.
pub proof fn lemma_tokens_of_word(w: Seq<char>)
    requires
        is_word(w),
    ensures
        tokens(w) == seq![w],
{
    lemma_tokens_first_word(w, w.len() as int);
    assert(w.take(w.len() as int) =~= w);
    assert(w.skip(w.len() as int) =~= Seq::<char>::empty());
    assert(seq![w] + tokens(Seq::<char>::empty()) =~= seq![w]);
}

/// A word, a whitespace character and more text: the word is the first
/// token, and the tokens of the rest follow.
pub proof fn lemma_tokens_word_then(w: Seq<char>, gap: char, rest: Seq<char>)
    requires
        is_word(w),
        is_whitespace(gap),
    ensures
        tokens(w + seq![gap] + rest) == seq![w] + tokens(rest),
{
    let s = w + seq![gap] + rest;
    let m = w.len() as int;
    assert forall|i: int| 0 <= i < m implies !is_whitespace(#[trigger] s[i]) by {
        assert(s[i] == w[i]);
    }
    assert(s[m] == gap);
    lemma_tokens_first_word(s, m);
    assert(s.take(m) =~= w);
    let tail = s.skip(m);
    assert(tail[0] == gap);
    assert(tail.drop_first() =~= rest);
}

/// Each byte of a character is a whitespace byte exactly when the character
/// is whitespace.
pub proof fn lemma_whitespace_bytes(c: char)
    ensures
        forall|j: int|
            0 <= j < encode_scalar(c as u32).len() ==> is_whitespace_byte(
                #[trigger] encode_scalar(c as u32)[j],
            ) == is_whitespace(c),
{
    lemma_scalar_bytes(c);
}

/// A run of bytes that are all whitespace, or all not, which starts where a
/// character starts and ends at the first byte of the other kind, is the run
/// of characters of that kind: it ends where a character starts, too.
pub proof fn lemma_run_end(s: Seq<char>, k: int, end: int, ws: bool) -> (kend: int)
    requires
        0 <= k <= s.len(),
        offset(s, k) <= end <= encode_utf8(s).len(),
        forall|j: int|
            offset(s, k) <= j < end ==> is_whitespace_byte(#[trigger] encode_utf8(s)[j]) == ws,
        end == encode_utf8(s).len() || is_whitespace_byte(encode_utf8(s)[end]) != ws,
    ensures
        k <= kend <= s.len(),
        offset(s, kend) == end,
        forall|i: int| k <= i < kend ==> is_whitespace(#[trigger] s[i]) == ws,
        kend == s.len() || is_whitespace(s[kend]) != ws,
    decreases s.len() - k,
{
    lemma_offset_monotone(s, k, s.len() as int);
    if k == s.len() {
        k
    } else {
        let bytes = encode_utf8(s);
        let c = s[k];
        let start = offset(s, k);
        let width = encode_scalar(c as u32).len() as int;
        lemma_offset_step(s, k);
        lemma_whitespace_bytes(c);
        assert forall|p: int| start <= p < start + width implies is_whitespace_byte(
            #[trigger] bytes[p],
        ) == is_whitespace(c) by {
            assert(bytes[start + (p - start)] == encode_scalar(c as u32)[p - start]);
        }
        if is_whitespace(c) == ws {
            if end < start + width {
                assert(is_whitespace_byte(bytes[end]) == ws);
            }
            lemma_run_end(s, k + 1, end, ws)
        } else {
            if start < end {
                assert(is_whitespace_byte(bytes[start]) != ws);
            }
            k
        }
    }
}

/// Whether `b` is the byte of an ASCII whitespace character.
fn whitespace_byte(b: u8) -> (ws: bool)
    ensures
        ws == is_whitespace_byte(b),
{
    b == 0x20 || b == 0x09 || b == 0x0a || b == 0x0c || b == 0x0d
}

/// The end of the run of whitespace bytes (`ws`), or of other bytes (`!ws`),
/// that starts at `from`.
fn run_end(bytes: &[u8], from: usize, ws: bool) -> (end: usize)
    requires
        from <= bytes@.len(),
    ensures
        from <= end <= bytes@.len(),
        forall|j: int| from <= j < end ==> is_whitespace_byte(#[trigger] bytes@[j]) == ws,
        end == bytes@.len() || is_whitespace_byte(bytes@[end as int]) != ws,
{
    let mut end = from;
    while end < bytes.len() && whitespace_byte(bytes[end]) == ws
        invariant
            from <= end <= bytes@.len(),
            forall|j: int| from <= j < end ==> is_whitespace_byte(#[trigger] bytes@[j]) == ws,
        decreases bytes@.len() - end,
    {
        end += 1;
    }
    end
}

/// The words of `line`, each a slice of it.
pub fn split_whitespace<'a>(line: &'a str) -> (parts: Vec<&'a str>)
    ensures
        texts(parts@) == tokens(line@),
{
    let bytes = line.as_bytes();
    let mut parts: Vec<&'a str> = Vec::new();
    let mut at: usize = 0;
    let ghost mut k: int = 0;
    proof {
        lemma_offset_monotone(line@, 0, 0);
        assert(line@.skip(0) =~= line@);
        assert(texts(parts@) + tokens(line@) =~= tokens(line@));
    }
    loop
        invariant
            bytes@ == encode_utf8(line@),
            0 <= k <= line@.len(),
            at == offset(line@, k),
            at <= bytes@.len(),
            texts(parts@) + tokens(line@.skip(k)) == tokens(line@),
        ensures
            texts(parts@) == tokens(line@),
        decreases bytes@.len() - at,
    {
        let start = run_end(bytes, at, true);
        let ghost k1 = lemma_run_end(line@, k, start as int, true);
        proof {
            let rest = line@.skip(k);
            assert forall|i: int| 0 <= i < k1 - k implies is_whitespace(#[trigger] rest[i]) by {
                assert(rest[i] == line@[k + i]);
            }
            lemma_tokens_skip_whitespace(rest, k1 - k);
            assert(rest.skip(k1 - k) =~= line@.skip(k1));
            lemma_offset_monotone(line@, k1, line@.len() as int);
        }
        if start == bytes.len() {
            proof {
                assert(line@.skip(k1).len() == 0);
                assert(texts(parts@) + tokens(line@.skip(k1)) =~= texts(parts@));
            }
            break;
        }
        let end = run_end(bytes, start, false);
        let ghost k2 = lemma_run_end(line@, k1, end as int, false);
        proof {
            assert(!is_whitespace_byte(bytes@[start as int]));
            assert(start < end);
            lemma_offset_is_boundary(line@, k1);
            lemma_offset_is_boundary(line@, k2);
        }
        let word = substring(line, start, end);
        proof {
            lemma_encode_subrange(line@, k1, k2);
            lemma_encode_injective(word@, line@.subrange(k1, k2));
            let rest = line@.skip(k1);
            assert forall|i: int| 0 <= i < k2 - k1 implies !is_whitespace(#[trigger] rest[i]) by {
                assert(rest[i] == line@[k1 + i]);
            }
            if k2 < line@.len() {
                assert(rest[k2 - k1] == line@[k2]);
            }
            lemma_tokens_first_word(rest, k2 - k1);
            assert(rest.take(k2 - k1) =~= line@.subrange(k1, k2));
            assert(rest.skip(k2 - k1) =~= line@.skip(k2));
            assert(texts(parts@.push(word)) =~= texts(parts@) + seq![word@]);
            assert(texts(parts@.push(word)) + tokens(line@.skip(k2)) =~= texts(parts@) + (seq![
                word@,
            ] + tokens(line@.skip(k2))));
        }
        parts.push(word);
        at = end;
        proof {
            k = k2;
        }
    }
    parts
}

} // verus!
