//! Text and its bytes.
//!
//! The library's contracts speak of text as a sequence of characters, while the
//! executable code scans the UTF-8 bytes of a `&str`. This module relates the
//! two: where each character starts among the bytes, why an ASCII byte always
//! stands for the character of the same value, and how a slice of the bytes
//! between two character starts is the text between the two characters.

use vstd::prelude::*;
use vstd::utf8::*;

verus! {

/// The number of bytes that the first `k` characters of `s` take up in UTF-8,
/// which is the position at which character `k` starts.
pub open spec fn offset(s: Seq<char>, k: int) -> int {
    encode_utf8(s.take(k)).len() as int
}

/// Encoding distributes over concatenation.
pub proof fn lemma_encode_concat(a: Seq<char>, b: Seq<char>)
    ensures
        encode_utf8(a + b) == encode_utf8(a) + encode_utf8(b),
    decreases a.len(),
{
    if a.len() == 0 {
        assert(a + b =~= b);
        assert(encode_utf8(a) + encode_utf8(b) =~= encode_utf8(b));
    } else {
        lemma_encode_concat(a.drop_first(), b);
        assert((a + b).drop_first() =~= a.drop_first() + b);
        assert(encode_utf8(a + b) =~= encode_utf8(a) + encode_utf8(b));
    }
}

/// Two texts with the same bytes are the same text.
pub proof fn lemma_encode_injective(a: Seq<char>, b: Seq<char>)
    requires
        encode_utf8(a) == encode_utf8(b),
    ensures
        a == b,
{
    encode_utf8_decode_utf8(a);
    encode_utf8_decode_utf8(b);
}

/// The bytes of one character: an ASCII character is the single byte of its
/// own value, and every byte of any other character is `0x80` or more.
pub proof fn lemma_scalar_bytes(c: char)
    ensures
        1 <= encode_scalar(c as u32).len() <= 4,
        (c as u32) < 0x80 ==> encode_scalar(c as u32) == seq![c as u8],
        (c as u32) >= 0x80 ==> forall|j: int|
            0 <= j < encode_scalar(c as u32).len() ==> #[trigger] encode_scalar(c as u32)[j]
                >= 0x80,
{
    let v = c as u32;
    assert(v < 0x80 ==> (v & 0x7F) as u8 == v as u8) by (bit_vector);
    assert(0xC0 | ((v >> 6) & 0x1F) as u8 >= 0x80) by (bit_vector);
    assert(0xE0 | ((v >> 12) & 0x0F) as u8 >= 0x80) by (bit_vector);
    assert(0xF0 | ((v >> 18) & 0x7) as u8 >= 0x80) by (bit_vector);
    assert(0x80 | (v & 0x3F) as u8 >= 0x80) by (bit_vector);
    assert(0x80 | ((v >> 6) & 0x3F) as u8 >= 0x80) by (bit_vector);
    assert(0x80 | ((v >> 12) & 0x3F) as u8 >= 0x80) by (bit_vector);
    if v < 0x80 {
        assert(encode_scalar(v) =~= seq![c as u8]);
    }
}

/// The bytes of `s` are those of its first `k` characters followed by those of
/// the rest.
pub proof fn lemma_encode_split(s: Seq<char>, k: int)
    requires
        0 <= k <= s.len(),
    ensures
        encode_utf8(s) == encode_utf8(s.take(k)) + encode_utf8(s.skip(k)),
        0 <= offset(s, k) <= encode_utf8(s).len(),
        encode_utf8(s).subrange(0, offset(s, k)) == encode_utf8(s.take(k)),
        encode_utf8(s).subrange(offset(s, k), encode_utf8(s).len() as int) == encode_utf8(
            s.skip(k),
        ),
{
    assert(s =~= s.take(k) + s.skip(k));
    lemma_encode_concat(s.take(k), s.skip(k));
    let whole = encode_utf8(s);
    let head = encode_utf8(s.take(k));
    let tail = encode_utf8(s.skip(k));
    assert(whole.subrange(0, head.len() as int) =~= head);
    assert(whole.subrange(head.len() as int, whole.len() as int) =~= tail);
}

/// Character `k` of `s` lies at `offset(s, k)`, and the next one starts right
/// after its bytes.
pub proof fn lemma_offset_step(s: Seq<char>, k: int)
    requires
        0 <= k < s.len(),
    ensures
        offset(s, k + 1) == offset(s, k) + encode_scalar(s[k] as u32).len(),
        offset(s, k + 1) <= encode_utf8(s).len(),
        forall|j: int|
            0 <= j < encode_scalar(s[k] as u32).len() ==> #[trigger] encode_utf8(s)[offset(s, k)
                + j] == encode_scalar(s[k] as u32)[j],
{
    let one = seq![s[k]];
    assert(s.take(k + 1) =~= s.take(k) + one);
    lemma_encode_concat(s.take(k), one);
    assert(one.drop_first() =~= Seq::<char>::empty());
    assert(encode_utf8(one) =~= encode_scalar(s[k] as u32)) by {
        reveal_with_fuel(encode_utf8, 2);
    }
    lemma_encode_split(s, k + 1);
    let bytes = encode_utf8(s);
    let at = offset(s, k);
    assert forall|j: int| 0 <= j < encode_scalar(s[k] as u32).len() implies #[trigger] bytes[at
        + j] == encode_scalar(s[k] as u32)[j] by {
        assert(bytes[at + j] == bytes.subrange(0, offset(s, k + 1))[at + j]);
    }
}

/// Offsets grow with the character index, and the offset of the end of the text
/// is the length of its bytes.
pub proof fn lemma_offset_monotone(s: Seq<char>, a: int, b: int)
    requires
        0 <= a <= b <= s.len(),
    ensures
        0 <= offset(s, a) <= offset(s, b) <= encode_utf8(s).len(),
        a < b ==> offset(s, a) < offset(s, b),
        offset(s, 0) == 0,
        offset(s, s.len() as int) == encode_utf8(s).len(),
    decreases b - a,
{
    assert(s.take(0) =~= Seq::<char>::empty());
    assert(s.take(s.len() as int) =~= s);
    lemma_encode_split(s, a);
    lemma_encode_split(s, b);
    if a < b {
        lemma_offset_monotone(s, a + 1, b);
        lemma_offset_step(s, a);
        lemma_scalar_bytes(s[a]);
    }
}

/// The first byte of a character is never a continuation byte.
pub proof fn lemma_leading_byte(c: char)
    ensures
        !is_continuation_byte(encode_scalar(c as u32)[0]),
{
    let v = c as u32;
    assert(v < 0x80 ==> (v & 0x7F) as u8 <= 0x7F) by (bit_vector);
    assert(0xC0 | ((v >> 6) & 0x1F) as u8 >= 0xC0) by (bit_vector);
    assert(0xE0 | ((v >> 12) & 0x0F) as u8 >= 0xC0) by (bit_vector);
    assert(0xF0 | ((v >> 18) & 0x7) as u8 >= 0xC0) by (bit_vector);
}

/// The place where a character starts is a character boundary of the bytes.
pub proof fn lemma_offset_is_boundary(s: Seq<char>, k: int)
    requires
        0 <= k <= s.len(),
    ensures
        0 <= offset(s, k) <= encode_utf8(s).len(),
        is_char_boundary(encode_utf8(s), offset(s, k)),
{
    let bytes = encode_utf8(s);
    lemma_offset_monotone(s, k, s.len() as int);
    encode_utf8_valid_utf8(s);
    is_char_boundary_start_end_of_seq(bytes);
    if k < s.len() {
        lemma_offset_step(s, k);
        lemma_scalar_bytes(s[k]);
        lemma_leading_byte(s[k]);
        assert(bytes[offset(s, k) + 0] == encode_scalar(s[k] as u32)[0]);
        is_char_boundary_iff_not_is_continuation_byte(bytes, offset(s, k));
    }
}

/// The bytes between the starts of two characters are the bytes of the text
/// between them.
pub proof fn lemma_encode_subrange(s: Seq<char>, a: int, b: int)
    requires
        0 <= a <= b <= s.len(),
    ensures
        0 <= offset(s, a) <= offset(s, b) <= encode_utf8(s).len(),
        encode_utf8(s).subrange(offset(s, a), offset(s, b)) == encode_utf8(s.subrange(a, b)),
{
    lemma_offset_monotone(s, a, b);
    let front = s.take(b);
    lemma_encode_split(s, b);
    lemma_encode_split(front, a);
    assert(front.take(a) =~= s.take(a));
    assert(front.skip(a) =~= s.subrange(a, b));
    assert(encode_utf8(s).subrange(offset(s, a), offset(s, b)) =~= encode_utf8(front).subrange(
        offset(s, a),
        offset(s, b),
    ));
}

/// No byte of a character is the byte of a different ASCII character.
pub proof fn lemma_other_ascii(a: char, c: char)
    requires
        a != c,
        (c as u32) < 0x80,
    ensures
        forall|j: int|
            0 <= j < encode_scalar(a as u32).len() ==> #[trigger] encode_scalar(a as u32)[j]
                != c as u8,
{
    lemma_scalar_bytes(a);
    assert(a as u32 != c as u32) by {
        char_u32_cast(a, a as u32);
        char_u32_cast(c, c as u32);
    }
}

/// An ASCII character that does not occur in a text does not occur among its
/// bytes either.
pub proof fn lemma_ascii_absent(s: Seq<char>, c: char)
    requires
        (c as u32) < 0x80,
        forall|i: int| 0 <= i < s.len() ==> #[trigger] s[i] != c,
    ensures
        forall|j: int| 0 <= j < encode_utf8(s).len() ==> #[trigger] encode_utf8(s)[j] != c as u8,
    decreases s.len(),
{
    if s.len() > 0 {
        let first = encode_scalar(s[0] as u32);
        let rest = s.drop_first();
        assert(s[0] != c);
        lemma_other_ascii(s[0], c);
        assert forall|i: int| 0 <= i < rest.len() implies #[trigger] rest[i] != c by {
            assert(rest[i] == s[i + 1]);
        }
        lemma_ascii_absent(rest, c);
        assert forall|j: int| 0 <= j < encode_utf8(s).len() implies #[trigger] encode_utf8(s)[j]
            != c as u8 by {
            if j < first.len() {
                assert(encode_utf8(s)[j] == first[j]);
            } else {
                assert(encode_utf8(s)[j] == encode_utf8(rest)[j - first.len()]);
            }
        }
    }
}

/// A text begins with another exactly when its bytes begin with the bytes of
/// the other.
pub proof fn lemma_prefix_bytes(p: Seq<char>, s: Seq<char>)
    ensures
        p.is_prefix_of(s) <==> encode_utf8(p).is_prefix_of(encode_utf8(s)),
    decreases p.len(),
{
    let ep = encode_utf8(p);
    let es = encode_utf8(s);
    if p.is_prefix_of(s) {
        assert(p =~= s.take(p.len() as int));
        lemma_encode_split(s, p.len() as int);
    }
    if ep.is_prefix_of(es) {
        if p.len() == 0 {
            assert(p =~= s.subrange(0, 0));
        } else {
            lemma_scalar_bytes(p[0]);
            assert(es.len() > 0);
            assert(s.len() > 0);
            lemma_scalar_bytes(s[0]);
            encode_utf8_first_scalar(p);
            encode_utf8_first_scalar(s);
            let w = length_of_first_scalar(ep);
            assert(forall|j: int| 0 <= j < w ==> ep[j] == es[j]) by {
                assert(ep =~= es.subrange(0, ep.len() as int));
            }
            assert(decode_first_scalar(ep) == decode_first_scalar(es));
            char_u32_cast(p[0], p[0] as u32);
            char_u32_cast(s[0], s[0] as u32);
            assert(p[0] == s[0]);
            let pt = p.drop_first();
            let st = s.drop_first();
            assert(encode_utf8(pt) =~= ep.subrange(w, ep.len() as int));
            assert(encode_utf8(st) =~= es.subrange(w, es.len() as int));
            assert(encode_utf8(pt).is_prefix_of(encode_utf8(st))) by {
                assert(ep =~= es.subrange(0, ep.len() as int));
            }
            lemma_prefix_bytes(pt, st);
            assert forall|i: int| 0 <= i < p.len() implies p[i] == s[i] by {
                if i > 0 {
                    assert(p[i] == pt[i - 1]);
                    assert(pt[i - 1] == st.subrange(0, pt.len() as int)[i - 1]);
                }
            }
            assert(p =~= s.subrange(0, p.len() as int));
        }
    }
}

/// Whether two texts are the same.
pub fn str_eq(a: &str, b: &str) -> (same: bool)
    ensures
        same == (a@ == b@),
{
    let x = a.as_bytes();
    let y = b.as_bytes();
    if x.len() != y.len() {
        return false;
    }
    let mut i: usize = 0;
    while i < x.len()
        invariant
            i <= x@.len() == y@.len(),
            x@ == encode_utf8(a@),
            y@ == encode_utf8(b@),
            forall|j: int| 0 <= j < i ==> x@[j] == y@[j],
        decreases x@.len() - i,
    {
        if x[i] != y[i] {
            return false;
        }
        i += 1;
    }
    proof {
        assert(x@ =~= y@);
        lemma_encode_injective(a@, b@);
    }
    true
}

/// Whether `s` begins with `prefix`.
pub fn starts_with(s: &str, prefix: &str) -> (found: bool)
    ensures
        found == prefix@.is_prefix_of(s@),
{
    let x = s.as_bytes();
    let y = prefix.as_bytes();
    proof {
        lemma_prefix_bytes(prefix@, s@);
    }
    if y.len() > x.len() {
        return false;
    }
    let mut i: usize = 0;
    while i < y.len()
        invariant
            i <= y@.len() <= x@.len(),
            x@ == encode_utf8(s@),
            y@ == encode_utf8(prefix@),
            forall|j: int| 0 <= j < i ==> x@[j] == y@[j],
            prefix@.is_prefix_of(s@) <==> y@.is_prefix_of(x@),
        decreases y@.len() - i,
    {
        if x[i] != y[i] {
            proof {
                assert(x@.subrange(0, y@.len() as int)[i as int] == x@[i as int]);
            }
            return false;
        }
        i += 1;
    }
    proof {
        assert(y@ =~= x@.subrange(0, y@.len() as int));
    }
    true
}

/// The part of `s` between the byte positions `from` and `to`, both of which
/// must be places where a character starts (or the end of the text).
pub fn substring<'a>(s: &'a str, from: usize, to: usize) -> (part: &'a str)
    requires
        from <= to <= encode_utf8(s@).len(),
        is_char_boundary(encode_utf8(s@), from as int),
        is_char_boundary(encode_utf8(s@), to as int),
    ensures
        encode_utf8(part@) == encode_utf8(s@).subrange(from as int, to as int),
{
    let (_, tail) = s.split_at(from);
    proof {
        let bytes = encode_utf8(s@);
        let rest = encode_utf8(tail@);
        encode_utf8_valid_utf8(s@);
        encode_utf8_valid_utf8(tail@);
        is_char_boundary_start_end_of_seq(rest);
        if to < bytes.len() {
            is_char_boundary_iff_not_is_continuation_byte(bytes, to as int);
            is_char_boundary_iff_not_is_continuation_byte(rest, to - from);
        }
    }
    let (part, _) = tail.split_at(to - from);
    proof {
        assert(encode_utf8(part@) =~= encode_utf8(s@).subrange(from as int, to as int));
    }
    part
}

} // verus!
