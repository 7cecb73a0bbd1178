//! The order of texts by character is the order of their UTF-8 encodings
//! byte by byte, which is how strings are ordered as they are stored.

use crate::order::text_order;
use std::cmp::Ordering;
use vstd::prelude::*;
use vstd::utf8::{char_is_scalar, encode_scalar, encode_utf8, is_scalar};
use vstd::utf8::{has_width_1_encoding, has_width_2_encoding, has_width_3_encoding};
use vstd::utf8::{has_width_4_encoding, last_continuation_byte, leading_byte_width_1};
use vstd::utf8::{leading_byte_width_2, leading_byte_width_3, leading_byte_width_4};
use vstd::utf8::{second_last_continuation_byte, third_last_continuation_byte};

verus! {

/// How `x` stands to `y` in the lexicographic order by byte.
pub open spec fn byte_order(x: Seq<u8>, y: Seq<u8>) -> Ordering
    decreases x.len(),
{
    if x.len() == 0 && y.len() == 0 {
        Ordering::Equal
    } else if x.len() == 0 {
        Ordering::Less
    } else if y.len() == 0 {
        Ordering::Greater
    } else if x[0] == y[0] {
        byte_order(x.drop_first(), y.drop_first())
    } else if x[0] < y[0] {
        Ordering::Less
    } else {
        Ordering::Greater
    }
}

/// `x` and `y` agree on their first `k` bytes, and the next byte of `x` is
/// the smaller one.
pub open spec fn rises_at(x: Seq<u8>, y: Seq<u8>, k: int) -> bool {
    &&& 0 <= k < x.len()
    &&& k < y.len()
    &&& forall|i: int| 0 <= i < k ==> x[i] == y[i]
    &&& x[k] < y[k]
}

/// The encoding of the first character of `a`.
pub open spec fn first_encoded(a: Seq<char>) -> Seq<u8> {
    encode_scalar(a[0] as u32)
}

proof fn lemma_leading_byte_ranges(c: u32)
    by (bit_vector)
    ensures
        has_width_1_encoding(c) ==> leading_byte_width_1(c) <= 0x7F,
        has_width_2_encoding(c) ==> 0xC0 <= leading_byte_width_2(c) <= 0xDF,
        has_width_3_encoding(c) ==> 0xE0 <= leading_byte_width_3(c) <= 0xEF,
        has_width_4_encoding(c) ==> 0xF0 <= leading_byte_width_4(c) <= 0xF7,
{
}

proof fn lemma_rise_width_1(c: u32, d: u32)
    by (bit_vector)
    requires
        has_width_1_encoding(c),
        has_width_1_encoding(d),
        c < d,
    ensures
        leading_byte_width_1(c) < leading_byte_width_1(d),
{
}

proof fn lemma_rise_width_2(c: u32, d: u32)
    by (bit_vector)
    requires
        has_width_2_encoding(c),
        has_width_2_encoding(d),
        c < d,
    ensures
        ({
            let c1 = leading_byte_width_2(c);
            let d1 = leading_byte_width_2(d);
            let c2 = last_continuation_byte(c);
            let d2 = last_continuation_byte(d);
            c1 < d1 || (c1 == d1 && c2 < d2)
        }),
{
}

proof fn lemma_rise_width_3(c: u32, d: u32)
    by (bit_vector)
    requires
        has_width_3_encoding(c),
        has_width_3_encoding(d),
        c < d,
    ensures
        ({
            let c1 = leading_byte_width_3(c);
            let d1 = leading_byte_width_3(d);
            let c2 = second_last_continuation_byte(c);
            let d2 = second_last_continuation_byte(d);
            let c3 = last_continuation_byte(c);
            let d3 = last_continuation_byte(d);
            c1 < d1 || (c1 == d1 && (c2 < d2 || (c2 == d2 && c3 < d3)))
        }),
{
}

proof fn lemma_rise_width_4(c: u32, d: u32)
    by (bit_vector)
    requires
        has_width_4_encoding(c),
        has_width_4_encoding(d),
        c < d,
    ensures
        ({
            let c1 = leading_byte_width_4(c);
            let d1 = leading_byte_width_4(d);
            let c2 = third_last_continuation_byte(c);
            let d2 = third_last_continuation_byte(d);
            let c3 = second_last_continuation_byte(c);
            let d3 = second_last_continuation_byte(d);
            let c4 = last_continuation_byte(c);
            let d4 = last_continuation_byte(d);
            c1 < d1 || (c1 == d1 && (c2 < d2 || (c2 == d2 && (c3 < d3 || (c3 == d3 && c4
                < d4)))))
        }),
{
}

/// Of two scalar values, the smaller has the encoding that comes first: the
/// two encodings part at some byte, and there the smaller value has the
/// smaller byte.
pub proof fn lemma_scalar_rises(c: u32, d: u32)
    requires
        is_scalar(c),
        is_scalar(d),
        c < d,
    ensures
        exists|k: int| rises_at(encode_scalar(c), encode_scalar(d), k),
{
    let x = encode_scalar(c);
    let y = encode_scalar(d);
    lemma_leading_byte_ranges(c);
    lemma_leading_byte_ranges(d);
    if has_width_1_encoding(d) {
        lemma_rise_width_1(c, d);
        assert(rises_at(x, y, 0));
    } else if has_width_1_encoding(c) {
        assert(rises_at(x, y, 0));
    } else if has_width_2_encoding(d) {
        lemma_rise_width_2(c, d);
        if x[0] < y[0] {
            assert(rises_at(x, y, 0));
        } else {
            assert(rises_at(x, y, 1));
        }
    } else if has_width_2_encoding(c) {
        assert(rises_at(x, y, 0));
    } else if has_width_3_encoding(d) {
        lemma_rise_width_3(c, d);
        if x[0] < y[0] {
            assert(rises_at(x, y, 0));
        } else if x[1] < y[1] {
            assert(rises_at(x, y, 1));
        } else {
            assert(rises_at(x, y, 2));
        }
    } else if has_width_3_encoding(c) {
        assert(rises_at(x, y, 0));
    } else {
        lemma_rise_width_4(c, d);
        if x[0] < y[0] {
            assert(rises_at(x, y, 0));
        } else if x[1] < y[1] {
            assert(rises_at(x, y, 1));
        } else if x[2] < y[2] {
            assert(rises_at(x, y, 2));
        } else {
            assert(rises_at(x, y, 3));
        }
    }
}

/// Characters stand to each other as their code points do.
proof fn lemma_code_points_rise(c: char, d: char)
    requires
        c < d,
    ensures
        is_scalar(c as u32),
        is_scalar(d as u32),
        (c as u32) < (d as u32),
{
    char_is_scalar(c);
    char_is_scalar(d);
}

/// An empty text has the empty encoding; any other begins with the encoding
/// of its first character, which is not empty, and goes on with the encoding
/// of the rest.
pub proof fn lemma_encoding_unfolds(a: Seq<char>)
    ensures
        a.len() == 0 ==> encode_utf8(a).len() == 0,
        a.len() > 0 ==> first_encoded(a).len() > 0 && encode_utf8(a) == first_encoded(a)
            + encode_utf8(a.drop_first()),
{
}

/// Where the first character of `a` is the smaller one, the encodings part
/// within the first character, and that of `a` has the smaller byte there.
pub proof fn lemma_first_character_rises(a: Seq<char>, b: Seq<char>)
    requires
        a.len() > 0,
        b.len() > 0,
        a[0] < b[0],
    ensures
        exists|k: int| rises_at(encode_utf8(a), encode_utf8(b), k),
{
    let c = a[0] as u32;
    let d = b[0] as u32;
    lemma_code_points_rise(a[0], b[0]);
    lemma_scalar_rises(c, d);
    let k = choose|k: int| rises_at(encode_scalar(c), encode_scalar(d), k);
    lemma_encoding_unfolds(a);
    lemma_encoding_unfolds(b);
    assert(rises_at(encode_utf8(a), encode_utf8(b), k));
}

/// A common beginning plays no part in the order.
pub proof fn lemma_byte_order_prefix(p: Seq<u8>, x: Seq<u8>, y: Seq<u8>)
    ensures
        byte_order(p + x, p + y) == byte_order(x, y),
    decreases p.len(),
{
    if p.len() == 0 {
        assert(p + x == x);
        assert(p + y == y);
    } else {
        lemma_byte_order_prefix(p.drop_first(), x, y);
        assert((p + x).drop_first() == p.drop_first() + x);
        assert((p + y).drop_first() == p.drop_first() + y);
    }
}

/// The sequence with the smaller byte where the two part comes first.
pub proof fn lemma_byte_order_rises(x: Seq<u8>, y: Seq<u8>, k: int)
    requires
        rises_at(x, y, k),
    ensures
        byte_order(x, y) == Ordering::Less,
        byte_order(y, x) == Ordering::Greater,
    decreases k,
{
    if k > 0 {
        assert(x[0] == y[0]);
        assert(rises_at(x.drop_first(), y.drop_first(), k - 1));
        lemma_byte_order_rises(x.drop_first(), y.drop_first(), k - 1);
    }
}

/// Two texts stand to each other as their UTF-8 encodings do.
pub proof fn lemma_text_order_by_bytes(a: Seq<char>, b: Seq<char>)
    ensures
        text_order(a, b) == byte_order(encode_utf8(a), encode_utf8(b)),
    decreases a.len(),
{
    lemma_encoding_unfolds(a);
    lemma_encoding_unfolds(b);
    if a.len() > 0 && b.len() > 0 {
        if a[0] == b[0] {
            lemma_text_order_by_bytes(a.drop_first(), b.drop_first());
            lemma_byte_order_prefix(
                first_encoded(a),
                encode_utf8(a.drop_first()),
                encode_utf8(b.drop_first()),
            );
        } else if a[0] < b[0] {
            lemma_first_character_rises(a, b);
            let k = choose|k: int| rises_at(encode_utf8(a), encode_utf8(b), k);
            lemma_byte_order_rises(encode_utf8(a), encode_utf8(b), k);
        } else {
            lemma_first_character_rises(b, a);
            let k = choose|k: int| rises_at(encode_utf8(b), encode_utf8(a), k);
            lemma_byte_order_rises(encode_utf8(b), encode_utf8(a), k);
        }
    }
}

} // verus!
