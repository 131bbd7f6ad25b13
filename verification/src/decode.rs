//! Forward and backward UTF-8 decoding at a byte offset.
//!
//! The forward decoder reads the scalar value whose encoding starts at an
//! offset; the backward decoder reads the scalar value whose encoding ends
//! exactly at an offset, scanning back at most the maximum UTF-8 sequence
//! length of 4 bytes. Both treat malformed bytes as "no character here".

use vstd::prelude::*;

use crate::scalar::Char;

verus! {

use vstd::utf8::codepoint_width_2;
use vstd::utf8::codepoint_width_3;
use vstd::utf8::decode_first_scalar;
use vstd::utf8::is_continuation_byte;
use vstd::utf8::is_scalar;
use vstd::utf8::length_of_first_scalar;
use vstd::utf8::valid_first_scalar;

/// The scalar value at the head of `s`: present exactly when `s` begins with
/// a well-formed UTF-8 encoding of one scalar value.
pub open spec fn first_scalar_char(s: Seq<u8>) -> Option<char> {
    if valid_first_scalar(s) {
        Some(decode_first_scalar(s) as char)
    } else {
        None
    }
}

/// The byte width of the scalar value at the head of `s`, or 0 when no
/// well-formed encoding starts there.
pub open spec fn first_scalar_width(s: Seq<u8>) -> int {
    if valid_first_scalar(s) {
        length_of_first_scalar(s)
    } else {
        0
    }
}

/// Where the encoding of the last scalar value of `s` would start: the last
/// position within 4 bytes of the end that does not hold a continuation
/// byte, or -1 when the last 4 positions all hold continuation bytes.
pub open spec fn last_scalar_start(s: Seq<u8>) -> int {
    let n = s.len() as int;
    if n >= 1 && !is_continuation_byte(s[n - 1]) {
        n - 1
    } else if n >= 2 && !is_continuation_byte(s[n - 2]) {
        n - 2
    } else if n >= 3 && !is_continuation_byte(s[n - 3]) {
        n - 3
    } else if n >= 4 && !is_continuation_byte(s[n - 4]) {
        n - 4
    } else {
        -1
    }
}

/// The scalar value whose encoding ends exactly at the end of `s`: present
/// when a well-formed encoding starts at `last_scalar_start` and reaches the
/// end, and absent otherwise.
pub open spec fn last_scalar_char(s: Seq<u8>) -> Option<char> {
    let p = last_scalar_start(s);
    if p >= 0 {
        let t = s.skip(p);
        if valid_first_scalar(t) && length_of_first_scalar(t) == t.len() {
            Some(decode_first_scalar(t) as char)
        } else {
            None
        }
    } else {
        None
    }
}

proof fn lemma_ascii_byte_mask(b: u8)
    by (bit_vector)
    requires
        b < 0x80,
    ensures
        b & 0x7f == b,
{
}

proof fn lemma_codepoint_width_1_bound(b0: u8)
    by (bit_vector)
    ensures
        vstd::utf8::codepoint_width_1(b0) <= 0x7f,
{
}

proof fn lemma_codepoint_width_2_bound(b0: u8, b1: u8)
    by (bit_vector)
    ensures
        codepoint_width_2(b0, b1) <= 0x7ff,
{
}

proof fn lemma_codepoint_width_3_bound(b0: u8, b1: u8, b2: u8)
    by (bit_vector)
    ensures
        codepoint_width_3(b0, b1, b2) <= 0xffff,
{
}

/// Decodes the UTF-8 encoded scalar value starting at offset `i` of `src`.
///
/// Returns the decoded character and the width in bytes of its encoding, or
/// `None` when no well-formed encoding (strict: no overlong forms, no
/// surrogates, no truncated sequences) starts at `i`.
pub fn decode_utf8(src: &[u8], i: usize) -> (r: Option<(char, usize)>)
    requires
        i <= src@.len(),
    ensures
        ({
            let t = src@.skip(i as int);
            match r {
                Some(p) => valid_first_scalar(t) && p.0 == decode_first_scalar(t) as char && p.1
                    == length_of_first_scalar(t),
                None => !valid_first_scalar(t),
            }
        }),
{
    let ghost t = src@.skip(i as int);
    let n = src.len();
    if i == n {
        return None;
    }
    let b0 = src[i];
    assert(t[0] == b0);
    if b0 < 0x80 {
        // 1-byte sequence
        proof {
            lemma_ascii_byte_mask(b0);
        }
        let c = b0 as char;
        Some((c, 1))
    } else if b0 < 0xc0 {
        // continuation byte in lead position
        None
    } else if b0 < 0xe0 {
        // 2-byte sequence
        if n - i < 2 {
            return None;
        }
        let b1 = src[i + 1];
        assert(t[1] == b1);
        if !(0x80 <= b1 && b1 < 0xc0) {
            return None;
        }
        let cp: u32 = (((b0 & 0x1f) as u32) << 6) | ((b1 & 0x3f) as u32);
        if cp < 0x80 {
            // overlong
            return None;
        }
        proof {
            lemma_codepoint_width_2_bound(b0, b1);
        }
        finish_scalar(cp, 2, Ghost(t))
    } else if b0 < 0xf0 {
        // 3-byte sequence
        if n - i < 3 {
            return None;
        }
        let b1 = src[i + 1];
        let b2 = src[i + 2];
        assert(t[1] == b1 && t[2] == b2);
        if !(0x80 <= b1 && b1 < 0xc0) || !(0x80 <= b2 && b2 < 0xc0) {
            return None;
        }
        let cp: u32 = (((b0 & 0x0f) as u32) << 12) | (((b1 & 0x3f) as u32) << 6) | ((b2
            & 0x3f) as u32);
        if cp < 0x800 {
            // overlong
            return None;
        }
        if 0xd800 <= cp && cp <= 0xdfff {
            // surrogate
            return None;
        }
        proof {
            lemma_codepoint_width_3_bound(b0, b1, b2);
        }
        finish_scalar(cp, 3, Ghost(t))
    } else if b0 < 0xf8 {
        // 4-byte sequence
        if n - i < 4 {
            return None;
        }
        let b1 = src[i + 1];
        let b2 = src[i + 2];
        let b3 = src[i + 3];
        assert(t[1] == b1 && t[2] == b2 && t[3] == b3);
        if !(0x80 <= b1 && b1 < 0xc0) || !(0x80 <= b2 && b2 < 0xc0) || !(0x80 <= b3 && b3
            < 0xc0) {
            return None;
        }
        let cp: u32 = (((b0 & 0x07) as u32) << 18) | (((b1 & 0x3f) as u32) << 12) | (((b2
            & 0x3f) as u32) << 6) | ((b3 & 0x3f) as u32);
        if !(0x10000 <= cp && cp <= 0x10ffff) {
            // overlong or beyond the last scalar value
            return None;
        }
        finish_scalar(cp, 4, Ghost(t))
    } else {
        // no form of UTF-8 lead byte
        None
    }
}

/// Turns a code point already known to be the strictly decoded head scalar
/// of `t` into a decode result.
fn finish_scalar(cp: u32, width: usize, Ghost(t): Ghost<Seq<u8>>) -> (r: Option<(char, usize)>)
    requires
        is_scalar(cp),
        valid_first_scalar(t),
        cp == decode_first_scalar(t),
        width == length_of_first_scalar(t),
    ensures
        r matches Some(p) && p.0 == decode_first_scalar(t) as char && p.1
            == length_of_first_scalar(t),
{
    match crate::scalar::char_from_u32(cp) {
        Some(c) => {
            proof {
                vstd::utf8::char_u32_cast(c, cp);
            }
            Some((c, width))
        },
        None => {
            // unreachable: the code point is a scalar value
            None
        },
    }
}

/// Decodes the UTF-8 encoded scalar value that ends exactly at offset `end`
/// of `src`, scanning backward at most 4 bytes for a lead byte.
///
/// Returns the decoded character and the width in bytes of its encoding, or
/// `None` when the bytes just before `end` do not form a well-formed
/// encoding ending there.
pub fn decode_last_utf8(src: &[u8], end: usize) -> (r: Option<(char, usize)>)
    requires
        end <= src@.len(),
    ensures
        ({
            let s = src@.take(end as int);
            match r {
                Some(p) => 1 <= p.1 <= end && last_scalar_start(s) == end - p.1
                    && last_scalar_char(s) == Some(p.0),
                None => last_scalar_char(s) is None,
            }
        }),
{
    let ghost s = src@.take(end as int);
    assert(s.len() == end);
    if end == 0 {
        return None;
    }
    let p: usize;
    if !is_cont_byte(src[end - 1]) {
        p = end - 1;
    } else if end >= 2 && !is_cont_byte(src[end - 2]) {
        p = end - 2;
    } else if end >= 3 && !is_cont_byte(src[end - 3]) {
        p = end - 3;
    } else if end >= 4 && !is_cont_byte(src[end - 4]) {
        p = end - 4;
    } else {
        assert(last_scalar_start(s) == -1);
        return None;
    }
    assert(last_scalar_start(s) == p as int);
    let pre = vstd::slice::slice_subrange(src, 0, end);
    assert(pre@ == s);
    let r = decode_utf8(pre, p);
    assert(pre@.skip(p as int) == s.skip(p as int));
    match r {
        Some((c, w)) => {
            if w == end - p {
                Some((c, w))
            } else {
                None
            }
        },
        None => None,
    }
}

/// Whether the byte has the form of a UTF-8 continuation byte.
fn is_cont_byte(b: u8) -> (r: bool)
    ensures
        r == is_continuation_byte(b),
{
    0x80 <= b && b < 0xc0
}

/// The step width reported at the head of `s` is exactly the UTF-8 length
/// of the character reported there: the width of its encoding when one
/// decodes (strict decoding accepts no overlong form), and 0 when none does.
pub proof fn lemma_first_scalar_width_is_len_utf8(s: Seq<u8>)
    ensures
        first_scalar_width(s) == crate::scalar::opt_char_len_utf8(first_scalar_char(s)),
{
    if valid_first_scalar(s) {
        let cp = decode_first_scalar(s);
        let k = length_of_first_scalar(s);
        if vstd::utf8::is_leading_byte_width_1(s[0]) {
            lemma_codepoint_width_1_bound(s[0]);
        } else if vstd::utf8::is_leading_byte_width_2(s[0]) {
            lemma_codepoint_width_2_bound(s[0], s[1]);
        } else if vstd::utf8::is_leading_byte_width_3(s[0]) {
            lemma_codepoint_width_3_bound(s[0], s[1], s[2]);
        }
        assert(is_scalar(cp));
        crate::scalar::lemma_scalar_roundtrip(cp);
        assert(vstd::utf8::encode_scalar(cp).len() == k);
    }
}

/// The character at the head of the suffix of `src` starting at `i`, as a
/// packed optional character.
pub fn next_char_at(src: &[u8], i: usize) -> (r: Char)
    requires
        i <= src@.len(),
    ensures
        r@ == first_scalar_char(src@.skip(i as int)),
{
    match decode_utf8(src, i) {
        Some((c, _)) => Char::from_char(c),
        None => Char::absent(),
    }
}

/// The character whose encoding ends exactly at `end` in `src`, as a packed
/// optional character.
pub fn previous_char_at(src: &[u8], end: usize) -> (r: Char)
    requires
        end <= src@.len(),
    ensures
        r@ == last_scalar_char(src@.take(end as int)),
{
    match decode_last_utf8(src, end) {
        Some((c, _)) => Char::from_char(c),
        None => Char::absent(),
    }
}

} // verus!
