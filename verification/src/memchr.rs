//! Byte searches within machine words ("SIMD within a register"): a word's
//! zero bytes are found with a few arithmetic and bitwise operations, and a
//! search for a byte value becomes a search for zero bytes after an XOR.
use vstd::prelude::*;
use vstd::std_specs::bits::{
    u64_leading_zeros, u64_trailing_zeros, axiom_u64_leading_zeros, axiom_u64_trailing_zeros,
};

verus! {

/// `0x01` in every byte.
pub const LO_U64: u64 = 0x0101_0101_0101_0101;
/// `0x80` in every byte.
pub const HI_U64: u64 = 0x8080_8080_8080_8080;

/// Byte `k` of `w`, counted from the least significant byte.
pub open spec fn byte_of(w: u64, k: u64) -> u64 {
    (w >> (8 * k)) & 0xff
}

/// The classic zero-byte test: the high bit of every zero byte is set, and
/// possibly that of a `0x01` byte that a lower zero byte borrows from.
pub open spec fn zero_byte_mask(w: u64) -> u64 {
    vstd::wrapping::u64_specs::wrapping_sub(w, LO_U64) & !w & HI_U64
}

/// The borrow-safe zero-byte mask: exactly the high bits of the zero bytes.
pub open spec fn exact_zero_mask(w: u64) -> u64 {
    zero_byte_mask(w) & (!w << 7)
}

/// The word whose bytes, least significant first, are `b`.
pub open spec fn word_of(b: Seq<u8>) -> u64 {
    (b[0] as u64) | (b[1] as u64) << 8 | (b[2] as u64) << 16 | (b[3] as u64) << 24 | (b[4] as u64)
        << 32 | (b[5] as u64) << 40 | (b[6] as u64) << 48 | (b[7] as u64) << 56
}

/// Some byte of `w` is zero.
pub open spec fn has_zero_byte(w: u64) -> bool {
    exists|k: u64| k < 8 && #[trigger] byte_of(w, k) == 0
}

/// `i` is the first position of `c` in `s`.
pub open spec fn is_first_index(s: Seq<u8>, c: u8, i: int) -> bool {
    0 <= i < s.len() && s[i] == c && forall|j: int| 0 <= j < i ==> #[trigger] s[j] != c
}

/// `i` is the last position of `c` in `s`.
pub open spec fn is_last_index(s: Seq<u8>, c: u8, i: int) -> bool {
    0 <= i < s.len() && s[i] == c && forall|j: int| i < j < s.len() ==> #[trigger] s[j] != c
}

/// Where `c` occurs first in `s`, if at all.
pub open spec fn first_index_of(s: Seq<u8>, c: u8, res: Option<usize>) -> bool {
    match res {
        Some(i) => is_first_index(s, c, i as int),
        None => forall|j: int| 0 <= j < s.len() ==> #[trigger] s[j] != c,
    }
}

/// Where `c` occurs last in `s`, if at all.
pub open spec fn last_index_of(s: Seq<u8>, c: u8, res: Option<usize>) -> bool {
    match res {
        Some(i) => is_last_index(s, c, i as int),
        None => forall|j: int| 0 <= j < s.len() ==> #[trigger] s[j] != c,
    }
}

// ---------------------------------------------------------------- bit facts

/// The classic zero-byte mask is empty exactly when no byte is zero, and so
/// is the exact one.
pub(crate) proof fn lemma_mask_empty(w: u64)
    by (bit_vector)
    ensures
        (zero_byte_mask(w) == 0) == (byte_of(w, 0) != 0 && byte_of(w, 1) != 0 && byte_of(w, 2) != 0
            && byte_of(w, 3) != 0 && byte_of(w, 4) != 0 && byte_of(w, 5) != 0 && byte_of(w, 6) != 0
            && byte_of(w, 7) != 0),
        (exact_zero_mask(w) == 0) == (zero_byte_mask(w) == 0),
{
}

/// The lowest set bit of the classic mask is the high bit of the first zero byte.
proof fn lemma_classic_lowest(w: u64)
    by (bit_vector)
    ensures
        byte_of(w, 0) == 0 ==> (zero_byte_mask(w) >> 7u64) & 1 == 1 && zero_byte_mask(w) & ((1u64 << 7u64) - 1) as u64 == 0,
        byte_of(w, 0) != 0 && byte_of(w, 1) == 0 ==> (zero_byte_mask(w) >> 15u64) & 1 == 1
            && zero_byte_mask(w) & ((1u64 << 15u64) - 1) as u64 == 0,
        byte_of(w, 0) != 0 && byte_of(w, 1) != 0 && byte_of(w, 2) == 0 ==> (zero_byte_mask(w)
            >> 23u64) & 1 == 1 && zero_byte_mask(w) & ((1u64 << 23u64) - 1) as u64 == 0,
        byte_of(w, 0) != 0 && byte_of(w, 1) != 0 && byte_of(w, 2) != 0 && byte_of(w, 3) == 0 ==> (
        zero_byte_mask(w) >> 31u64) & 1 == 1 && zero_byte_mask(w) & ((1u64 << 31u64) - 1) as u64 == 0,
        byte_of(w, 0) != 0 && byte_of(w, 1) != 0 && byte_of(w, 2) != 0 && byte_of(w, 3) != 0
            && byte_of(w, 4) == 0 ==> (zero_byte_mask(w) >> 39u64) & 1 == 1 && zero_byte_mask(w)
            & ((1u64 << 39u64) - 1) as u64 == 0,
        byte_of(w, 0) != 0 && byte_of(w, 1) != 0 && byte_of(w, 2) != 0 && byte_of(w, 3) != 0
            && byte_of(w, 4) != 0 && byte_of(w, 5) == 0 ==> (zero_byte_mask(w) >> 47u64) & 1 == 1
            && zero_byte_mask(w) & ((1u64 << 47u64) - 1) as u64 == 0,
        byte_of(w, 0) != 0 && byte_of(w, 1) != 0 && byte_of(w, 2) != 0 && byte_of(w, 3) != 0
            && byte_of(w, 4) != 0 && byte_of(w, 5) != 0 && byte_of(w, 6) == 0 ==> (zero_byte_mask(w)
            >> 55u64) & 1 == 1 && zero_byte_mask(w) & ((1u64 << 55u64) - 1) as u64 == 0,
        byte_of(w, 0) != 0 && byte_of(w, 1) != 0 && byte_of(w, 2) != 0 && byte_of(w, 3) != 0
            && byte_of(w, 4) != 0 && byte_of(w, 5) != 0 && byte_of(w, 6) != 0 && byte_of(w, 7) == 0
            ==> (zero_byte_mask(w) >> 63u64) & 1 == 1 && zero_byte_mask(w) & ((1u64 << 63u64) - 1) as u64
            == 0,
{
}

/// The highest set bit of the exact mask is the high bit of the last zero byte.
proof fn lemma_exact_highest(w: u64)
    by (bit_vector)
    ensures
        byte_of(w, 7) == 0 ==> (exact_zero_mask(w) >> 63u64) & 1 == 1 && exact_zero_mask(w) >> 64u64 == 0,
        byte_of(w, 7) != 0 && byte_of(w, 6) == 0 ==> (exact_zero_mask(w) >> 55u64) & 1 == 1
            && exact_zero_mask(w) >> 56u64 == 0,
        byte_of(w, 7) != 0 && byte_of(w, 6) != 0 && byte_of(w, 5) == 0 ==> (exact_zero_mask(w)
            >> 47u64) & 1 == 1 && exact_zero_mask(w) >> 48u64 == 0,
        byte_of(w, 7) != 0 && byte_of(w, 6) != 0 && byte_of(w, 5) != 0 && byte_of(w, 4) == 0 ==> (
        exact_zero_mask(w) >> 39u64) & 1 == 1 && exact_zero_mask(w) >> 40u64 == 0,
        byte_of(w, 7) != 0 && byte_of(w, 6) != 0 && byte_of(w, 5) != 0 && byte_of(w, 4) != 0
            && byte_of(w, 3) == 0 ==> (exact_zero_mask(w) >> 31u64) & 1 == 1 && exact_zero_mask(w)
            >> 32u64 == 0,
        byte_of(w, 7) != 0 && byte_of(w, 6) != 0 && byte_of(w, 5) != 0 && byte_of(w, 4) != 0
            && byte_of(w, 3) != 0 && byte_of(w, 2) == 0 ==> (exact_zero_mask(w) >> 23u64) & 1 == 1
            && exact_zero_mask(w) >> 24u64 == 0,
        byte_of(w, 7) != 0 && byte_of(w, 6) != 0 && byte_of(w, 5) != 0 && byte_of(w, 4) != 0
            && byte_of(w, 3) != 0 && byte_of(w, 2) != 0 && byte_of(w, 1) == 0 ==> (exact_zero_mask(w)
            >> 15u64) & 1 == 1 && exact_zero_mask(w) >> 16u64 == 0,
        byte_of(w, 7) != 0 && byte_of(w, 6) != 0 && byte_of(w, 5) != 0 && byte_of(w, 4) != 0
            && byte_of(w, 3) != 0 && byte_of(w, 2) != 0 && byte_of(w, 1) != 0 && byte_of(w, 0) == 0
            ==> (exact_zero_mask(w) >> 7u64) & 1 == 1 && exact_zero_mask(w) >> 8u64 == 0,
{
}

/// The bytes of a word built from eight bytes, least significant first, and
/// of its XOR with a word of one repeated byte.
proof fn lemma_word_bytes(b0: u8, b1: u8, b2: u8, b3: u8, b4: u8, b5: u8, b6: u8, b7: u8, c: u8)
    by (bit_vector)
    ensures
        ({
            let w = (b0 as u64) | (b1 as u64) << 8 | (b2 as u64) << 16 | (b3 as u64) << 24 | (b4 as u64)
                << 32 | (b5 as u64) << 40 | (b6 as u64) << 48 | (b7 as u64) << 56;
            let r = (c as u64) | (c as u64) << 8 | (c as u64) << 16 | (c as u64) << 24 | (c as u64)
                << 32 | (c as u64) << 40 | (c as u64) << 48 | (c as u64) << 56;
            let x = w ^ r;
            &&& (byte_of(x, 0) == 0) == (b0 == c)
            &&& (byte_of(x, 1) == 0) == (b1 == c)
            &&& (byte_of(x, 2) == 0) == (b2 == c)
            &&& (byte_of(x, 3) == 0) == (b3 == c)
            &&& (byte_of(x, 4) == 0) == (b4 == c)
            &&& (byte_of(x, 5) == 0) == (b5 == c)
            &&& (byte_of(x, 6) == 0) == (b6 == c)
            &&& (byte_of(x, 7) == 0) == (b7 == c)
        }),
{
}

/// Reading off bits of a mask whose bits below `p` are clear and bit `p` set.
proof fn lemma_low_bits(m: u64, p: u64, j: u64)
    by (bit_vector)
    requires
        p < 64,
        j < p,
        m & ((1u64 << p) - 1) as u64 == 0,
    ensures
        (m >> j) & 1 == 0,
{
}

/// Reading off bits of a mask whose bits above `p` are clear.
proof fn lemma_high_bits(m: u64, p: u64, j: u64)
    by (bit_vector)
    requires
        p < 64,
        p < j < 64,
        m >> (p + 1) as u64 == 0,
    ensures
        (m >> j) & 1 == 0,
{
}

/// Small arithmetic on bit positions.
pub(crate) proof fn lemma_positions(k: u32)
    by (bit_vector)
    requires
        k < 8,
    ensures
        ((8 * k + 7) as u32) >> 3u32 == k,
        7 - (((56 - 8 * k) as u32) >> 3u32) == k,
{
}

/// Bit `p` set and all below clear: `p` is the number of trailing zeros.
proof fn lemma_trailing_zeros_at(m: u64, p: u64)
    requires
        p < 64,
        (m >> p) & 1 == 1,
        m & ((1u64 << p) - 1) as u64 == 0,
    ensures
        u64_trailing_zeros(m) == p,
{
    axiom_u64_trailing_zeros(m);
    let t = u64_trailing_zeros(m) as u64;
    if t < p {
        lemma_low_bits(m, p, t);
    } else if t > p {
        assert((m >> p) & 1u64 == 0u64);
    }
}

/// Bit `p` set and all above clear: `63 - p` is the number of leading zeros.
proof fn lemma_leading_zeros_at(m: u64, p: u64)
    requires
        p < 64,
        (m >> p) & 1 == 1,
        m >> (p + 1) as u64 == 0,
    ensures
        u64_leading_zeros(m) == 63 - p,
{
    axiom_u64_leading_zeros(m);
    let l = u64_leading_zeros(m);
    if l < 63 - p {
        let top = (63 - l) as u64;
        assert((m >> vstd::wrapping::u64_specs::wrapping_sub(63u64, l as u64)) & 1u64 != 0u64 ==> (m >> top) & 1u64 != 0u64) by {
            assert(vstd::wrapping::u64_specs::wrapping_sub(63u64, l as u64) == top);
        }
        lemma_high_bits(m, p, top);
    } else if l > 63 - p {
        assert((m >> p) & 1u64 == 0u64);
    }
}

// ---------------------------------------------------------------- positions

/// The least significant zero byte of `w`, or 8 when there is none.
pub open spec fn first_zero_byte(w: u64) -> u64 {
    if byte_of(w, 0) == 0 {
        0
    } else if byte_of(w, 1) == 0 {
        1
    } else if byte_of(w, 2) == 0 {
        2
    } else if byte_of(w, 3) == 0 {
        3
    } else if byte_of(w, 4) == 0 {
        4
    } else if byte_of(w, 5) == 0 {
        5
    } else if byte_of(w, 6) == 0 {
        6
    } else if byte_of(w, 7) == 0 {
        7
    } else {
        8
    }
}

/// The most significant zero byte of `w`, or 8 when there is none.
pub open spec fn last_zero_byte(w: u64) -> u64 {
    if byte_of(w, 7) == 0 {
        7
    } else if byte_of(w, 6) == 0 {
        6
    } else if byte_of(w, 5) == 0 {
        5
    } else if byte_of(w, 4) == 0 {
        4
    } else if byte_of(w, 3) == 0 {
        3
    } else if byte_of(w, 2) == 0 {
        2
    } else if byte_of(w, 1) == 0 {
        1
    } else if byte_of(w, 0) == 0 {
        0
    } else {
        8
    }
}

/// The first zero byte's high bit is the lowest set bit of the classic mask.
pub(crate) proof fn lemma_first_zero(w: u64)
    requires
        zero_byte_mask(w) != 0,
    ensures
        first_zero_byte(w) < 8,
        u64_trailing_zeros(zero_byte_mask(w)) == 8 * first_zero_byte(w) + 7,
{
    lemma_mask_empty(w);
    lemma_classic_lowest(w);
    let k = first_zero_byte(w);
    lemma_trailing_zeros_at(zero_byte_mask(w), (8 * k + 7) as u64);
}

/// The last zero byte's high bit is the highest set bit of the exact mask.
proof fn lemma_last_zero(w: u64)
    requires
        exact_zero_mask(w) != 0,
    ensures
        last_zero_byte(w) < 8,
        u64_leading_zeros(exact_zero_mask(w)) == 56 - 8 * last_zero_byte(w),
{
    lemma_mask_empty(w);
    lemma_exact_highest(w);
    let k = last_zero_byte(w);
    lemma_leading_zeros_at(exact_zero_mask(w), (8 * k + 7) as u64);
}

/// The classic zero-byte mask of `x`, as the hardware computes it.
pub(crate) fn classic_mask(x: u64) -> (res: u64)
    ensures
        res == zero_byte_mask(x),
{
    x.wrapping_sub(LO_U64) & !x & HI_U64
}

/// Returns the index (0..=7) of the least significant zero byte of a word
/// that has one: the classic zero-byte mask is taken and its trailing zeros
/// divided by eight.
pub fn find_zero_byte_u64(x: u64) -> (res: usize)
    requires
        has_zero_byte(x),
    ensures
        res as u64 == first_zero_byte(x),
        res < 8,
{
    let zero_bit = classic_mask(x);
    proof {
        lemma_mask_empty(x);
        let k = choose|k: u64| k < 8 && #[trigger] byte_of(x, k) == 0;
        assert(k == 0 || k == 1 || k == 2 || k == 3 || k == 4 || k == 5 || k == 6 || k == 7);
        lemma_first_zero(x);
        lemma_positions(first_zero_byte(x) as u32);
    }
    (zero_bit.trailing_zeros() >> 3) as usize
}

/// The word whose bytes, least significant first, are those of `b`.
pub(crate) fn word_from_bytes(b: [u8; 8]) -> (res: u64)
    ensures
        res == word_of(b@),
{
    (b[0] as u64) | (b[1] as u64) << 8 | (b[2] as u64) << 16 | (b[3] as u64) << 24 | (b[4] as u64)
        << 32 | (b[5] as u64) << 40 | (b[6] as u64) << 48 | (b[7] as u64) << 56
}

/// The word with `c` in every byte.
pub open spec fn repeated(c: u8) -> u64 {
    (c as u64) | (c as u64) << 8 | (c as u64) << 16 | (c as u64) << 24 | (c as u64) << 32 | (c as u64)
        << 40 | (c as u64) << 48 | (c as u64) << 56
}

/// The word with `c` in every byte.
fn repeat_u64(c: u8) -> (res: u64)
    ensures
        res == repeated(c),
{
    (c as u64) | (c as u64) << 8 | (c as u64) << 16 | (c as u64) << 24 | (c as u64) << 32 | (c as u64)
        << 40 | (c as u64) << 48 | (c as u64) << 56
}

/// The zero bytes of `word_of(b) ^ repeat(c)` are the positions of `c` in `b`.
proof fn lemma_xor_positions(b: Seq<u8>, c: u8)
    requires
        b.len() == 8,
    ensures
        forall|k: u64|
            k < 8 ==> (#[trigger] byte_of(word_of(b) ^ repeated(c), k) == 0) == (b[k as int] == c),
{
    lemma_word_bytes(b[0], b[1], b[2], b[3], b[4], b[5], b[6], b[7], c);
    assert forall|k: u64| k < 8 implies (#[trigger] byte_of(word_of(b) ^ repeated(c), k) == 0) == (
    b[k as int] == c) by {
        assert(k == 0 || k == 1 || k == 2 || k == 3 || k == 4 || k == 5 || k == 6 || k == 7);
    }
}

/// Finds the first occurrence of a byte in an eight-byte word: the word is
/// XORed with the byte repeated, so that matching bytes become zero, and the
/// first zero byte is located with the classic mask.
pub fn find_char_in_word(c: u8, str: [u8; 8]) -> (res: Option<usize>)
    ensures
        first_index_of(str@, c, res),
{
    let char_array = word_from_bytes(str);
    let xor_result = char_array ^ repeat_u64(c);
    let matches = classic_mask(xor_result);
    proof {
        lemma_xor_positions(str@, c);
        lemma_mask_empty(xor_result);
    }
    if matches != 0 {
        proof {
            lemma_first_zero(xor_result);
            let k = first_zero_byte(xor_result);
            lemma_positions(k as u32);
            assert(byte_of(xor_result, k) == 0);
            assert forall|j: int| 0 <= j < k implies #[trigger] str@[j] != c by {
                assert(byte_of(xor_result, j as u64) != 0);
            }
        }
        Some((matches.trailing_zeros() >> 3) as usize)
    } else {
        proof {
            assert forall|j: int| 0 <= j < str@.len() implies #[trigger] str@[j] != c by {
                assert(byte_of(xor_result, j as u64) != 0);
            }
        }
        None
    }
}

/// The exact zero-byte mask of `x`: the classic mask with the borrow false
/// positives (bytes `0x01` above a zero byte) cleared, `None` when empty.
fn contains_zero_byte_borrow_fix(input: u64) -> (res: Option<u64>)
    ensures
        match res {
            Some(m) => m != 0 && m == exact_zero_mask(input),
            None => exact_zero_mask(input) == 0,
        },
{
    let mut classic = classic_mask(input);
    proof {
        lemma_mask_empty(input);
    }
    if classic == 0 {
        return None;
    }
    classic = classic & (!input << 7);
    Some(classic)
}

/// Finds the last occurrence of a byte in an eight-byte word: after the XOR
/// with the byte repeated, the exact zero-byte mask is taken and its leading
/// zeros give the last match.
pub fn find_last_char_in_word(c: u8, str: [u8; 8]) -> (res: Option<usize>)
    ensures
        last_index_of(str@, c, res),
{
    let upper_or_lower = word_from_bytes(str) ^ repeat_u64(c);
    proof {
        lemma_xor_positions(str@, c);
        lemma_mask_empty(upper_or_lower);
    }
    match contains_zero_byte_borrow_fix(upper_or_lower) {
        Some(num) => {
            proof {
                lemma_last_zero(upper_or_lower);
                let k = last_zero_byte(upper_or_lower);
                lemma_positions(k as u32);
                assert(byte_of(upper_or_lower, k) == 0);
                assert forall|j: int| k < j < 8 implies #[trigger] str@[j] != c by {
                    assert(byte_of(upper_or_lower, j as u64) != 0);
                }
            }
            Some(7 - (num.leading_zeros() >> 3) as usize)
        },
        None => {
            proof {
                assert forall|j: int| 0 <= j < str@.len() implies #[trigger] str@[j] != c by {
                    assert(byte_of(upper_or_lower, j as u64) != 0);
                }
            }
            None
        },
    }
}

/// Some byte of `x` is zero, among the `usize::BITS / 8` bytes of a `usize`.
pub open spec fn usize_has_zero_byte(x: usize) -> bool {
    exists|k: u64| k < (usize::BITS / 8) as u64 && #[trigger] byte_of(x as u64, k) == 0
}

/// Bytes above the fourth of a word filled with `0xff`.
proof fn lemma_pad_high(w: u64)
    by (bit_vector)
    requires
        w < 0x1_0000_0000,
    ensures
        byte_of(w | 0xffff_ffff_0000_0000u64, 0) == byte_of(w, 0),
        byte_of(w | 0xffff_ffff_0000_0000u64, 1) == byte_of(w, 1),
        byte_of(w | 0xffff_ffff_0000_0000u64, 2) == byte_of(w, 2),
        byte_of(w | 0xffff_ffff_0000_0000u64, 3) == byte_of(w, 3),
        byte_of(w | 0xffff_ffff_0000_0000u64, 4) != 0,
        byte_of(w | 0xffff_ffff_0000_0000u64, 5) != 0,
        byte_of(w | 0xffff_ffff_0000_0000u64, 6) != 0,
        byte_of(w | 0xffff_ffff_0000_0000u64, 7) != 0,
{
}

/// Returns `true` if `x` contains any zero byte: one is subtracted from each
/// byte and the bytes where the borrow reached the most significant bit are
/// looked for.
pub fn contains_zero_byte(x: usize) -> (res: bool)
    ensures
        res == usize_has_zero_byte(x),
{
    if usize::BITS == 64 {
        let w = x as u64;
        proof {
            lemma_mask_empty(w);
            if zero_byte_mask(w) != 0 {
                let k = first_zero_byte(w);
                assert(byte_of(w, k) == 0);
            }
        }
        classic_mask(w) != 0
    } else {
        let w = x as u64;
        let padded = w | 0xffff_ffff_0000_0000u64;
        proof {
            lemma_pad_high(w);
            lemma_mask_empty(padded);
            if zero_byte_mask(padded) != 0 {
                let k = first_zero_byte(padded);
                assert(byte_of(w, k) == 0);
            } else {
                assert forall|k: u64| k < 4 implies #[trigger] byte_of(w, k) != 0 by {
                    assert(k == 0 || k == 1 || k == 2 || k == 3);
                }
            }
        }
        classic_mask(padded) != 0
    }
}

/// The eight bytes of `text` from `offset`.
pub(crate) fn load_word(text: &[u8], offset: usize) -> (res: [u8; 8])
    requires
        offset + 8 <= text.len(),
    ensures
        res@ == text@.subrange(offset as int, offset + 8),
{
    let res = [
        text[offset],
        text[offset + 1],
        text[offset + 2],
        text[offset + 3],
        text[offset + 4],
        text[offset + 5],
        text[offset + 6],
        text[offset + 7],
    ];
    assert(res@ =~= text@.subrange(offset as int, offset + 8));
    res
}

/// Looks for `x` in the word of `text` at `offset`.
fn check_word(text: &[u8], offset: usize, x: u8) -> (res: Option<usize>)
    requires
        offset + 8 <= text.len(),
    ensures
        match res {
            Some(i) => offset <= i < offset + 8 && is_last_index(text@.take(offset + 8), x, i as int),
            None => forall|j: int| offset <= j < offset + 8 ==> #[trigger] text@[j] != x,
        },
{
    let word = load_word(text, offset);
    match find_last_char_in_word(x, word) {
        Some(pos) => {
            assert forall|j: int| pos + offset < j < offset + 8 implies #[trigger] text@.take(
                offset + 8,
            )[j] != x by {
                assert(word@[j - offset] == text@[j]);
            }
            assert(word@[pos as int] == text@[offset + pos]);
            Some(offset + pos)
        },
        None => {
            assert forall|j: int| offset <= j < offset + 8 implies #[trigger] text@[j] != x by {
                assert(word@[j - offset] == text@[j]);
            }
            None
        },
    }
}

/// Returns the last index matching the byte `x` in `text`. The tail past the
/// last whole pair of words is scanned byte by byte; the rest is scanned two
/// words at a time from the end, each word with the exact zero-byte mask.
pub fn memrchr(x: u8, text: &[u8]) -> (res: Option<usize>)
    ensures
        last_index_of(text@, x, res),
{
    let slen = text.len();
    let aligned_end = slen - slen % 16;
    let mut i = slen;
    while i > aligned_end
        invariant
            aligned_end <= i <= slen,
            slen == text.len(),
            forall|j: int| i <= j < slen ==> #[trigger] text@[j] != x,
        decreases i,
    {
        i = i - 1;
        if text[i] == x {
            return Some(i);
        }
    }
    let mut offset = aligned_end;
    while offset > 0
        invariant
            offset <= aligned_end <= slen,
            slen == text.len(),
            offset % 16 == 0,
            forall|j: int| offset <= j < slen ==> #[trigger] text@[j] != x,
        decreases offset,
    {
        offset = offset - 8;
        if let Some(found) = check_word(text, offset, x) {
            assert forall|j: int| found < j < slen implies #[trigger] text@[j] != x by {
                if j < offset + 8 {
                    assert(text@.take(offset + 8)[j] == text@[j]);
                }
            }
            return Some(found);
        }
        offset = offset - 8;
        if let Some(found) = check_word(text, offset, x) {
            assert forall|j: int| found < j < slen implies #[trigger] text@[j] != x by {
                if j < offset + 8 {
                    assert(text@.take(offset + 8)[j] == text@[j]);
                }
            }
            return Some(found);
        }
    }
    None
}

} // verus!
