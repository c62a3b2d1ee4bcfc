//! Assembly and disassembly of the 32-bit code word that carries one 2x2
//! block.
//!
//! The word packs six integer fields at fixed positions: the average-luma
//! coefficient `a` (9 unsigned bits at bit 23), the three difference
//! coefficients `b`, `c`, `d` (5 two's-complement bits each at bits 18, 13
//! and 8), and the two chroma table indices `pb`, `pr` (4 unsigned bits each
//! at bits 4 and 0).  This layout is the on-disk format.

use vstd::prelude::*;

use crate::bitpack;
use crate::bitpack::{
    fits_signed, low_bits_i64, max_unsigned, replace_field, shift_left_u64, signed_field,
    unsigned_field,
};

verus! {

/// The 32-bit code word holding the quantized fields `a`, `b`, `c`, `d`,
/// `pb`, `pr` at their wire positions.
pub open spec fn packed_word(a: u64, b: i64, c: i64, d: i64, pb: u64, pr: u64) -> u64 {
    shift_left_u64(a, 23) | shift_left_u64(low_bits_i64(b, 5), 18) | shift_left_u64(
        low_bits_i64(c, 5),
        13,
    ) | shift_left_u64(low_bits_i64(d, 5), 8) | shift_left_u64(pb, 4) | shift_left_u64(pr, 0)
}

proof fn lemma_construct_stages(a: u64, b: i64, c: i64, d: i64, pb: u64, pr: u64)
    by (bit_vector)
    requires
        a <= 511,
        -16 <= b <= 15,
        -16 <= c <= 15,
        -16 <= d <= 15,
        pb <= 15,
        pr <= 15,
    ensures
        a <= max_unsigned(9),
        pb <= max_unsigned(4),
        pr <= max_unsigned(4),
        fits_signed(b, 5),
        fits_signed(c, 5),
        fits_signed(d, 5),
        replace_field(
            replace_field(
                replace_field(
                    replace_field(
                        replace_field(replace_field(0u64, 9, 23, a), 5, 18, low_bits_i64(b, 5)),
                        5,
                        13,
                        low_bits_i64(c, 5),
                    ),
                    5,
                    8,
                    low_bits_i64(d, 5),
                ),
                4,
                4,
                pb,
            ),
            4,
            0,
            pr,
        ) == packed_word(a, b, c, d, pb, pr),
        packed_word(a, b, c, d, pb, pr) <= 0xffff_ffffu64,
{
}

/// Packs the six quantized fields of one block into its 32-bit code word.
pub fn construct_word(a: u64, b: i64, c: i64, d: i64, pb: u64, pr: u64) -> (word: u32)
    requires
        a <= 511,
        -16 <= b <= 15,
        -16 <= c <= 15,
        -16 <= d <= 15,
        pb <= 15,
        pr <= 15,
    ensures
        word == packed_word(a, b, c, d, pb, pr),
{
    proof {
        lemma_construct_stages(a, b, c, d, pb, pr);
    }
    let mut word: u64 = 0;
    word = bitpack::newu(word, 9, 23, a).unwrap();
    word = bitpack::news(word, 5, 18, b).unwrap();
    word = bitpack::news(word, 5, 13, c).unwrap();
    word = bitpack::news(word, 5, 8, d).unwrap();
    word = bitpack::newu(word, 4, 4, pb).unwrap();
    word = bitpack::newu(word, 4, 0, pr).unwrap();
    #[verifier::truncate] (word as u32)
}

/// The six quantized fields carried by a 32-bit code word, read back out of
/// their wire positions.
pub open spec fn parsed_block(word: u32) -> (u64, i64, i64, i64, u64, u64) {
    (
        unsigned_field(word as u64, 9, 23),
        signed_field(word as u64, 5, 18),
        signed_field(word as u64, 5, 13),
        signed_field(word as u64, 5, 8),
        unsigned_field(word as u64, 4, 4),
        unsigned_field(word as u64, 4, 0),
    )
}

/// Whether a field sextuple lies in the ranges that one code word can hold:
/// 9 unsigned bits for `a`, 5 signed bits for `b`, `c`, `d`, and 4 unsigned
/// bits for `pb`, `pr`.
pub open spec fn block_in_range(q: (u64, i64, i64, i64, u64, u64)) -> bool {
    q.0 <= 511 && -16 <= q.1 <= 15 && -16 <= q.2 <= 15 && -16 <= q.3 <= 15 && q.4 <= 15 && q.5
        <= 15
}

proof fn lemma_field_ranges(word: u64)
    by (bit_vector)
    ensures
        unsigned_field(word, 9, 23) <= 511,
        -16 <= signed_field(word, 5, 18) <= 15,
        -16 <= signed_field(word, 5, 13) <= 15,
        -16 <= signed_field(word, 5, 8) <= 15,
        unsigned_field(word, 4, 4) <= 15,
        unsigned_field(word, 4, 0) <= 15,
{
}

/// Unpacks a 32-bit code word into the six quantized fields
/// `(a, b, c, d, pb, pr)` of the block it carries.  Each field comes back in
/// the range that [`construct_word`] accepts.
pub fn parse_word(word: u32) -> (fields: (u64, i64, i64, i64, u64, u64))
    ensures
        fields == parsed_block(word),
        block_in_range(fields),
{
    let w: u64 = word as u64;
    proof {
        lemma_field_ranges(w);
    }
    let a: u64 = bitpack::getu(w, 9, 23);
    let b: i64 = bitpack::gets(w, 5, 18);
    let c: i64 = bitpack::gets(w, 5, 13);
    let d: i64 = bitpack::gets(w, 5, 8);
    let pb: u64 = bitpack::getu(w, 4, 4);
    let pr: u64 = bitpack::getu(w, 4, 0);
    (a, b, c, d, pb, pr)
}

/// Re-packing the six fields parsed out of any 32-bit code word yields that
/// word again: every bit of the word is covered by exactly one field.
pub proof fn lemma_parse_then_construct(word: u32)
    by (bit_vector)
    ensures
        packed_word(
            unsigned_field(word as u64, 9, 23),
            signed_field(word as u64, 5, 18),
            signed_field(word as u64, 5, 13),
            signed_field(word as u64, 5, 8),
            unsigned_field(word as u64, 4, 4),
            unsigned_field(word as u64, 4, 0),
        ) == word,
{
}

/// Parsing the code word built from any in-range field sextuple yields the
/// sextuple again: the fields do not overlap and survive packing exactly.
pub proof fn lemma_construct_then_parse(a: u64, b: i64, c: i64, d: i64, pb: u64, pr: u64)
    by (bit_vector)
    requires
        a <= 511,
        -16 <= b <= 15,
        -16 <= c <= 15,
        -16 <= d <= 15,
        pb <= 15,
        pr <= 15,
    ensures
        unsigned_field(packed_word(a, b, c, d, pb, pr), 9, 23) == a,
        signed_field(packed_word(a, b, c, d, pb, pr), 5, 18) == b,
        signed_field(packed_word(a, b, c, d, pb, pr), 5, 13) == c,
        signed_field(packed_word(a, b, c, d, pb, pr), 5, 8) == d,
        unsigned_field(packed_word(a, b, c, d, pb, pr), 4, 4) == pb,
        unsigned_field(packed_word(a, b, c, d, pb, pr), 4, 0) == pr,
{
}

} // verus!
