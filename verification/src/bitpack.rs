//! Safe signed and unsigned bitfield extraction and insertion on 64-bit
//! words.
//!
//! Every operation is total: a shift by 64 or more yields zero instead of
//! invoking undefined behavior, and the insertion operations report failure
//! as `None` rather than panicking.

use vstd::prelude::*;

verus! {

/// Largest unsigned value representable in `width` bits: zero for width 0,
/// `2^width - 1` up to width 63, and all ones from width 64 on.
pub open spec fn max_unsigned(width: u64) -> u64 {
    if width >= 64 {
        0xffff_ffff_ffff_ffffu64
    } else {
        (((1u64 << width) - 1) as u64)
    }
}

/// Largest positive value representable in `width` two's-complement bits:
/// zero for width 0, `2^(width-1) - 1` up to width 62, and the largest
/// 64-bit signed value from width 63 on.
pub open spec fn max_signed(width: u64) -> i64 {
    if width == 0 {
        0i64
    } else if width <= 62 {
        (((1i64 << ((width - 1) as u64)) - 1) as i64)
    } else {
        0x7fff_ffff_ffff_ffffi64
    }
}

/// `n << amount`, cut off to zero once the shift leaves the 64-bit word.
pub open spec fn shift_left_u64(n: u64, amount: u64) -> u64 {
    if amount >= 64 {
        0u64
    } else {
        n << amount
    }
}

/// Signed `n << amount`, cut off to zero once the shift leaves the word.
pub open spec fn shift_left_i64(n: i64, amount: u64) -> i64 {
    if amount >= 64 {
        0i64
    } else {
        n << amount
    }
}

/// `n >> amount`, cut off to zero once the shift leaves the 64-bit word.
pub open spec fn shift_right_u64(n: u64, amount: u64) -> u64 {
    if amount >= 64 {
        0u64
    } else {
        n >> amount
    }
}

/// Arithmetic `n >> amount`, cut off to zero once the shift leaves the word.
pub open spec fn shift_right_i64(n: i64, amount: u64) -> i64 {
    if amount >= 64 {
        0i64
    } else {
        n >> amount
    }
}

/// Whether the signed value `n` fits in `width` two's-complement bits: a
/// non-negative value must stay at or under `max_signed(width)`, a negative
/// one at or above its bitwise complement (the negative bound).
pub open spec fn fits_signed(n: i64, width: u64) -> bool {
    if n >= 0 {
        n <= max_signed(width)
    } else {
        n >= !max_signed(width)
    }
}

/// The `width`-bit unsigned field of `word` whose least significant bit sits
/// at position `lsb`.
pub open spec fn unsigned_field(word: u64, width: u64, lsb: u64) -> u64 {
    shift_right_u64(word, lsb) & max_unsigned(width)
}

/// `n`, taken as a `width`-bit two's-complement value and extended to 64
/// bits.  Only the low `width` bits of `n` matter when `n` is a field read
/// out of a word.
pub open spec fn sign_extend(n: u64, width: u64) -> i64 {
    if width == 0 {
        0i64
    } else if width >= 64 {
        (n as i64)
    } else if n & shift_left_u64(1u64, (width - 1) as u64) == 0 {
        (n as i64)
    } else {
        ((n | shift_left_u64(0xffff_ffff_ffff_ffffu64, width)) as i64)
    }
}

/// The `width`-bit field of `word` at `lsb`, read as a signed value.
pub open spec fn signed_field(word: u64, width: u64, lsb: u64) -> i64 {
    sign_extend(unsigned_field(word, width, lsb), width)
}

/// The low `width` bits of the signed value `n`, as an unsigned word.
pub open spec fn low_bits_i64(n: i64, width: u64) -> u64 {
    (n as u64) & max_unsigned(width)
}

/// `word` with its `width`-bit field at `lsb` overwritten by `value`: the
/// field is cleared and the shifted value OR-ed in.
pub open spec fn replace_field(word: u64, width: u64, lsb: u64, value: u64) -> u64 {
    (word & !shift_left_u64(max_unsigned(width), lsb)) | shift_left_u64(value, lsb)
}

/// Returns the largest unsigned value that fits in `width` bits.
pub fn maxu(width: u64) -> (r: u64)
    ensures
        r == max_unsigned(width),
{
    if width == 0 {
        proof {
            assert(max_unsigned(width) == 0) by (bit_vector)
                requires
                    width == 0,
            ;
        }
        0
    } else if width <= 63 {
        proof {
            assert(1u64 << width >= 1) by (bit_vector)
                requires
                    1 <= width <= 63,
            ;
        }
        (1u64 << width) - 1
    } else {
        u64::MAX
    }
}

/// Returns the largest positive signed value that fits in `width`
/// two's-complement bits.
pub fn maxs(width: u64) -> (r: i64)
    ensures
        r == max_signed(width),
{
    if width == 0 {
        0
    } else if width <= 62 {
        let shifted: i64 = 1i64 << (width - 1);
        proof {
            assert(1i64 << ((width - 1) as u64) >= 1) by (bit_vector)
                requires
                    1 <= width <= 62,
            ;
        }
        shifted - 1
    } else {
        i64::MAX
    }
}

/// Shifts the unsigned value `n` left by `lsb` bits; zero once the shift
/// reaches the word width.
pub fn shlu(n: u64, lsb: u64) -> (r: u64)
    ensures
        r == shift_left_u64(n, lsb),
        lsb >= 64 ==> r == 0,
{
    if lsb >= 64 {
        0
    } else {
        n << lsb
    }
}

/// Shifts the signed value `n` left by `lsb` bits; zero once the shift
/// reaches the word width.
pub fn shls(n: i64, lsb: u64) -> (r: i64)
    ensures
        r == shift_left_i64(n, lsb),
        lsb >= 64 ==> r == 0,
{
    if lsb >= 64 {
        0
    } else {
        n << lsb
    }
}

/// Shifts the unsigned value `n` right by `lsb` bits; zero once the shift
/// reaches the word width.
pub fn shru(n: u64, lsb: u64) -> (r: u64)
    ensures
        r == shift_right_u64(n, lsb),
        lsb >= 64 ==> r == 0,
{
    if lsb >= 64 {
        0
    } else {
        n >> lsb
    }
}

/// Shifts the signed value `n` right by `lsb` bits, arithmetically; zero
/// once the shift reaches the word width.
pub fn shrs(n: i64, lsb: u64) -> (r: i64)
    ensures
        r == shift_right_i64(n, lsb),
        lsb >= 64 ==> r == 0,
{
    if lsb >= 64 {
        0
    } else {
        n >> lsb
    }
}

/// Returns true iff the unsigned value `n` fits in `width` unsigned bits.
pub fn fitsu(n: u64, width: u64) -> (r: bool)
    ensures
        r == (n <= max_unsigned(width)),
{
    n <= maxu(width)
}

/// Returns true iff the signed value `n` fits in `width` two's-complement
/// bits.
pub fn fitss(n: i64, width: u64) -> (r: bool)
    ensures
        r == fits_signed(n, width),
{
    if n >= 0 {
        n <= maxs(width)
    } else {
        n >= !maxs(width)
    }
}

proof fn lemma_getu(word: u64, width: u64, lsb: u64)
    by (bit_vector)
    requires
        width + lsb <= 64,
    ensures
        shift_right_u64(word & shift_left_u64(max_unsigned(width), lsb), lsb) == unsigned_field(
            word,
            width,
            lsb,
        ),
{
}

/// Retrieves the unsigned value held by the `width` bits of `word` that
/// begin at least-significant bit `lsb`.
pub fn getu(word: u64, width: u64, lsb: u64) -> (r: u64)
    requires
        width + lsb <= 64,
    ensures
        r == unsigned_field(word, width, lsb),
{
    let mask: u64 = shlu(maxu(width), lsb);
    let isolated_val: u64 = word & mask;
    proof {
        lemma_getu(word, width, lsb);
    }
    shru(isolated_val, lsb)
}

#[verifier::rlimit(100)]
proof fn lemma_gets(word: u64, width: u64, lsb: u64)
    by (bit_vector)
    requires
        width + lsb <= 64,
    ensures
        shift_right_i64(
            shift_left_i64(
                ((word & shift_left_u64(max_unsigned(width), lsb)) as i64),
                (64 - (width + lsb)) as u64,
            ),
            (64 - width) as u64,
        ) == signed_field(word, width, lsb),
{
}

/// Retrieves the signed value held by the `width` bits of `word` that begin
/// at least-significant bit `lsb`, sign-extended to 64 bits.
pub fn gets(word: u64, width: u64, lsb: u64) -> (r: i64)
    requires
        width + lsb <= 64,
    ensures
        r == signed_field(word, width, lsb),
{
    let mask: u64 = shlu(maxu(width), lsb);
    let isolated_val: i64 = #[verifier::truncate] ((word & mask) as i64);
    let signed_val: i64 = shls(isolated_val, 64 - (width + lsb));
    proof {
        lemma_gets(word, width, lsb);
    }
    shrs(signed_val, 64 - width)
}

/// Returns `word` with the `width` bits beginning at least-significant bit
/// `lsb` overwritten by the unsigned `value`: the target field is cleared
/// and the shifted value OR-ed in.  Fails with `None` exactly when the
/// value does not fit in `width` bits or the field runs past the word.
pub fn newu(word: u64, width: u64, lsb: u64, value: u64) -> (r: Option<u64>)
    ensures
        r is Some <==> value <= max_unsigned(width) && width + lsb <= 64,
        r is Some ==> r == Some(replace_field(word, width, lsb, value)),
{
    if !fitsu(value, width) || width > 64 || lsb > 64 - width {
        None
    } else {
        let mask: u64 = shlu(maxu(width), lsb);
        let cleaned_word: u64 = word & !mask;
        let moved_val: u64 = shlu(value, lsb);
        Some(cleaned_word | moved_val)
    }
}

/// Returns `word` with the `width` bits beginning at least-significant bit
/// `lsb` overwritten by the two's-complement representation of the signed
/// `value`.  Fails with `None` exactly when the value does not fit in
/// `width` signed bits or the field runs past the word.
pub fn news(word: u64, width: u64, lsb: u64, value: i64) -> (r: Option<u64>)
    ensures
        r is Some <==> fits_signed(value, width) && width + lsb <= 64,
        r is Some ==> r == Some(replace_field(word, width, lsb, low_bits_i64(value, width))),
{
    if !fitss(value, width) || width > 64 || lsb > 64 - width {
        None
    } else {
        let mask: u64 = shlu(maxu(width), lsb);
        let cleaned_word: u64 = word & !mask;
        let stripped_val: u64 = (#[verifier::truncate] (value as u64)) & maxu(width);
        let moved_val: u64 = shlu(stripped_val, lsb);
        Some(cleaned_word | moved_val)
    }
}

} // verus!
