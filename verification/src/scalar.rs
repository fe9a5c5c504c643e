//! IEEE 754 binary32 numbers, held by their bit patterns.
//!
//! Bit 31 is the sign, bits 30 to 23 the biased exponent, bits 22 to 0 the
//! fraction. The predicates below are stated over these three fields and
//! computed with masks. What number a finite pattern stands for is given by
//! [`value`], as a whole number of steps of 2^-149; the laws at the end tie
//! the predicates to it.

use vstd::arithmetic::power2::{
    lemma2_to64, lemma_pow2_adds, lemma_pow2_pos, lemma_pow2_strictly_increases, lemma_pow2_unfold,
    pow2,
};
use vstd::prelude::*;

verus! {

/// The bit pattern of `0.01`.
pub const DEFAULT_TOLERANCE: u32 = 0x3C23_D70A;

/// The bit pattern of `4.0`.
pub const DEFAULT_MITER_LIMIT: u32 = 0x4080_0000;

/// The sign bit: 1 for a negative pattern, 0 otherwise.
pub open spec fn sign_field(bits: u32) -> int {
    bits as int / 0x8000_0000
}

/// The biased exponent, in `0..=255`.
pub open spec fn exponent_field(bits: u32) -> int {
    (bits as int / 0x80_0000) % 0x100
}

/// The fraction, in `0..2^23`.
pub open spec fn fraction_field(bits: u32) -> int {
    bits as int % 0x80_0000
}

/// The size of the number that a finite pattern stands for, counted in units
/// of 2^-149, the smallest step between binary32 numbers.
pub open spec fn magnitude(bits: u32) -> int {
    if exponent_field(bits) == 0 {
        fraction_field(bits)
    } else {
        (0x80_0000 + fraction_field(bits)) * pow2((exponent_field(bits) - 1) as nat)
    }
}

/// The number that a finite pattern stands for, counted in units of 2^-149.
pub open spec fn value(bits: u32) -> int {
    if sign_field(bits) == 1 {
        -magnitude(bits)
    } else {
        magnitude(bits)
    }
}

/// Neither an infinity nor a NaN.
pub open spec fn is_finite(bits: u32) -> bool {
    exponent_field(bits) != 0xFF
}

/// A NaN, of either sign.
pub open spec fn is_nan(bits: u32) -> bool {
    exponent_field(bits) == 0xFF && fraction_field(bits) != 0
}

/// Positive or negative zero.
pub open spec fn is_zero(bits: u32) -> bool {
    exponent_field(bits) == 0 && fraction_field(bits) == 0
}

/// The number is zero or below zero. A NaN is neither.
pub open spec fn is_non_positive(bits: u32) -> bool {
    is_zero(bits) || (sign_field(bits) == 1 && !is_nan(bits))
}

/// The two patterns stand for the same number: they are equal, or both are a
/// zero. On patterns that are not NaN this is numeric equality.
pub open spec fn is_same_number(a: u32, b: u32) -> bool {
    a == b || (is_zero(a) && is_zero(b))
}

/// Whether `bits` is neither an infinity nor a NaN.
pub fn finite(bits: u32) -> (r: bool)
    ensures
        r == is_finite(bits),
{
    assert((bits & 0x7F80_0000 != 0x7F80_0000) == ((bits / 0x80_0000) % 0x100 != 0xFF))
        by (bit_vector);
    bits & 0x7F80_0000 != 0x7F80_0000
}

/// Whether `bits` is a zero of either sign.
pub fn zero(bits: u32) -> (r: bool)
    ensures
        r == is_zero(bits),
{
    assert((bits & 0x7FFF_FFFF == 0) == ((bits / 0x80_0000) % 0x100 == 0 && bits % 0x80_0000
        == 0)) by (bit_vector);
    bits & 0x7FFF_FFFF == 0
}

/// Whether the number is zero or below zero.
pub fn non_positive(bits: u32) -> (r: bool)
    ensures
        r == is_non_positive(bits),
{
    assert((bits & 0x7FFF_FFFF == 0 || (bits >= 0x8000_0000 && bits & 0x7FFF_FFFF
        <= 0x7F80_0000)) == (((bits / 0x80_0000) % 0x100 == 0 && bits % 0x80_0000 == 0) || (bits
        / 0x8000_0000 == 1 && !((bits / 0x80_0000) % 0x100 == 0xFF && bits % 0x80_0000 != 0))))
        by (bit_vector);
    bits & 0x7FFF_FFFF == 0 || (bits >= 0x8000_0000 && bits & 0x7FFF_FFFF <= 0x7F80_0000)
}

/// Whether the two patterns stand for the same number.
pub fn same_number(a: u32, b: u32) -> (r: bool)
    ensures
        r == is_same_number(a, b),
{
    a == b || (zero(a) && zero(b))
}

/// A pattern is made of its three fields.
pub proof fn lemma_fields_make_the_pattern(bits: u32)
    ensures
        bits == sign_field(bits) * 0x8000_0000 + exponent_field(bits) * 0x80_0000 + fraction_field(
            bits,
        ),
        0 <= sign_field(bits) <= 1,
        0 <= exponent_field(bits) <= 0xFF,
        0 <= fraction_field(bits) < 0x80_0000,
{
}

/// The size of a number lies between the bounds that its exponent sets.
pub proof fn lemma_magnitude_bounds(bits: u32)
    ensures
        exponent_field(bits) == 0 ==> 0 <= magnitude(bits) < 0x80_0000,
        exponent_field(bits) > 0 ==> 0x80_0000 * pow2((exponent_field(bits) - 1) as nat)
            <= magnitude(bits) < 0x80_0000 * pow2(exponent_field(bits) as nat),
{
    let e = exponent_field(bits);
    let f = fraction_field(bits);
    if e > 0 {
        let p = pow2((e - 1) as nat) as int;
        lemma_pow2_pos((e - 1) as nat);
        lemma_pow2_unfold(e as nat);
        assert(0x80_0000 * p <= (0x80_0000 + f) * p < 0x80_0000 * (2 * p)) by (nonlinear_arith)
            requires
                0 <= f < 0x80_0000,
                p > 0,
        ;
    }
}

/// Two patterns of numbers of the same size differ in their sign at most.
pub proof fn lemma_magnitude_tells_sizes_apart(a: u32, b: u32)
    requires
        magnitude(a) == magnitude(b),
    ensures
        exponent_field(a) == exponent_field(b),
        fraction_field(a) == fraction_field(b),
{
    let ea = exponent_field(a);
    let eb = exponent_field(b);
    lemma_magnitude_bounds(a);
    lemma_magnitude_bounds(b);
    if ea == eb {
        if ea > 0 {
            let p = pow2((ea - 1) as nat) as int;
            let fa = fraction_field(a);
            let fb = fraction_field(b);
            lemma_pow2_pos((ea - 1) as nat);
            assert(fa == fb) by (nonlinear_arith)
                requires
                    (0x80_0000 + fa) * p == (0x80_0000 + fb) * p,
                    p > 0,
            ;
        }
    } else if ea < eb {
        lemma_sizes_grow_with_the_exponent(ea, eb);
    } else {
        lemma_sizes_grow_with_the_exponent(eb, ea);
    }
}

proof fn lemma_sizes_grow_with_the_exponent(low: int, high: int)
    requires
        0 <= low < high,
    ensures
        low == 0 ==> 0x80_0000 <= 0x80_0000 * pow2((high - 1) as nat),
        low > 0 ==> 0x80_0000 * pow2(low as nat) <= 0x80_0000 * pow2((high - 1) as nat),
{
    lemma_pow2_pos((high - 1) as nat);
    if low < high - 1 {
        lemma_pow2_strictly_increases(low as nat, (high - 1) as nat);
    }
}

/// On finite patterns, to be a zero is to stand for the number zero.
pub proof fn lemma_zero_stands_for_zero(bits: u32)
    requires
        is_finite(bits),
    ensures
        is_zero(bits) <==> value(bits) == 0,
{
    lemma_magnitude_bounds(bits);
    if exponent_field(bits) > 0 {
        lemma_pow2_pos((exponent_field(bits) - 1) as nat);
    }
}

/// On finite patterns, to be non-positive is to stand for a number that is
/// zero or below. Of the infinities, the negative one is non-positive and the
/// positive one is not.
pub proof fn lemma_non_positive_stands_for_at_most_zero(bits: u32)
    ensures
        is_finite(bits) ==> (is_non_positive(bits) <==> value(bits) <= 0),
        is_non_positive(0xFF80_0000),
        !is_non_positive(0x7F80_0000),
{
    lemma_magnitude_bounds(bits);
    if exponent_field(bits) > 0 {
        lemma_pow2_pos((exponent_field(bits) - 1) as nat);
    }
}

/// On finite patterns, to stand for the same number is to have the same
/// value.
pub proof fn lemma_same_number_stands_for_same_value(a: u32, b: u32)
    requires
        is_finite(a),
        is_finite(b),
    ensures
        is_same_number(a, b) <==> value(a) == value(b),
{
    lemma_magnitude_bounds(a);
    lemma_magnitude_bounds(b);
    if exponent_field(a) > 0 {
        lemma_pow2_pos((exponent_field(a) - 1) as nat);
    }
    if exponent_field(b) > 0 {
        lemma_pow2_pos((exponent_field(b) - 1) as nat);
    }
    if value(a) == value(b) && value(a) != 0 {
        lemma_magnitude_tells_sizes_apart(a, b);
        lemma_fields_make_the_pattern(a);
        lemma_fields_make_the_pattern(b);
    }
}

/// The default tolerance is the binary32 number nearest to one hundredth.
/// One is 2^149 units; numbers of the size of the tolerance are 2^119 units
/// apart, and the tolerance is within half such a step of one hundredth.
pub proof fn lemma_default_tolerance_is_one_hundredth()
    ensures
        is_finite(DEFAULT_TOLERANCE),
        value(DEFAULT_TOLERANCE) % (pow2(119) as int) == 0,
        -50 * pow2(119) <= 100 * value(DEFAULT_TOLERANCE) - pow2(149) <= 50 * pow2(119),
{
    let step = pow2(119) as int;
    lemma2_to64();
    lemma_pow2_adds(30, 119);
    lemma_pow2_pos(119);
    assert(exponent_field(DEFAULT_TOLERANCE) == 120 && fraction_field(DEFAULT_TOLERANCE)
        == 0x23_D70A && sign_field(DEFAULT_TOLERANCE) == 0);
    assert(value(DEFAULT_TOLERANCE) == 10737418 * step);
    assert(pow2(149) == 1073741824 * step);
    assert((10737418 * step) % step == 0) by (nonlinear_arith)
        requires
            step > 0,
    ;
}

/// The default miter limit is four: four times the 2^149 units that make one.
pub proof fn lemma_default_miter_limit_is_four()
    ensures
        is_finite(DEFAULT_MITER_LIMIT),
        value(DEFAULT_MITER_LIMIT) == 4 * pow2(149),
{
    assert(exponent_field(DEFAULT_MITER_LIMIT) == 129 && fraction_field(DEFAULT_MITER_LIMIT) == 0
        && sign_field(DEFAULT_MITER_LIMIT) == 0);
    lemma2_to64();
    lemma_pow2_adds(23, 128);
    lemma_pow2_adds(2, 149);
}

/// Standing for the same number is an equivalence.
pub proof fn lemma_same_number_equivalence(a: u32, b: u32, c: u32)
    ensures
        is_same_number(a, a),
        is_same_number(a, b) ==> is_same_number(b, a),
        is_same_number(a, b) && is_same_number(b, c) ==> is_same_number(a, c),
{
}

} // verus!
