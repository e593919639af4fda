//! IEEE 754 binary64 numbers, held as their 64-bit patterns.
//!
//! A coordinate, a distance or a matrix entry is a `u64` that carries the
//! bits of a double. This module classifies such patterns, compares them
//! and converts them to pixel positions with integer operations alone;
//! arithmetic on doubles is the caller's business.
use vstd::arithmetic::div_mod::{
    lemma_basic_div, lemma_div_by_multiple, lemma_div_is_ordered,
    lemma_div_multiples_vanish_quotient,
};
use vstd::arithmetic::mul::{lemma_mul_inequality, lemma_mul_strict_inequality};
use vstd::arithmetic::power2::{
    lemma2_to64, lemma2_to64_rest, lemma_pow2_adds, lemma_pow2_pos,
    lemma_pow2_strictly_increases, pow2,
};
use vstd::bits::lemma_u64_shr_is_div;
use vstd::prelude::*;

verus! {

/// The sign bit.
pub const SIGN_MASK: u64 = 0x8000_0000_0000_0000;

/// Every bit but the sign bit.
pub const MAGNITUDE_MASK: u64 = 0x7fff_ffff_ffff_ffff;

/// The eleven exponent bits; also the pattern of positive infinity.
pub const EXPONENT_MASK: u64 = 0x7ff0_0000_0000_0000;

/// The fifty-two fraction bits.
pub const FRACTION_MASK: u64 = 0x000f_ffff_ffff_ffff;

/// The pattern of `+0.0`.
pub const ZERO: u64 = 0;

/// The pattern of `1.0`.
pub const ONE: u64 = 0x3ff0_0000_0000_0000;

/// The pattern of `-1.0`.
pub const MINUS_ONE: u64 = 0xbff0_0000_0000_0000;

/// The sign bit is set.
pub open spec fn is_negative(b: u64) -> bool {
    b & SIGN_MASK != 0
}

/// The biased exponent, `0 ..= 2047`.
pub open spec fn exponent_field(b: u64) -> u64 {
    (b >> 52) & 0x7ff
}

/// The fraction bits, below `2^52`.
pub open spec fn fraction_field(b: u64) -> u64 {
    b & FRACTION_MASK
}

/// The pattern with its sign bit cleared.
pub open spec fn magnitude(b: u64) -> u64 {
    b & MAGNITUDE_MASK
}

/// Not a number: the exponent is all ones and the fraction is not zero.
pub open spec fn is_nan(b: u64) -> bool {
    exponent_field(b) == 0x7ff && fraction_field(b) != 0
}

/// Plus or minus infinity: the exponent is all ones and the fraction is zero.
pub open spec fn is_infinite(b: u64) -> bool {
    exponent_field(b) == 0x7ff && fraction_field(b) == 0
}

/// Neither infinite nor a NaN.
pub open spec fn is_finite(b: u64) -> bool {
    exponent_field(b) != 0x7ff
}

/// The pattern of the number with the opposite sign.
pub open spec fn negated(b: u64) -> u64 {
    b ^ SIGN_MASK
}

/// Where a pattern that is no NaN stands on the number line, as an integer
/// that grows with the number: the magnitude bits, counted downwards for
/// negative numbers. Both zeros stand at 0.
pub open spec fn ordinal(b: u64) -> int {
    if is_negative(b) {
        -(magnitude(b) as int)
    } else {
        magnitude(b) as int
    }
}

/// `a <= b` as IEEE 754 compares: false when either is a NaN, and the two
/// zeros are equal.
pub open spec fn le(a: u64, b: u64) -> bool {
    !is_nan(a) && !is_nan(b) && ordinal(a) <= ordinal(b)
}

/// `low <= x && x <= high`: `x` lies in the closed range.
pub open spec fn in_closed_range(x: u64, low: u64, high: u64) -> bool {
    le(low, x) && le(x, high)
}

/// The rank of a pattern in the total order of IEEE 754 (`totalOrder`):
/// negative NaNs, negative infinity, the negative numbers, `-0.0`, `+0.0`,
/// the positive numbers, positive infinity, positive NaNs.
pub open spec fn total_order_key(b: u64) -> int {
    if is_negative(b) {
        -(magnitude(b) as int) - 1
    } else {
        magnitude(b) as int
    }
}

/// The classes by the magnitude bits: finite below the pattern of infinity,
/// NaN above it.
pub proof fn lemma_classes_by_magnitude(b: u64)
    ensures
        magnitude(b) <= MAGNITUDE_MASK,
        is_finite(b) <==> magnitude(b) < EXPONENT_MASK,
        is_infinite(b) <==> magnitude(b) == EXPONENT_MASK,
        is_nan(b) <==> magnitude(b) > EXPONENT_MASK,
        magnitude(b) == exponent_field(b) * 0x10_0000_0000_0000 + fraction_field(b),
        exponent_field(b) <= 0x7ff,
        fraction_field(b) <= FRACTION_MASK,
{
    assert(b & 0x7fff_ffff_ffff_ffff <= 0x7fff_ffff_ffff_ffff) by (bit_vector);
    assert(((b >> 52) & 0x7ff != 0x7ff) <==> (b & 0x7fff_ffff_ffff_ffff)
        < 0x7ff0_0000_0000_0000u64) by (bit_vector);
    assert(((b >> 52) & 0x7ff == 0x7ff && b & 0x000f_ffff_ffff_ffff == 0) <==> (b
        & 0x7fff_ffff_ffff_ffff) == 0x7ff0_0000_0000_0000u64) by (bit_vector);
    assert(((b >> 52) & 0x7ff == 0x7ff && b & 0x000f_ffff_ffff_ffff != 0) <==> (b
        & 0x7fff_ffff_ffff_ffff) > 0x7ff0_0000_0000_0000u64) by (bit_vector);
    assert((b & 0x7fff_ffff_ffff_ffff) == ((b >> 52) & 0x7ff) * 0x10_0000_0000_0000 + (b
        & 0x000f_ffff_ffff_ffff)) by (bit_vector);
    assert((b >> 52) & 0x7ff <= 0x7ff) by (bit_vector);
    assert(b & 0x000f_ffff_ffff_ffff <= 0x000f_ffff_ffff_ffff) by (bit_vector);
}

/// No two patterns have the same rank: the total order is strict.
pub proof fn lemma_total_order_is_strict(a: u64, b: u64)
    requires
        a != b,
    ensures
        total_order_key(a) != total_order_key(b),
{
    assert((a & 0x8000_0000_0000_0000 != 0) == (b & 0x8000_0000_0000_0000 != 0) && (a
        & 0x7fff_ffff_ffff_ffff) == (b & 0x7fff_ffff_ffff_ffff) ==> a == b) by (bit_vector);
}

/// On numbers the total order is the order of the numbers: the smaller
/// number has the smaller rank, and of the two zeros the negative one.
pub proof fn lemma_total_order_of_numbers(a: u64, b: u64)
    requires
        !is_nan(a),
        !is_nan(b),
    ensures
        total_order_key(a) <= total_order_key(b) ==> le(a, b),
        le(a, b) && !le(b, a) ==> total_order_key(a) < total_order_key(b),
{
}

/// Whether the pattern is that of a NaN.
pub fn nan(b: u64) -> (r: bool)
    ensures
        r == is_nan(b),
{
    (b >> 52) & 0x7ff == 0x7ff && b & FRACTION_MASK != 0
}

/// Whether the pattern is that of a finite number.
pub fn finite(b: u64) -> (r: bool)
    ensures
        r == is_finite(b),
{
    (b >> 52) & 0x7ff != 0x7ff
}

/// The pattern with the sign flipped, which is what unary minus gives.
pub fn negate(b: u64) -> (r: u64)
    ensures
        r == negated(b),
{
    b ^ SIGN_MASK
}

/// `a <= b`, as the numbers compare.
pub fn less_or_equal(a: u64, b: u64) -> (r: bool)
    ensures
        r == le(a, b),
{
    if nan(a) || nan(b) {
        return false;
    }
    let a_negative = a & SIGN_MASK != 0;
    let b_negative = b & SIGN_MASK != 0;
    let a_magnitude = a & MAGNITUDE_MASK;
    let b_magnitude = b & MAGNITUDE_MASK;
    if a_negative {
        if b_negative {
            b_magnitude <= a_magnitude
        } else {
            true
        }
    } else {
        if b_negative {
            a_magnitude == 0 && b_magnitude == 0
        } else {
            a_magnitude <= b_magnitude
        }
    }
}

/// Whether `x` lies in the closed range from `low` to `high`.
pub fn range_contains(low: u64, high: u64, x: u64) -> (r: bool)
    ensures
        r == in_closed_range(x, low, high),
{
    less_or_equal(low, x) && less_or_equal(x, high)
}

/// The rank of the pattern in the total order.
pub fn total_order_rank(b: u64) -> (r: i64)
    ensures
        r == total_order_key(b),
{
    let m = b & MAGNITUDE_MASK;
    assert(b & 0x7fff_ffff_ffff_ffff <= 0x7fff_ffff_ffff_ffff) by (bit_vector);
    let rank = m as i64;
    if b & SIGN_MASK != 0 {
        -rank - 1
    } else {
        rank
    }
}

/// The significand of a finite pattern: its fraction, with the hidden bit
/// on top unless the number is subnormal.
pub open spec fn significand(b: u64) -> nat {
    if exponent_field(b) == 0 {
        fraction_field(b) as nat
    } else {
        (fraction_field(b) + 0x10_0000_0000_0000) as nat
    }
}

/// How many binary places the significand of a finite pattern stands above
/// the smallest subnormal, `2^-1074`.
pub open spec fn scale(b: u64) -> nat {
    if exponent_field(b) == 0 {
        0
    } else {
        (exponent_field(b) - 1) as nat
    }
}

/// The absolute value of a finite pattern, counted in units of `2^-1074`.
/// Every finite double is a whole number of them.
pub open spec fn units(b: u64) -> nat {
    significand(b) * pow2(scale(b))
}

/// The absolute value of a finite pattern, rounded down to a whole number.
pub open spec fn whole_part(b: u64) -> nat {
    units(b) / pow2(1074)
}

/// The number as a 32-bit integer: rounded towards zero, held to the range
/// of `i32`, and 0 for a NaN.
pub open spec fn to_i32(b: u64) -> int {
    if is_nan(b) {
        0
    } else if is_negative(b) {
        if is_infinite(b) || whole_part(b) >= 0x8000_0000 {
            -0x8000_0000
        } else {
            -(whole_part(b) as int)
        }
    } else {
        if is_infinite(b) || whole_part(b) > 0x7fff_ffff {
            0x7fff_ffff
        } else {
            whole_part(b) as int
        }
    }
}

/// The value of a finite pattern in units of `2^-1074`, with its sign.
pub open spec fn signed_units(b: u64) -> int {
    if is_negative(b) {
        -(units(b) as int)
    } else {
        units(b) as int
    }
}

/// Of two finite patterns the one with the larger magnitude bits has the
/// larger absolute value.
proof fn lemma_units_strictly_increase(a: u64, b: u64)
    requires
        is_finite(a),
        is_finite(b),
        magnitude(a) < magnitude(b),
    ensures
        units(a) < units(b),
{
    lemma_classes_by_magnitude(a);
    lemma_classes_by_magnitude(b);
    lemma2_to64_rest();
    let p = pow2(scale(b)) as int;
    lemma_pow2_pos(scale(a));
    lemma_pow2_pos(scale(b));
    if exponent_field(a) == exponent_field(b) {
        lemma_mul_strict_inequality(significand(a) as int, significand(b) as int, p);
    } else {
        assert(exponent_field(a) < exponent_field(b));
        lemma_mul_inequality(pow2(52) as int, significand(b) as int, p);
        lemma_pow2_adds(52, scale(b));
        assert(pow2(52 + scale(b)) <= units(b));
        if exponent_field(a) == 0 {
            assert(pow2(0) == 1) by {
                lemma2_to64();
            }
            assert(units(a) == significand(a)) by (nonlinear_arith)
                requires
                    units(a) == significand(a) * pow2(scale(a)),
                    pow2(scale(a)) == 1,
            ;
            if 0 < scale(b) {
                lemma_pow2_strictly_increases(52, 52 + scale(b));
            }
        } else {
            lemma_mul_strict_inequality(
                significand(a) as int,
                pow2(53) as int,
                pow2(scale(a)) as int,
            );
            lemma_pow2_adds(53, scale(a));
            assert(units(a) < pow2(53 + scale(a)));
            if 53 + scale(a) < 52 + scale(b) {
                lemma_pow2_strictly_increases(53 + scale(a), 52 + scale(b));
            }
        }
    }
}

/// The magnitude bits of a pattern fix its exponent and its fraction.
proof fn lemma_magnitude_fixes_fields(a: u64, b: u64)
    requires
        magnitude(a) == magnitude(b),
    ensures
        exponent_field(a) == exponent_field(b),
        fraction_field(a) == fraction_field(b),
        units(a) == units(b),
{
    lemma_classes_by_magnitude(a);
    lemma_classes_by_magnitude(b);
}

/// Only the two zeros have the absolute value 0.
proof fn lemma_units_of_zero(b: u64)
    requires
        is_finite(b),
    ensures
        units(b) == 0 <==> magnitude(b) == 0,
{
    lemma_classes_by_magnitude(b);
    if magnitude(b) == 0 {
        assert(significand(b) == 0);
        assert(units(b) == 0) by (nonlinear_arith)
            requires
                units(b) == significand(b) * pow2(scale(b)),
                significand(b) == 0,
        ;
    } else {
        assert(0u64 & 0x7fff_ffff_ffff_ffff == 0) by (bit_vector);
        assert((0u64 >> 52) & 0x7ff == 0) by (bit_vector);
        lemma_units_strictly_increase(0, b);
    }
}

/// On finite patterns the comparison of the bits is the comparison of the
/// numbers that they stand for.
pub proof fn lemma_le_is_numeric(a: u64, b: u64)
    requires
        is_finite(a),
        is_finite(b),
    ensures
        le(a, b) <==> signed_units(a) <= signed_units(b),
{
    lemma_classes_by_magnitude(a);
    lemma_classes_by_magnitude(b);
    if magnitude(a) < magnitude(b) {
        lemma_units_strictly_increase(a, b);
    } else if magnitude(b) < magnitude(a) {
        lemma_units_strictly_increase(b, a);
    } else {
        lemma_magnitude_fixes_fields(a, b);
    }
    lemma_units_of_zero(a);
    lemma_units_of_zero(b);
}

/// A finite number below one in absolute value has whole part 0.
proof fn lemma_whole_part_small(b: u64)
    requires
        exponent_field(b) < 1023,
    ensures
        whole_part(b) == 0,
{
    lemma_classes_by_magnitude(b);
    lemma2_to64_rest();
    lemma_pow2_pos(scale(b));
    let s = significand(b) as int;
    let p = pow2(scale(b)) as int;
    assert(s < pow2(53));
    lemma_mul_strict_inequality(s, pow2(53) as int, p);
    lemma_pow2_adds(53, scale(b));
    assert(s * p < pow2(53 + scale(b)));
    if 53 + scale(b) < 1074 {
        lemma_pow2_strictly_increases(53 + scale(b), 1074);
    }
    lemma_basic_div(units(b) as int, pow2(1074) as int);
}

/// A finite number of absolute value `2^31` or more has a whole part of at
/// least `2^31`.
proof fn lemma_whole_part_large(b: u64)
    requires
        1054 <= exponent_field(b) < 0x7ff,
    ensures
        whole_part(b) >= 0x8000_0000,
{
    lemma_classes_by_magnitude(b);
    lemma2_to64();
    lemma2_to64_rest();
    let e = scale(b);
    lemma_pow2_pos(e);
    lemma_pow2_pos(1074);
    lemma_mul_inequality(pow2(52) as int, significand(b) as int, pow2(e) as int);
    lemma_pow2_adds(52, e);
    assert(pow2(52 + e) <= units(b));
    if 1105 < 52 + e {
        lemma_pow2_strictly_increases(1105, 52 + e);
    }
    lemma_pow2_adds(31, 1074);
    assert(pow2(31) * pow2(1074) <= units(b));
    lemma_div_by_multiple(pow2(31) as int, pow2(1074) as int);
    lemma_div_is_ordered((pow2(31) * pow2(1074)) as int, units(b) as int, pow2(1074) as int);
}

/// Between one and `2^31` the whole part is the significand without the
/// binary places that stand behind the point.
proof fn lemma_whole_part_shift(b: u64)
    requires
        1023 <= exponent_field(b) <= 1053,
    ensures
        whole_part(b) == significand(b) / pow2((1075 - exponent_field(b)) as nat),
{
    let e = scale(b);
    let k = (1075 - exponent_field(b)) as nat;
    lemma_pow2_pos(e);
    lemma_pow2_pos(k);
    lemma_pow2_adds(e, k);
    assert(e + k == 1074);
    lemma_div_multiples_vanish_quotient(pow2(e) as int, significand(b) as int, pow2(k) as int);
    assert(significand(b) * pow2(e) == pow2(e) * significand(b)) by (nonlinear_arith);
}

/// The pixel position that a coordinate names: the number as a 32-bit
/// integer, rounded towards zero, with what lies beyond the range of `i32`
/// held at its nearest end, and 0 for a NaN.
pub fn pixel(b: u64) -> (r: i32)
    ensures
        r == to_i32(b),
{
    let e = (b >> 52) & 0x7ff;
    let f = b & FRACTION_MASK;
    let negative = b & SIGN_MASK != 0;
    proof {
        lemma_classes_by_magnitude(b);
    }
    if e == 0x7ff && f != 0 {
        return 0;
    }
    if e < 1023 {
        proof {
            lemma_whole_part_small(b);
        }
        return 0;
    }
    if e >= 1054 {
        proof {
            if e < 0x7ff {
                lemma_whole_part_large(b);
            }
        }
        return if negative {
            i32::MIN
        } else {
            i32::MAX
        };
    }
    let s = f | 0x10_0000_0000_0000;
    let shift = 1075 - e;
    let whole = s >> shift;
    proof {
        assert(f | 0x10_0000_0000_0000 == f + 0x10_0000_0000_0000) by (bit_vector)
            requires
                f <= 0x000f_ffff_ffff_ffff,
        ;
        assert(s >> shift < 0x8000_0000) by (bit_vector)
            requires
                s < 0x20_0000_0000_0000,
                22 <= shift <= 52,
        ;
        lemma_u64_shr_is_div(s, shift);
        lemma_whole_part_shift(b);
        assert(whole == whole_part(b));
    }
    if negative {
        -(whole as i32)
    } else {
        whole as i32
    }
}

} // verus!
