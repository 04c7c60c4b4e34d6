//! Real numbers as they cross the library's boundary.
//!
//! The caller computes in IEEE-754 single precision and hands each number
//! over as its bit pattern, a `u32`: one sign bit, eight bits of exponent,
//! twenty-three of fraction.  This module reads from a pattern what can be
//! read exactly: whether it is a number at all, its sign, and how two
//! numbers compare.  It adds, multiplies and rounds nothing.
//!
//! Without its sign bit a pattern is an integer that grows with the
//! number's magnitude: zero first, then the finite numbers, then infinity,
//! and above infinity the patterns that are no number (NaN).
//!
//! Every finite number is a whole multiple of `2^-149`, the smallest number
//! above zero.  `units` gives that multiple, and so says what number a
//! pattern stands for.

use vstd::prelude::*;
use vstd::arithmetic::power2::{
    lemma2_to64,
    lemma_pow2_pos,
    lemma_pow2_strictly_increases,
    lemma_pow2_unfold,
    pow2,
};
use vstd::arithmetic::mul::{lemma_mul_inequality, lemma_mul_strict_inequality};

verus! {

/// The sign bit.  Alone it is the pattern of negative zero.
pub const SIGN: u32 = 0x8000_0000;

/// The pattern of zero.
pub const ZERO: u32 = 0;

/// The pattern of one.
pub const ONE: u32 = 0x3f80_0000;

/// The pattern of positive infinity.  A pattern whose magnitude is greater is no number.
pub const INFINITY: u32 = 0x7f80_0000;

/// The pattern without its sign bit.
pub open spec fn magnitude(bits: u32) -> int {
    bits as int % 0x8000_0000
}

/// Whether the pattern is no number.
pub open spec fn is_nan(bits: u32) -> bool {
    magnitude(bits) > INFINITY
}

/// Whether the sign bit is set.
pub open spec fn is_signed(bits: u32) -> bool {
    bits >= SIGN
}

/// An integer that orders the patterns of numbers as the numbers themselves
/// are ordered.  Both zeros have rank zero.
pub open spec fn rank(bits: u32) -> int {
    if is_signed(bits) {
        -magnitude(bits)
    } else {
        magnitude(bits)
    }
}

/// `a < b`.  False when either is no number.
pub open spec fn less(a: u32, b: u32) -> bool {
    !is_nan(a) && !is_nan(b) && rank(a) < rank(b)
}

/// `a <= b`.  False when either is no number.
pub open spec fn at_most(a: u32, b: u32) -> bool {
    !is_nan(a) && !is_nan(b) && rank(a) <= rank(b)
}

/// Whether the pattern is that of a number greater than zero, infinity included.
pub open spec fn is_positive(bits: u32) -> bool {
    less(ZERO, bits)
}

/// The pattern of `|x|`: the sign bit cleared.
pub open spec fn absolute(bits: u32) -> u32 {
    magnitude(bits) as u32
}

/// The pattern of `-x`: the sign bit flipped.
pub open spec fn negated(bits: u32) -> u32 {
    if is_signed(bits) {
        (bits - SIGN) as u32
    } else {
        (bits + SIGN) as u32
    }
}

/// The smaller of two numbers; the other one where one of them is no number.
pub open spec fn lesser(a: u32, b: u32) -> u32 {
    if is_nan(a) {
        b
    } else if is_nan(b) {
        a
    } else if rank(b) < rank(a) {
        b
    } else {
        a
    }
}

/// The exponent field of the pattern.
pub open spec fn exponent(bits: u32) -> int {
    (bits as int / 0x80_0000) % 0x100
}

/// The fraction field of the pattern.
pub open spec fn fraction(bits: u32) -> int {
    bits as int % 0x80_0000
}

/// The numerator of a finite number's magnitude, which is
/// `significand / 2^scale`: the fraction, with a leading one but for the
/// smallest exponent.
pub open spec fn significand(bits: u32) -> int {
    if exponent(bits) == 0 {
        fraction(bits)
    } else {
        0x80_0000 + fraction(bits)
    }
}

/// The power of two that divides the significand of a number below `2^24`
/// in magnitude: a pattern whose exponent field is at most 150.
pub open spec fn scale(bits: u32) -> nat {
    if exponent(bits) == 0 {
        149
    } else {
        (150 - exponent(bits)) as nat
    }
}

/// Whether the pattern is that of a finite number.
pub open spec fn is_finite(bits: u32) -> bool {
    magnitude(bits) < INFINITY
}

/// The value of a finite number, in units of `2^-149`: the significand,
/// shifted by the exponent, with the sign.
pub open spec fn units(bits: u32) -> int {
    let shift = if exponent(bits) == 0 {
        0
    } else {
        exponent(bits) - 1
    };
    let steps = significand(bits) * pow2(shift as nat);
    if is_signed(bits) {
        -steps
    } else {
        steps
    }
}

/// Whether a number above zero differs from `numerator / denominator` by
/// at most half the step between the singles of its size: the pattern is
/// that of the fraction, rounded to single precision.
pub open spec fn is_rounded(bits: u32, numerator: int, denominator: int) -> bool {
    &&& !is_signed(bits)
    &&& 1 <= exponent(bits) <= 150
    &&& denominator > 0
    &&& {
        let error = significand(bits) * denominator - numerator * pow2(scale(bits));
        -denominator <= 2 * error <= denominator
    }
}

/// Whether the pattern is no number.
pub fn nan(bits: u32) -> (r: bool)
    ensures
        r == is_nan(bits),
{
    bits % 0x8000_0000 > INFINITY
}

fn rank_of(bits: u32) -> (r: i64)
    ensures
        r == rank(bits),
{
    let magnitude = (bits % 0x8000_0000) as i64;
    if bits >= SIGN {
        -magnitude
    } else {
        magnitude
    }
}

/// `a < b`, as the hardware compares: false when either is no number, and
/// negative zero is not less than zero.
pub fn lt(a: u32, b: u32) -> (r: bool)
    ensures
        r == less(a, b),
{
    !nan(a) && !nan(b) && rank_of(a) < rank_of(b)
}

/// `a <= b`, as the hardware compares: false when either is no number.
pub fn le(a: u32, b: u32) -> (r: bool)
    ensures
        r == at_most(a, b),
{
    !nan(a) && !nan(b) && rank_of(a) <= rank_of(b)
}

/// Whether the number is greater than zero.
pub fn positive(bits: u32) -> (r: bool)
    ensures
        r == is_positive(bits),
        r == (0 < bits <= INFINITY),
{
    lt(ZERO, bits)
}

/// The pattern of `|x|`.
pub fn abs(bits: u32) -> (r: u32)
    ensures
        r == absolute(bits),
        !is_signed(r),
        is_nan(r) == is_nan(bits),
{
    bits % 0x8000_0000
}

/// The pattern of `-x`.
pub fn neg(bits: u32) -> (r: u32)
    ensures
        r == negated(bits),
        is_nan(r) == is_nan(bits),
        !is_nan(bits) ==> rank(r) == -rank(bits),
{
    if bits >= SIGN {
        bits - SIGN
    } else {
        bits + SIGN
    }
}

/// The smaller of two numbers; the other one where one of them is no number.
pub fn min(a: u32, b: u32) -> (r: u32)
    ensures
        r == lesser(a, b),
{
    if nan(a) {
        b
    } else if nan(b) {
        a
    } else if rank_of(b) < rank_of(a) {
        b
    } else {
        a
    }
}

/// Among numbers, `<` is a strict order and `<=` goes with it: nothing is
/// less than itself, `a < b` rules out `b <= a`, both are transitive, and of
/// two numbers one is at most the other.
pub proof fn lemma_order(a: u32, b: u32, c: u32)
    ensures
        !less(a, a),
        less(a, b) ==> at_most(a, b) && !at_most(b, a),
        less(a, b) && less(b, c) ==> less(a, c),
        at_most(a, b) && at_most(b, c) ==> at_most(a, c),
        !is_nan(a) && !is_nan(b) ==> at_most(a, b) || less(b, a),
{
}

/// Negation mirrors the order, and the magnitude undoes a sign.
pub proof fn lemma_negated(a: u32, b: u32)
    ensures
        negated(negated(a)) == a,
        absolute(negated(a)) == absolute(a),
        less(a, b) <==> less(negated(b), negated(a)),
        at_most(ZERO, a) ==> at_most(negated(a), ZERO),
        !is_nan(a) ==> at_most(ZERO, absolute(a)),
{
}

proof fn lemma_units_grow(a: u32, b: u32)
    requires
        a < b < INFINITY,
    ensures
        0 <= units(a) < units(b),
{
    let (ea, eb) = (exponent(a), exponent(b));
    let (sa, sb) = (significand(a), significand(b));
    let shift_a = (if ea == 0 { 0 } else { ea - 1 }) as nat;
    let shift_b = (if eb == 0 { 0 } else { eb - 1 }) as nat;
    lemma_pow2_pos(shift_a);
    lemma_pow2_pos(shift_b);
    lemma_mul_inequality(0, sa, pow2(shift_a) as int);
    assert(ea <= eb);
    if ea == eb {
        lemma_mul_strict_inequality(sa, sb, pow2(shift_a) as int);
    } else {
        // The numbers of one exponent end where those of the next begin.
        let first_of_b = 0x80_0000 * pow2(shift_b);
        lemma_mul_inequality(0x80_0000, sb, pow2(shift_b) as int);
        assert(first_of_b <= units(b));
        if ea == 0 {
            lemma2_to64();
            assert(units(a) == sa * pow2(0));
            assert(sa * 1 == sa);
            lemma_mul_inequality(1, pow2(shift_b) as int, 0x80_0000);
            assert(1 * 0x80_0000 <= pow2(shift_b) * 0x80_0000);
            assert(pow2(shift_b) * 0x80_0000 == first_of_b) by (nonlinear_arith)
                requires
                    first_of_b == 0x80_0000 * pow2(shift_b),
            ;
        } else {
            let end_of_a = 0x80_0000 * pow2(ea as nat);
            lemma_pow2_unfold(ea as nat);
            lemma_mul_strict_inequality(sa, 0x100_0000, pow2(shift_a) as int);
            assert(0x100_0000 * pow2(shift_a) == end_of_a) by (nonlinear_arith)
                requires
                    pow2(ea as nat) == 2 * pow2(shift_a),
                    end_of_a == 0x80_0000 * pow2(ea as nat),
            ;
            if ea < shift_b {
                lemma_pow2_strictly_increases(ea as nat, shift_b);
            }
            lemma_mul_inequality(pow2(ea as nat) as int, pow2(shift_b) as int, 0x80_0000);
            assert(end_of_a <= first_of_b) by (nonlinear_arith)
                requires
                    pow2(ea as nat) * 0x80_0000 <= pow2(shift_b) * 0x80_0000,
                    end_of_a == 0x80_0000 * pow2(ea as nat),
                    first_of_b == 0x80_0000 * pow2(shift_b),
            ;
        }
    }
}

proof fn lemma_units_by_rank(a: u32)
    requires
        is_finite(a),
    ensures
        rank(a) > 0 <==> units(a) > 0,
        rank(a) < 0 <==> units(a) < 0,
        units(a) == (if is_signed(a) {
            -units(absolute(a))
        } else {
            units(absolute(a))
        }),
{
    let m = absolute(a);
    assert(exponent(m) == exponent(a));
    assert(fraction(m) == fraction(a));
    lemma_one();
    if 0 < m {
        lemma_units_grow(0, m);
    }
}

/// The comparisons go by the numbers that the patterns stand for: of two
/// finite numbers, `a < b` exactly when `a` has the lesser value, and both
/// `a <= b` and `b <= a` exactly when the values are equal.
pub proof fn lemma_order_is_by_value(a: u32, b: u32)
    requires
        is_finite(a),
        is_finite(b),
    ensures
        less(a, b) <==> units(a) < units(b),
        at_most(a, b) <==> units(a) <= units(b),
{
    lemma_units_by_rank(a);
    lemma_units_by_rank(b);
    let (ma, mb) = (absolute(a), absolute(b));
    if is_signed(a) == is_signed(b) {
        if ma < mb {
            lemma_units_grow(ma, mb);
        } else if mb < ma {
            lemma_units_grow(mb, ma);
        }
    }
}

/// `ONE` stands for one, which is `2^149` units.
pub proof fn lemma_one()
    ensures
        units(ONE) == pow2(149),
        units(ZERO) == 0,
        units(SIGN) == 0,
{
    lemma2_to64();
    vstd::arithmetic::power2::lemma_pow2_adds(23, 126);
    assert(exponent(ONE) == 127 && significand(ONE) == 0x80_0000);
    assert(units(ONE) == pow2(23) * pow2(126));
    assert(exponent(ZERO) == 0 && significand(ZERO) == 0);
    assert(units(ZERO) == 0 * pow2(0));
    assert(exponent(SIGN) == 0 && significand(SIGN) == 0);
    assert(units(SIGN) == -(0 * pow2(0)));
    assert(0 * pow2(0) == 0);
}

/// Among the numbers that are not below zero and carry no sign, the patterns
/// themselves are ordered as the numbers are.
pub proof fn lemma_unsigned_order(a: u32, b: u32)
    requires
        a <= INFINITY,
        b <= INFINITY,
    ensures
        less(a, b) <==> a < b,
        at_most(a, b) <==> a <= b,
{
}

} // verus!
