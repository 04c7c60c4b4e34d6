//! The rules on the length of a vector, and on when two numbers count as equal.
//!
//! The caller computes lengths and differences; this module says what they allow.

use vstd::prelude::*;
use crate::error::Error;
use crate::single::{abs, absolute, is_rounded, less, lt};

verus! {

/// The pattern of 1e-4, rounded to single precision: a vector must be
/// longer than this to be normalised.
pub const MIN_LENGTH: u32 = 0x38d1_b717;

/// The pattern of 1e-5, rounded to single precision: the squared length of
/// a normalised vector is nearer to one than this.
pub const UNIT_TOLERANCE: u32 = 0x3727_c5ac;

/// Whether a vector of length `length` can be normalised: its length is a
/// number greater than `MIN_LENGTH`.
pub open spec fn is_normalizable(length: u32) -> bool {
    less(MIN_LENGTH, length)
}

/// Whether a vector counts as normalised, where `excess` is its squared
/// length minus one: the magnitude of `excess` is less than `UNIT_TOLERANCE`.
pub open spec fn is_unit(excess: u32) -> bool {
    less(absolute(excess), UNIT_TOLERANCE)
}

/// Whether `a` counts as not above `b`, where `difference` is `a - b`: the
/// difference is a number less than `UNIT_TOLERANCE`.  The test looks one
/// way only: a number far below `b` passes it.
pub open spec fn is_not_above(difference: u32) -> bool {
    less(difference, UNIT_TOLERANCE)
}

/// Decides whether a vector of length `length` can be divided by its length.
/// It cannot when the length is at most `MIN_LENGTH` or no number.
pub fn normalizable(length: u32) -> (r: Result<(), Error>)
    ensures
        r is Ok <==> is_normalizable(length),
        r is Err ==> r == Err::<(), Error>(Error::DegenerateVector),
{
    if lt(MIN_LENGTH, length) {
        Ok(())
    } else {
        Err(Error::DegenerateVector)
    }
}

/// Whether a vector counts as normalised, where `excess` is its squared
/// length minus one.
pub fn is_normalized(excess: u32) -> (r: bool)
    ensures
        r == is_unit(excess),
{
    lt(abs(excess), UNIT_TOLERANCE)
}

/// Whether `a` is equal to `b` or below it, up to the tolerance, where
/// `difference` is `a - b`.
pub fn approx_eq(difference: u32) -> (r: bool)
    ensures
        r == is_not_above(difference),
{
    lt(difference, UNIT_TOLERANCE)
}

/// Decides whether a vector may serve as the axis of a rotation, where
/// `excess` is its squared length minus one: it must be normalised.
pub fn rotation_axis(excess: u32) -> (r: Result<(), Error>)
    ensures
        r is Ok <==> is_unit(excess),
        r is Err ==> r == Err::<(), Error>(Error::PreconditionViolation),
{
    if is_normalized(excess) {
        Ok(())
    } else {
        Err(Error::PreconditionViolation)
    }
}

/// The thresholds are the decimal numbers that they are named for, rounded
/// to single precision: a ten-thousandth and a hundred-thousandth.
pub proof fn lemma_thresholds()
    ensures
        is_rounded(MIN_LENGTH, 1, 10_000),
        is_rounded(UNIT_TOLERANCE, 1, 100_000),
{
    vstd::arithmetic::power2::lemma2_to64();
    vstd::arithmetic::power2::lemma_pow2_adds(32, 5);
    vstd::arithmetic::power2::lemma_pow2_adds(32, 8);
    assert(crate::single::scale(MIN_LENGTH) == 37);
    assert(crate::single::significand(MIN_LENGTH) == 13_743_895);
    assert(crate::single::scale(UNIT_TOLERANCE) == 40);
    assert(crate::single::significand(UNIT_TOLERANCE) == 10_995_116);
}

} // verus!
