//! Fixed-point arithmetic on resource amounts.
//!
//! An amount is an `i64` count of raw steps, `UNIT` of them to one whole
//! unit. Results that leave the range of `i64` stick at its ends; quotients
//! round toward zero.

use vstd::prelude::*;

verus! {

/// `value` brought into the range of `i64`: values beyond an end become that
/// end.
pub open spec fn saturate(value: int) -> int {
    if value > i64::MAX {
        i64::MAX as int
    } else if value < i64::MIN {
        i64::MIN as int
    } else {
        value
    }
}

/// `numerator / denominator`, rounded toward zero, for a positive
/// denominator.
pub open spec fn quotient(numerator: int, denominator: int) -> int {
    if numerator >= 0 {
        numerator / denominator
    } else {
        -((-numerator) / denominator)
    }
}

/// `value` brought into the range of `i64`.
pub fn saturated(value: i128) -> (amount: i64)
    ensures
        amount == saturate(value as int),
{
    if value > i64::MAX as i128 {
        i64::MAX
    } else if value < i64::MIN as i128 {
        i64::MIN
    } else {
        value as i64
    }
}

/// `numerator / denominator`, rounded toward zero.
pub fn divide(numerator: i128, denominator: i128) -> (q: i128)
    requires
        denominator > 0,
    ensures
        q == quotient(numerator as int, denominator as int),
{
    numerator / denominator
}

/// The sum of two amounts, saturating.
pub fn plus(a: i64, b: i64) -> (sum: i64)
    ensures
        sum == saturate(a + b),
{
    saturated(a as i128 + b as i128)
}

/// The difference of two amounts, saturating.
pub fn minus(a: i64, b: i64) -> (difference: i64)
    ensures
        difference == saturate(a - b),
{
    saturated(a as i128 - b as i128)
}

/// The quotient of a magnitude never exceeds the magnitude.
pub proof fn lemma_quotient_bounds(numerator: int, denominator: int)
    requires
        denominator > 0,
    ensures
        numerator >= 0 ==> 0 <= quotient(numerator, denominator) <= numerator,
        numerator <= 0 ==> numerator <= quotient(numerator, denominator) <= 0,
{
    if numerator >= 0 {
        assert(0 <= numerator / denominator <= numerator) by (nonlinear_arith)
            requires
                numerator >= 0,
                denominator > 0,
        ;
    } else {
        assert(0 <= (-numerator) / denominator <= -numerator) by (nonlinear_arith)
            requires
                -numerator >= 0,
                denominator > 0,
        ;
    }
}

} // verus!
