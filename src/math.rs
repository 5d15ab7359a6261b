//! Fixed-point arithmetic with 18 decimal places.
//!
//! A `Rate` holds its value as `atomics / DECIMAL_FRACTIONAL`. Every product
//! or quotient of an amount and a rate is floored, as the chain's decimal
//! type does it.
use vstd::prelude::*;

use crate::types::HubError;

verus! {

/// Number of atomics in one whole unit of a `Rate`.
pub const DECIMAL_FRACTIONAL: u128 = 1_000_000_000_000_000_000;

/// A non-negative fixed-point number: `atomics / DECIMAL_FRACTIONAL`.
#[derive(Clone, Copy, Debug, PartialEq, Eq, Structural)]
pub struct Rate {
    pub atomics: u128,
}

/// `amount * rate`, floored, with the rate given by its atomics.
pub open spec fn mul_floor(amount: int, atomics: int) -> int {
    amount * atomics / (DECIMAL_FRACTIONAL as int)
}

/// `numerator / denominator` as the atomics of a rate, floored.
pub open spec fn ratio_floor(numerator: int, denominator: int) -> int {
    numerator * (DECIMAL_FRACTIONAL as int) / denominator
}

/// Whether `a * num / den` can be computed into a `u128`.
pub open spec fn mul_div_fits(a: int, num: int, den: int) -> bool {
    den > 0 && a * num / den <= u128::MAX
}

/// Relies on `cosmwasm_std::Uint128::checked_multiply_ratio`: `a * num / den`,
/// floored, with a 256-bit intermediate product; an error when `den` is zero or
/// the quotient does not fit in 128 bits.
#[verifier::external_body]
pub(crate) fn mul_div(a: u128, num: u128, den: u128) -> (r: Option<u128>)
    ensures
        r.is_some() == mul_div_fits(a as int, num as int, den as int),
        r.is_some() ==> r.unwrap() as int == a as int * num as int / den as int,
{
    cosmwasm_std::Uint128::new(a).checked_multiply_ratio(num, den).ok().map(|v| v.u128())
}

impl Rate {
    pub fn one() -> (r: Rate)
        ensures
            r.atomics == DECIMAL_FRACTIONAL,
    {
        Rate { atomics: DECIMAL_FRACTIONAL }
    }

    pub fn zero() -> (r: Rate)
        ensures
            r.atomics == 0,
    {
        Rate { atomics: 0 }
    }

    /// The rate `numerator / denominator`; fails when the denominator is zero
    /// or the rate is beyond the representable range.
    pub fn from_ratio(numerator: u128, denominator: u128) -> (r: Result<Rate, HubError>)
        ensures
            r is Ok <==> mul_div_fits(numerator as int, DECIMAL_FRACTIONAL as int, denominator as int),
            r matches Ok(v) ==> v.atomics as int == ratio_floor(numerator as int, denominator as int),
            r matches Err(e) ==> e == HubError::Arithmetic,
    {
        match mul_div(numerator, DECIMAL_FRACTIONAL, denominator) {
            Some(v) => Ok(Rate { atomics: v }),
            None => Err(HubError::Arithmetic),
        }
    }
}

/// `amount * rate`, floored; fails only when the product leaves the `u128` range.
pub fn decimal_multiplication(amount: u128, rate: Rate) -> (r: Result<u128, HubError>)
    ensures
        r is Ok <==> mul_floor(amount as int, rate.atomics as int) <= u128::MAX,
        r matches Ok(v) ==> v as int == mul_floor(amount as int, rate.atomics as int),
        r matches Err(e) ==> e == HubError::Arithmetic,
{
    match mul_div(amount, rate.atomics, DECIMAL_FRACTIONAL) {
        Some(v) => Ok(v),
        None => Err(HubError::Arithmetic),
    }
}

/// `amount / rate`, floored; fails when the rate is zero or the quotient
/// leaves the `u128` range.
pub fn decimal_division(amount: u128, rate: Rate) -> (r: Result<u128, HubError>)
    ensures
        r is Ok <==> mul_div_fits(amount as int, DECIMAL_FRACTIONAL as int, rate.atomics as int),
        r matches Ok(v) ==> v as int == ratio_floor(amount as int, rate.atomics as int),
        r matches Err(e) ==> e == HubError::Arithmetic,
{
    match mul_div(amount, DECIMAL_FRACTIONAL, rate.atomics) {
        Some(v) => Ok(v),
        None => Err(HubError::Arithmetic),
    }
}

/// An amount of at most `u128::MAX` times a rate of at most one fits in a `u128`
/// and does not exceed the amount.
pub proof fn lemma_mul_floor_at_most(amount: int, atomics: int)
    requires
        0 <= amount,
        0 <= atomics <= DECIMAL_FRACTIONAL,
    ensures
        0 <= mul_floor(amount, atomics) <= amount,
{
    let f = DECIMAL_FRACTIONAL as int;
    assert(0 <= amount * atomics <= amount * f) by (nonlinear_arith)
        requires 0 <= amount, 0 <= atomics <= f;
    assert(amount * atomics / f <= amount * f / f) by (nonlinear_arith)
        requires 0 <= amount * atomics <= amount * f, f > 0;
    assert(amount * f / f == amount) by (nonlinear_arith)
        requires f > 0;
    assert(0 <= amount * atomics / f) by (nonlinear_arith)
        requires 0 <= amount * atomics, f > 0;
}

} // verus!
