//! The peg recovery fee: charged while a token trades below its backing, and
//! never more than what restores exact backing, nor more than the nominal rate.
use vstd::prelude::*;

use crate::math::{decimal_multiplication, mul_floor, Rate};
use crate::types::HubError;

verus! {

/// Supply owed after the operation minus principal held after it.
pub open spec fn required_peg_fee(issued: int, raw: int, pending: int, bonded: int, payment: int) -> int {
    (issued + raw + pending) - (bonded + payment)
}

/// The fee deducted from `raw`: zero at or above the threshold, else the
/// smaller of the nominal fee and the shortfall of backing.
pub open spec fn peg_fee(
    raw: int,
    rate: int,
    threshold: int,
    fee_rate: int,
    issued: int,
    pending: int,
    bonded: int,
    payment: int,
) -> int {
    if rate >= threshold {
        0
    } else {
        let max_fee = mul_floor(raw, fee_rate);
        let required = required_peg_fee(issued, raw, pending, bonded, payment);
        if max_fee <= required {
            max_fee
        } else {
            required
        }
    }
}

/// Whether the fee can be charged: the backing shortfall is not negative, no
/// sum leaves the `u128` range, and the fee does not exceed the amount.
pub open spec fn peg_fee_chargeable(
    raw: int,
    rate: int,
    threshold: int,
    fee_rate: int,
    issued: int,
    pending: int,
    bonded: int,
    payment: int,
) -> bool {
    rate >= threshold || {
        &&& issued + raw + pending <= u128::MAX
        &&& bonded + payment <= u128::MAX
        &&& required_peg_fee(issued, raw, pending, bonded, payment) >= 0
        &&& mul_floor(raw, fee_rate) <= u128::MAX
        &&& peg_fee(raw, rate, threshold, fee_rate, issued, pending, bonded, payment) <= raw
    }
}

/// `raw_amount` net of the peg recovery fee. `total_issued`, `pending_requested`
/// and `total_bonded` describe the token before the operation; `payment_amount`
/// is the principal that the operation adds to it. A negative shortfall is a
/// broken invariant and fails, as does a fee above the amount.
pub fn apply_peg_fee(
    raw_amount: u128,
    rate: Rate,
    threshold: Rate,
    fee_rate: Rate,
    total_issued: u128,
    pending_requested: u128,
    total_bonded: u128,
    payment_amount: u128,
) -> (r: Result<u128, HubError>)
    ensures
        r is Ok <==> peg_fee_chargeable(
            raw_amount as int,
            rate.atomics as int,
            threshold.atomics as int,
            fee_rate.atomics as int,
            total_issued as int,
            pending_requested as int,
            total_bonded as int,
            payment_amount as int,
        ),
        r matches Ok(v) ==> v == raw_amount - peg_fee(
            raw_amount as int,
            rate.atomics as int,
            threshold.atomics as int,
            fee_rate.atomics as int,
            total_issued as int,
            pending_requested as int,
            total_bonded as int,
            payment_amount as int,
        ),
        r matches Err(e) ==> e == HubError::Arithmetic,
{
    if rate.atomics >= threshold.atomics {
        return Ok(raw_amount);
    }
    let max_peg_fee = decimal_multiplication(raw_amount, fee_rate)?;
    if total_issued > u128::MAX - raw_amount || total_issued + raw_amount > u128::MAX
        - pending_requested {
        return Err(HubError::Arithmetic);
    }
    let owed = total_issued + raw_amount + pending_requested;
    if total_bonded > u128::MAX - payment_amount {
        return Err(HubError::Arithmetic);
    }
    let held = total_bonded + payment_amount;
    if owed < held {
        return Err(HubError::Arithmetic);
    }
    let required_peg_fee = owed - held;
    let peg_fee = if max_peg_fee <= required_peg_fee {
        max_peg_fee
    } else {
        required_peg_fee
    };
    if peg_fee > raw_amount {
        return Err(HubError::Arithmetic);
    }
    Ok(raw_amount - peg_fee)
}

} // verus!
