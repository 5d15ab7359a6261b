//! Direct conversion between the two derivatives: an accounting swap of
//! principal from one token to the other, with no delegation change.
use vstd::prelude::*;

use crate::fee::{apply_peg_fee, peg_fee, peg_fee_chargeable};
use crate::math::{decimal_division, decimal_multiplication, mul_div_fits, mul_floor, ratio_floor, DECIMAL_FRACTIONAL};
use crate::rates::{
    rate_computable, slashed_state, slashing, slashing_succeeds, with_bsei_rate, with_stsei_rate,
};
use crate::types::{Config, CurrentBatch, HubError, Parameters, State};

verus! {

/// Converting `amount` of the second token into the first, from the state `s`
/// after the slashing check: the principal it stands for moves across, and the
/// first token is minted at its rate, net of the peg recovery fee.
pub open spec fn stsei_to_bsei(
    s: State,
    batch: CurrentBatch,
    params: Parameters,
    amount: int,
    bsei_issued: int,
    stsei_issued: int,
) -> Result<(State, int), HubError> {
    let equiv = mul_floor(amount, s.stsei_exchange_rate.atomics as int);
    let rate = s.bsei_exchange_rate.atomics as int;
    let thr = params.er_threshold.atomics as int;
    let fee = params.peg_recovery_fee.atomics as int;
    let pending = batch.requested_bsei_with_fee as int;
    let bonded = s.total_bond_bsei_amount as int;
    if equiv > u128::MAX || !mul_div_fits(equiv, DECIMAL_FRACTIONAL as int, rate) {
        Err(HubError::Arithmetic)
    } else {
        let raw = ratio_floor(equiv, rate);
        if !peg_fee_chargeable(raw, rate, thr, fee, bsei_issued, pending, bonded, equiv) {
            Err(HubError::Arithmetic)
        } else {
            let minted = raw - peg_fee(raw, rate, thr, fee, bsei_issued, pending, bonded, equiv);
            let new_bsei = bonded + equiv;
            let new_stsei = s.total_bond_stsei_amount - equiv;
            let s1 = State {
                total_bond_bsei_amount: new_bsei as u128,
                total_bond_stsei_amount: new_stsei as u128,
                ..s
            };
            if new_bsei > u128::MAX || new_stsei < 0 || bsei_issued + minted > u128::MAX
                || !rate_computable(new_bsei, bsei_issued + minted, pending) || amount
                > stsei_issued || !rate_computable(
                new_stsei,
                stsei_issued - amount,
                batch.requested_stsei as int,
            ) {
                Err(HubError::Arithmetic)
            } else {
                Ok(
                    (
                        with_stsei_rate(
                            with_bsei_rate(s1, bsei_issued + minted, pending),
                            stsei_issued - amount,
                            batch.requested_stsei as int,
                        ),
                        minted,
                    ),
                )
            }
        }
    }
}

/// Converting `amount` of the first token into the second, from the state `s`
/// after the slashing check: the peg recovery fee comes off the amount, the
/// principal the rest stands for moves across, and the second token is minted
/// at its rate.
pub open spec fn bsei_to_stsei(
    s: State,
    batch: CurrentBatch,
    params: Parameters,
    amount: int,
    bsei_issued: int,
    stsei_issued: int,
) -> Result<(State, int), HubError> {
    let rate = s.bsei_exchange_rate.atomics as int;
    let thr = params.er_threshold.atomics as int;
    let fee = params.peg_recovery_fee.atomics as int;
    let pending = batch.requested_bsei_with_fee as int;
    let bonded = s.total_bond_bsei_amount as int;
    if !peg_fee_chargeable(amount, rate, thr, fee, bsei_issued, pending, bonded, amount) {
        Err(HubError::Arithmetic)
    } else {
        let net = amount - peg_fee(amount, rate, thr, fee, bsei_issued, pending, bonded, amount);
        let equiv = mul_floor(net, rate);
        let st_rate = s.stsei_exchange_rate.atomics as int;
        if equiv > u128::MAX || !mul_div_fits(equiv, DECIMAL_FRACTIONAL as int, st_rate) {
            Err(HubError::Arithmetic)
        } else {
            let minted = ratio_floor(equiv, st_rate);
            let new_bsei = bonded - equiv;
            let new_stsei = s.total_bond_stsei_amount + equiv;
            let s1 = State {
                total_bond_bsei_amount: new_bsei as u128,
                total_bond_stsei_amount: new_stsei as u128,
                ..s
            };
            if new_bsei < 0 || new_stsei > u128::MAX || amount > bsei_issued || !rate_computable(
                new_bsei,
                bsei_issued - amount,
                pending,
            ) || stsei_issued + minted > u128::MAX || !rate_computable(
                new_stsei,
                stsei_issued + minted,
                batch.requested_stsei as int,
            ) {
                Err(HubError::Arithmetic)
            } else {
                Ok(
                    (
                        with_stsei_rate(
                            with_bsei_rate(s1, bsei_issued - amount, pending),
                            stsei_issued + minted,
                            batch.requested_stsei as int,
                        ),
                        minted,
                    ),
                )
            }
        }
    }
}

/// The whole conversion: both token contracts registered, the slashing check,
/// then the swap in the direction asked (`from_stsei` or not).
pub open spec fn convert_outcome(
    state: State,
    batch: CurrentBatch,
    params: Parameters,
    config: Config,
    from_stsei: bool,
    amount: int,
    actual: int,
    bsei_issued: int,
    stsei_issued: int,
) -> Result<(State, int), HubError> {
    if !slashing_succeeds(state, batch, actual, bsei_issued, stsei_issued) {
        Err(HubError::Arithmetic)
    } else if config.stsei_token_contract is None || config.bsei_token_contract is None {
        Err(HubError::NotConfigured)
    } else {
        let s = slashed_state(state, batch, actual, bsei_issued, stsei_issued);
        if from_stsei {
            stsei_to_bsei(s, batch, params, amount, bsei_issued, stsei_issued)
        } else {
            bsei_to_stsei(s, batch, params, amount, bsei_issued, stsei_issued)
        }
    }
}

/// The result of an accepted conversion.
pub struct ConvertResponse {
    /// The ledger state to persist.
    pub state: State,
    /// The amount of the target token minted to the sender.
    pub minted: u128,
    /// The contract of the token minted.
    pub mint_contract: String,
    /// The contract of the token burnt; it burns the whole amount received.
    pub burn_contract: String,
}

/// Converts `stsei_amount` of the second token into the first.
pub fn convert_stsei_bsei(
    state: &State,
    batch: &CurrentBatch,
    params: &Parameters,
    config: &Config,
    stsei_amount: u128,
    actual_total_bonded: u128,
    bsei_issued: u128,
    stsei_issued: u128,
) -> (r: Result<ConvertResponse, HubError>)
    ensures
        ({
            let o = convert_outcome(
                *state,
                *batch,
                *params,
                *config,
                true,
                stsei_amount as int,
                actual_total_bonded as int,
                bsei_issued as int,
                stsei_issued as int,
            );
            &&& o is Err ==> r == Err::<ConvertResponse, HubError>(o->Err_0)
            &&& o is Ok ==> r is Ok
            &&& r matches Ok(v) ==> o == Ok::<(State, int), HubError>((v.state, v.minted as int))
                && config.bsei_token_contract == Some(v.mint_contract)
                && config.stsei_token_contract == Some(v.burn_contract)
        }),
{
    let s = match slashing(state, batch, actual_total_bonded, bsei_issued, stsei_issued) {
        Ok(s) => s,
        Err(e) => return Err(e),
    };
    let burn_contract = match &config.stsei_token_contract {
        Some(c) => c.clone(),
        None => return Err(HubError::NotConfigured),
    };
    let mint_contract = match &config.bsei_token_contract {
        Some(c) => c.clone(),
        None => return Err(HubError::NotConfigured),
    };
    let denom_equiv = decimal_multiplication(stsei_amount, s.stsei_exchange_rate)?;
    let bsei_to_mint = decimal_division(denom_equiv, s.bsei_exchange_rate)?;
    let minted = apply_peg_fee(
        bsei_to_mint,
        s.bsei_exchange_rate,
        params.er_threshold,
        params.peg_recovery_fee,
        bsei_issued,
        batch.requested_bsei_with_fee,
        s.total_bond_bsei_amount,
        denom_equiv,
    )?;
    let mut s1 = s;
    if s1.total_bond_bsei_amount > u128::MAX - denom_equiv || s1.total_bond_stsei_amount
        < denom_equiv {
        return Err(HubError::Arithmetic);
    }
    s1.total_bond_bsei_amount = s1.total_bond_bsei_amount + denom_equiv;
    s1.total_bond_stsei_amount = s1.total_bond_stsei_amount - denom_equiv;
    if bsei_issued > u128::MAX - minted {
        return Err(HubError::Arithmetic);
    }
    s1.update_bsei_exchange_rate(bsei_issued + minted, batch.requested_bsei_with_fee)?;
    if stsei_amount > stsei_issued {
        return Err(HubError::Arithmetic);
    }
    s1.update_stsei_exchange_rate(stsei_issued - stsei_amount, batch.requested_stsei)?;
    Ok(ConvertResponse { state: s1, minted, mint_contract, burn_contract })
}

/// Converts `bsei_amount` of the first token into the second.
pub fn convert_bsei_stsei(
    state: &State,
    batch: &CurrentBatch,
    params: &Parameters,
    config: &Config,
    bsei_amount: u128,
    actual_total_bonded: u128,
    bsei_issued: u128,
    stsei_issued: u128,
) -> (r: Result<ConvertResponse, HubError>)
    ensures
        ({
            let o = convert_outcome(
                *state,
                *batch,
                *params,
                *config,
                false,
                bsei_amount as int,
                actual_total_bonded as int,
                bsei_issued as int,
                stsei_issued as int,
            );
            &&& o is Err ==> r == Err::<ConvertResponse, HubError>(o->Err_0)
            &&& o is Ok ==> r is Ok
            &&& r matches Ok(v) ==> o == Ok::<(State, int), HubError>((v.state, v.minted as int))
                && config.stsei_token_contract == Some(v.mint_contract)
                && config.bsei_token_contract == Some(v.burn_contract)
        }),
{
    let s = match slashing(state, batch, actual_total_bonded, bsei_issued, stsei_issued) {
        Ok(s) => s,
        Err(e) => return Err(e),
    };
    let mint_contract = match &config.stsei_token_contract {
        Some(c) => c.clone(),
        None => return Err(HubError::NotConfigured),
    };
    let burn_contract = match &config.bsei_token_contract {
        Some(c) => c.clone(),
        None => return Err(HubError::NotConfigured),
    };
    let net = apply_peg_fee(
        bsei_amount,
        s.bsei_exchange_rate,
        params.er_threshold,
        params.peg_recovery_fee,
        bsei_issued,
        batch.requested_bsei_with_fee,
        s.total_bond_bsei_amount,
        bsei_amount,
    )?;
    let denom_equiv = decimal_multiplication(net, s.bsei_exchange_rate)?;
    let minted = decimal_division(denom_equiv, s.stsei_exchange_rate)?;
    let mut s1 = s;
    if s1.total_bond_bsei_amount < denom_equiv || s1.total_bond_stsei_amount > u128::MAX
        - denom_equiv {
        return Err(HubError::Arithmetic);
    }
    s1.total_bond_bsei_amount = s1.total_bond_bsei_amount - denom_equiv;
    s1.total_bond_stsei_amount = s1.total_bond_stsei_amount + denom_equiv;
    if bsei_amount > bsei_issued {
        return Err(HubError::Arithmetic);
    }
    s1.update_bsei_exchange_rate(bsei_issued - bsei_amount, batch.requested_bsei_with_fee)?;
    if stsei_issued > u128::MAX - minted {
        return Err(HubError::Arithmetic);
    }
    s1.update_stsei_exchange_rate(stsei_issued + minted, batch.requested_stsei)?;
    Ok(ConvertResponse { state: s1, minted, mint_contract, burn_contract })
}

} // verus!
