//! Deposits of the underlying coin: minting a derivative against them.
use vstd::prelude::*;

use crate::fee::{apply_peg_fee, peg_fee, peg_fee_chargeable};
use crate::math::{decimal_division, mul_div_fits, ratio_floor, DECIMAL_FRACTIONAL};
use crate::rates::{
    rate_computable, slashed_state, slashing, slashing_succeeds, with_bsei_rate, with_stsei_rate,
};
use crate::registry::{calculate_delegations, delegation_of, sum_amounts, total_delegated};
use crate::types::{
    BondType, Coin, Config, CurrentBatch, HubError, Parameters, State, ValidatorResponse,
};

verus! {

/// The amount deposited: the one coin sent, if it is of `denom` and positive.
pub open spec fn payment_of(funds: Seq<Coin>, denom: Seq<char>) -> Option<u128> {
    if funds.len() == 1 && funds[0].denom@ == denom && funds[0].amount > 0 {
        Some(funds[0].amount)
    } else {
        None
    }
}

/// Checks the coins sent with a deposit and returns the amount deposited.
pub fn find_payment(funds: &Vec<Coin>, denom: &String) -> (r: Result<u128, HubError>)
    ensures
        funds@.len() > 1 ==> r == Err::<u128, HubError>(HubError::Validation),
        funds@.len() <= 1 ==> (r is Ok <==> payment_of(funds@, denom@) is Some),
        r matches Ok(v) ==> payment_of(funds@, denom@) == Some(v),
        r matches Err(e) ==> e == HubError::Validation,
{
    if funds.len() > 1 {
        return Err(HubError::Validation);
    }
    if funds.len() == 1 && funds[0].denom == *denom && funds[0].amount > 0 {
        Ok(funds[0].amount)
    } else {
        Err(HubError::Validation)
    }
}

/// What a deposit of `payment` mints, given the state after the slashing check
/// and the issued supply of the token minted.
pub open spec fn mint_of(
    s: State,
    batch: CurrentBatch,
    params: Parameters,
    bond_type: BondType,
    payment: int,
    supply: int,
) -> Result<int, HubError> {
    match bond_type {
        BondType::BSei => {
            let rate = s.bsei_exchange_rate.atomics as int;
            if !mul_div_fits(payment, DECIMAL_FRACTIONAL as int, rate) {
                Err(HubError::Arithmetic)
            } else {
                let raw = ratio_floor(payment, rate);
                let thr = params.er_threshold.atomics as int;
                let fee = params.peg_recovery_fee.atomics as int;
                let pending = batch.requested_bsei_with_fee as int;
                let bonded = s.total_bond_bsei_amount as int;
                if peg_fee_chargeable(raw, rate, thr, fee, supply, pending, bonded, payment) {
                    Ok(raw - peg_fee(raw, rate, thr, fee, supply, pending, bonded, payment))
                } else {
                    Err(HubError::Arithmetic)
                }
            }
        },
        BondType::StSei => {
            let rate = s.stsei_exchange_rate.atomics as int;
            if mul_div_fits(payment, DECIMAL_FRACTIONAL as int, rate) {
                Ok(ratio_floor(payment, rate))
            } else {
                Err(HubError::Arithmetic)
            }
        },
        BondType::BondRewards => Ok(0),
    }
}

/// The state once `payment` is added to the principal of the token it backs
/// and that token's rate is refreshed against `supply_after`.
pub open spec fn bonded_state(
    s: State,
    batch: CurrentBatch,
    bond_type: BondType,
    payment: int,
    supply_after: int,
) -> Result<State, HubError> {
    if bond_type == BondType::BSei {
        let bonded = s.total_bond_bsei_amount + payment;
        let s1 = State { total_bond_bsei_amount: bonded as u128, ..s };
        if bonded <= u128::MAX && rate_computable(
            bonded,
            supply_after,
            batch.requested_bsei_with_fee as int,
        ) {
            Ok(with_bsei_rate(s1, supply_after, batch.requested_bsei_with_fee as int))
        } else {
            Err(HubError::Arithmetic)
        }
    } else {
        let bonded = s.total_bond_stsei_amount + payment;
        let s1 = State { total_bond_stsei_amount: bonded as u128, ..s };
        if bonded <= u128::MAX && rate_computable(bonded, supply_after, batch.requested_stsei as int) {
            Ok(with_stsei_rate(s1, supply_after, batch.requested_stsei as int))
        } else {
            Err(HubError::Arithmetic)
        }
    }
}

/// The issued supply of the token that a deposit of `bond_type` mints.
pub open spec fn supply_for(bond_type: BondType, bsei_issued: int, stsei_issued: int) -> int {
    if bond_type == BondType::BSei {
        bsei_issued
    } else {
        stsei_issued
    }
}

/// The accounting of a deposit: the payment, the amount minted and the new
/// state; or the refusal, in the order the checks are made.
pub open spec fn bond_outcome(
    state: State,
    batch: CurrentBatch,
    params: Parameters,
    config: Config,
    bond_type: BondType,
    sender: Seq<char>,
    funds: Seq<Coin>,
    actual: int,
    bsei_issued: int,
    stsei_issued: int,
) -> Result<(State, int, int), HubError> {
    if config.reward_dispatcher_contract is None {
        Err(HubError::NotConfigured)
    } else if bond_type == BondType::BondRewards && sender
        != config.reward_dispatcher_contract.unwrap()@ {
        Err(HubError::Unauthorized)
    } else if funds.len() > 1 || payment_of(funds, params.underlying_coin_denom@) is None {
        Err(HubError::Validation)
    } else if !slashing_succeeds(state, batch, actual, bsei_issued, stsei_issued) {
        Err(HubError::Arithmetic)
    } else {
        let payment = payment_of(funds, params.underlying_coin_denom@).unwrap() as int;
        let s = slashed_state(state, batch, actual, bsei_issued, stsei_issued);
        let supply = supply_for(bond_type, bsei_issued, stsei_issued);
        match mint_of(s, batch, params, bond_type, payment, supply) {
            Err(e) => Err(e),
            Ok(mint) => if supply + mint > u128::MAX {
                Err(HubError::Arithmetic)
            } else {
                match bonded_state(s, batch, bond_type, payment, supply + mint) {
                    Err(e) => Err(e),
                    Ok(s2) => Ok((s2, payment, mint)),
                }
            },
        }
    }
}

/// The result of an accepted deposit.
pub struct BondResponse {
    /// The ledger state to persist.
    pub state: State,
    /// The amount of underlying coin deposited.
    pub payment: u128,
    /// The amount of derivative minted to the depositor.
    pub mint_amount: u128,
    /// The token contract that mints; `None` when rewards are re-bonded.
    pub token_contract: Option<String>,
    /// The amount to delegate to each validator, in the order given; they add up
    /// to the payment.
    pub delegations: Vec<u128>,
}

/// Accepts a deposit. `actual_total_bonded` is what is really delegated,
/// `bsei_issued` and `stsei_issued` the tokens' issued supplies, and
/// `validators` the registry's delegation targets.
pub fn execute_bond(
    state: &State,
    batch: &CurrentBatch,
    params: &Parameters,
    config: &Config,
    bond_type: BondType,
    sender: &String,
    funds: &Vec<Coin>,
    actual_total_bonded: u128,
    bsei_issued: u128,
    stsei_issued: u128,
    validators: &Vec<ValidatorResponse>,
) -> (r: Result<BondResponse, HubError>)
    ensures
        ({
            let o = bond_outcome(
                *state,
                *batch,
                *params,
                *config,
                bond_type,
                sender@,
                funds@,
                actual_total_bonded as int,
                bsei_issued as int,
                stsei_issued as int,
            );
            &&& o is Err ==> r == Err::<BondResponse, HubError>(o->Err_0)
            &&& r matches Ok(v) ==> o == Ok::<(State, int, int), HubError>(
                (v.state, v.payment as int, v.mint_amount as int),
            )
            &&& (o is Ok && config.validators_registry_contract is Some && validators@.len() > 0
                && total_delegated(validators@) + o->Ok_0.1 <= u128::MAX && (bond_type
                == BondType::BSei ==> config.bsei_token_contract is Some) && (bond_type
                == BondType::StSei ==> config.stsei_token_contract is Some)) <==> r is Ok
            &&& r matches Ok(v) ==> v.delegations@.len() == validators@.len() && sum_amounts(
                v.delegations@,
            ) == v.payment
            &&& r matches Ok(v) ==> forall|j: int|
                0 <= j < v.delegations@.len() ==> #[trigger] v.delegations@[j] == delegation_of(
                    validators@,
                    v.payment as int,
                    j,
                )
            &&& r matches Ok(v) ==> (v.token_contract is None <==> bond_type == BondType::BondRewards)
            &&& r matches Ok(v) ==> (bond_type == BondType::BSei ==> v.token_contract
                == config.bsei_token_contract)
            &&& r matches Ok(v) ==> (bond_type == BondType::StSei ==> v.token_contract
                == config.stsei_token_contract)
        }),
{
    let dispatcher = match &config.reward_dispatcher_contract {
        Some(d) => d,
        None => return Err(HubError::NotConfigured),
    };
    if bond_type == BondType::BondRewards && *sender != *dispatcher {
        return Err(HubError::Unauthorized);
    }
    let payment = find_payment(funds, &params.underlying_coin_denom)?;
    let s = match slashing(state, batch, actual_total_bonded, bsei_issued, stsei_issued) {
        Ok(s) => s,
        Err(e) => return Err(e),
    };
    let total_supply = if bond_type == BondType::BSei {
        bsei_issued
    } else {
        stsei_issued
    };
    let mint_amount: u128 = match bond_type {
        BondType::BSei => {
            let raw = decimal_division(payment, s.bsei_exchange_rate)?;
            apply_peg_fee(
                raw,
                s.bsei_exchange_rate,
                params.er_threshold,
                params.peg_recovery_fee,
                total_supply,
                batch.requested_bsei_with_fee,
                s.total_bond_bsei_amount,
                payment,
            )?
        },
        BondType::StSei => decimal_division(payment, s.stsei_exchange_rate)?,
        BondType::BondRewards => 0,
    };
    if total_supply > u128::MAX - mint_amount {
        return Err(HubError::Arithmetic);
    }
    let supply_after = total_supply + mint_amount;
    let mut s2 = s;
    if bond_type == BondType::BSei {
        if s2.total_bond_bsei_amount > u128::MAX - payment {
            return Err(HubError::Arithmetic);
        }
        s2.total_bond_bsei_amount = s2.total_bond_bsei_amount + payment;
        s2.update_bsei_exchange_rate(supply_after, batch.requested_bsei_with_fee)?;
    } else {
        if s2.total_bond_stsei_amount > u128::MAX - payment {
            return Err(HubError::Arithmetic);
        }
        s2.total_bond_stsei_amount = s2.total_bond_stsei_amount + payment;
        s2.update_stsei_exchange_rate(supply_after, batch.requested_stsei)?;
    }
    if config.validators_registry_contract.is_none() {
        return Err(HubError::NotConfigured);
    }
    let (_remaining, delegations) = calculate_delegations(payment, validators)?;
    let token_contract = match bond_type {
        BondType::BSei => match &config.bsei_token_contract {
            Some(t) => Some(t.clone()),
            None => return Err(HubError::NotConfigured),
        },
        BondType::StSei => match &config.stsei_token_contract {
            Some(t) => Some(t.clone()),
            None => return Err(HubError::NotConfigured),
        },
        BondType::BondRewards => None,
    };
    Ok(BondResponse { state: s2, payment, mint_amount, token_contract, delegations })
}

} // verus!
