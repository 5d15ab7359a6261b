//! Creating the hub and the checks that guard its entry points.
use vstd::prelude::*;

use crate::math::{Rate, DECIMAL_FRACTIONAL};
use crate::types::{
    Coin, Config, CurrentBatch, HubError, InstantiateMsg, NewOwnerResponse, Parameters, State,
};

verus! {

/// Creates the hub at time `now` for `sender`: both rates at one, nothing
/// bonded, the first batch open with id one, and no collaborator registered.
/// A peg recovery fee above one is refused; a threshold above one is capped.
pub fn instantiate(sender: String, now: u64, msg: InstantiateMsg) -> (r: Result<
    (Config, Parameters, State, CurrentBatch),
    HubError,
>)
    ensures
        msg.peg_recovery_fee.atomics > DECIMAL_FRACTIONAL <==> r == Err::<
            (Config, Parameters, State, CurrentBatch),
            HubError,
        >(HubError::Validation),
        msg.peg_recovery_fee.atomics <= DECIMAL_FRACTIONAL ==> r is Ok,
        r matches Ok(v) ==> {
            &&& v.0.creator == sender
            &&& v.0.update_reward_index_addr == msg.update_reward_index_addr
            &&& v.0.reward_dispatcher_contract is None
            &&& v.0.validators_registry_contract is None
            &&& v.0.bsei_token_contract is None
            &&& v.0.stsei_token_contract is None
            &&& v.0.airdrop_registry_contract is None
            &&& v.0.rewards_contract is None
            &&& v.1.epoch_period == msg.epoch_period
            &&& v.1.underlying_coin_denom == msg.underlying_coin_denom
            &&& v.1.unbonding_period == msg.unbonding_period
            &&& v.1.peg_recovery_fee == msg.peg_recovery_fee
            &&& v.1.er_threshold.atomics == if msg.er_threshold.atomics < DECIMAL_FRACTIONAL {
                msg.er_threshold.atomics
            } else {
                DECIMAL_FRACTIONAL
            }
            &&& v.1.reward_denom == msg.reward_denom
            &&& v.1.paused == Some(false)
            &&& v.2 == (State {
                bsei_exchange_rate: Rate { atomics: DECIMAL_FRACTIONAL },
                stsei_exchange_rate: Rate { atomics: DECIMAL_FRACTIONAL },
                total_bond_bsei_amount: 0,
                total_bond_stsei_amount: 0,
                last_index_modification: now,
                prev_hub_balance: 0,
                last_unbonded_time: now,
                last_processed_batch: 0,
            })
            &&& v.3 == (CurrentBatch { id: 1, requested_bsei_with_fee: 0, requested_stsei: 0 })
        },
{
    if msg.peg_recovery_fee.atomics > DECIMAL_FRACTIONAL {
        return Err(HubError::Validation);
    }
    let config = Config {
        creator: sender,
        update_reward_index_addr: msg.update_reward_index_addr,
        reward_dispatcher_contract: None,
        validators_registry_contract: None,
        bsei_token_contract: None,
        stsei_token_contract: None,
        airdrop_registry_contract: None,
        rewards_contract: None,
    };
    let state = State {
        bsei_exchange_rate: Rate::one(),
        stsei_exchange_rate: Rate::one(),
        total_bond_bsei_amount: 0,
        total_bond_stsei_amount: 0,
        last_index_modification: now,
        prev_hub_balance: 0,
        last_unbonded_time: now,
        last_processed_batch: 0,
    };
    let threshold = if msg.er_threshold.atomics < DECIMAL_FRACTIONAL {
        msg.er_threshold
    } else {
        Rate::one()
    };
    let params = Parameters {
        epoch_period: msg.epoch_period,
        underlying_coin_denom: msg.underlying_coin_denom,
        unbonding_period: msg.unbonding_period,
        peg_recovery_fee: msg.peg_recovery_fee,
        er_threshold: threshold,
        reward_denom: msg.reward_denom,
        paused: Some(false),
    };
    let batch = CurrentBatch { id: 1, requested_bsei_with_fee: 0, requested_stsei: 0 };
    Ok((config, params, state, batch))
}

/// Refuses user operations while the hub is paused.
pub fn check_not_paused(params: &Parameters) -> (r: Result<(), HubError>)
    ensures
        r is Err <==> params.paused == Some(true),
        r matches Err(e) ==> e == HubError::Paused,
{
    match params.paused {
        Some(true) => Err(HubError::Paused),
        _ => Ok(()),
    }
}

/// Lets only the validators registry move delegations between validators;
/// hands back the redelegations to perform, as `(destination, coin)`.
pub fn execute_redelegate_proxy(
    config: &Config,
    sender: &String,
    redelegations: Vec<(String, Coin)>,
) -> (r: Result<Vec<(String, Coin)>, HubError>)
    ensures
        config.validators_registry_contract is None ==> r == Err::<Vec<(String, Coin)>, HubError>(
            HubError::NotConfigured,
        ),
        config.validators_registry_contract matches Some(reg) ==> (reg@ == sender@ <==> r is Ok),
        config.validators_registry_contract matches Some(reg) && reg@ != sender@ ==> r == Err::<
            Vec<(String, Coin)>,
            HubError,
        >(HubError::Unauthorized),
        r matches Ok(v) ==> v@ == redelegations@,
{
    let registry = match &config.validators_registry_contract {
        Some(r) => r,
        None => return Err(HubError::NotConfigured),
    };
    if *sender != *registry {
        return Err(HubError::Unauthorized);
    }
    Ok(redelegations)
}

/// Prepares a reward round at time `now`: the reward dispatcher must be
/// registered, and the airdrop registry too when airdrop hooks are given.
/// Returns the state with the time of the round recorded; its bonded totals
/// are what the dispatcher splits the rewards by.
pub fn execute_update_global(state: &State, config: &Config, has_airdrop_hooks: bool, now: u64) -> (r:
    Result<State, HubError>)
    ensures
        r is Ok <==> config.reward_dispatcher_contract is Some && (has_airdrop_hooks
            ==> config.airdrop_registry_contract is Some),
        r matches Ok(s) ==> s == (State { last_index_modification: now, ..*state }),
        r matches Err(e) ==> e == HubError::NotConfigured,
{
    if config.reward_dispatcher_contract.is_none() {
        return Err(HubError::NotConfigured);
    }
    if has_airdrop_hooks && config.airdrop_registry_contract.is_none() {
        return Err(HubError::NotConfigured);
    }
    let mut s = *state;
    s.last_index_modification = now;
    Ok(s)
}

/// `new` when given, else `old`.
pub open spec fn replaced<T>(old: Option<T>, new: Option<T>) -> Option<T> {
    match new {
        Some(v) => Some(v),
        None => old,
    }
}

fn replace_addr(old: &Option<String>, new: Option<String>) -> (r: Option<String>)
    ensures
        r == replaced(*old, new),
{
    match new {
        Some(v) => Some(v),
        None => old.clone(),
    }
}

/// Registers collaborators; only the owner may. Each address given replaces
/// the registered one, the others stay.
pub fn execute_update_config(
    config: &Config,
    sender: &String,
    reward_dispatcher_contract: Option<String>,
    validators_registry_contract: Option<String>,
    bsei_token_contract: Option<String>,
    stsei_token_contract: Option<String>,
    airdrop_registry_contract: Option<String>,
    rewards_contract: Option<String>,
    update_reward_index_addr: Option<String>,
) -> (r: Result<Config, HubError>)
    ensures
        r is Err <==> sender@ != config.creator@,
        r matches Err(e) ==> e == HubError::Unauthorized,
        r matches Ok(c) ==> {
            &&& c.creator == config.creator
            &&& c.reward_dispatcher_contract == replaced(
                config.reward_dispatcher_contract,
                reward_dispatcher_contract,
            )
            &&& c.validators_registry_contract == replaced(
                config.validators_registry_contract,
                validators_registry_contract,
            )
            &&& c.bsei_token_contract == replaced(config.bsei_token_contract, bsei_token_contract)
            &&& c.stsei_token_contract == replaced(config.stsei_token_contract, stsei_token_contract)
            &&& c.airdrop_registry_contract == replaced(
                config.airdrop_registry_contract,
                airdrop_registry_contract,
            )
            &&& c.rewards_contract == replaced(config.rewards_contract, rewards_contract)
            &&& Some(c.update_reward_index_addr) == replaced(
                Some(config.update_reward_index_addr),
                update_reward_index_addr,
            )
        },
{
    if *sender != config.creator {
        return Err(HubError::Unauthorized);
    }
    let index_addr = match update_reward_index_addr {
        Some(a) => a,
        None => config.update_reward_index_addr.clone(),
    };
    Ok(Config {
        creator: config.creator.clone(),
        update_reward_index_addr: index_addr,
        reward_dispatcher_contract: replace_addr(
            &config.reward_dispatcher_contract,
            reward_dispatcher_contract,
        ),
        validators_registry_contract: replace_addr(
            &config.validators_registry_contract,
            validators_registry_contract,
        ),
        bsei_token_contract: replace_addr(&config.bsei_token_contract, bsei_token_contract),
        stsei_token_contract: replace_addr(&config.stsei_token_contract, stsei_token_contract),
        airdrop_registry_contract: replace_addr(
            &config.airdrop_registry_contract,
            airdrop_registry_contract,
        ),
        rewards_contract: replace_addr(&config.rewards_contract, rewards_contract),
    })
}

/// Changes the hub's parameters; only the owner may. A peg recovery fee above
/// one is refused and a threshold above one is capped, as at creation.
pub fn execute_update_params(
    params: &Parameters,
    config: &Config,
    sender: &String,
    epoch_period: Option<u64>,
    unbonding_period: Option<u64>,
    peg_recovery_fee: Option<Rate>,
    er_threshold: Option<Rate>,
    paused: Option<bool>,
) -> (r: Result<Parameters, HubError>)
    ensures
        sender@ != config.creator@ ==> r == Err::<Parameters, HubError>(HubError::Unauthorized),
        sender@ == config.creator@ ==> (r is Ok <==> !(peg_recovery_fee matches Some(f)
            && f.atomics > DECIMAL_FRACTIONAL)),
        r matches Err(e) ==> (e == HubError::Unauthorized || e == HubError::Validation),
        r matches Ok(p) ==> {
            &&& Some(p.epoch_period) == replaced(Some(params.epoch_period), epoch_period)
            &&& Some(p.unbonding_period) == replaced(Some(params.unbonding_period), unbonding_period)
            &&& Some(p.peg_recovery_fee) == replaced(Some(params.peg_recovery_fee), peg_recovery_fee)
            &&& p.er_threshold == match er_threshold {
                Some(t) => if t.atomics < DECIMAL_FRACTIONAL {
                    t
                } else {
                    Rate { atomics: DECIMAL_FRACTIONAL }
                },
                None => params.er_threshold,
            }
            &&& p.paused == replaced(params.paused, paused)
            &&& p.underlying_coin_denom == params.underlying_coin_denom
            &&& p.reward_denom == params.reward_denom
        },
{
    if *sender != config.creator {
        return Err(HubError::Unauthorized);
    }
    let fee = match peg_recovery_fee {
        Some(f) => {
            if f.atomics > DECIMAL_FRACTIONAL {
                return Err(HubError::Validation);
            }
            f
        },
        None => params.peg_recovery_fee,
    };
    let threshold = match er_threshold {
        Some(t) => if t.atomics < DECIMAL_FRACTIONAL {
            t
        } else {
            Rate::one()
        },
        None => params.er_threshold,
    };
    Ok(Parameters {
        epoch_period: match epoch_period {
            Some(v) => v,
            None => params.epoch_period,
        },
        underlying_coin_denom: params.underlying_coin_denom.clone(),
        unbonding_period: match unbonding_period {
            Some(v) => v,
            None => params.unbonding_period,
        },
        peg_recovery_fee: fee,
        er_threshold: threshold,
        reward_denom: params.reward_denom.clone(),
        paused: match paused {
            Some(v) => Some(v),
            None => params.paused,
        },
    })
}

/// Proposes a new owner; only the owner may. Returns the proposed owner.
pub fn set_new_owner(config: &Config, sender: &String, new_owner: String) -> (r: Result<
    NewOwnerResponse,
    HubError,
>)
    ensures
        r is Err <==> sender@ != config.creator@,
        r matches Err(e) ==> e == HubError::Unauthorized,
        r matches Ok(o) ==> o.new_owner == new_owner,
{
    if *sender != config.creator {
        return Err(HubError::Unauthorized);
    }
    Ok(NewOwnerResponse { new_owner })
}

/// The proposed owner takes over; anyone else is refused, as is everyone while
/// no owner is proposed.
pub fn accept_ownership(config: &Config, sender: &String, proposed: &Option<NewOwnerResponse>) -> (r:
    Result<Config, HubError>)
    ensures
        r is Ok <==> (proposed matches Some(p) && p.new_owner@ == sender@),
        r matches Err(e) ==> e == HubError::Unauthorized,
        r matches Ok(c) ==> c.creator == *sender && c.reward_dispatcher_contract
            == config.reward_dispatcher_contract && c.validators_registry_contract
            == config.validators_registry_contract && c.bsei_token_contract
            == config.bsei_token_contract && c.stsei_token_contract == config.stsei_token_contract
            && c.airdrop_registry_contract == config.airdrop_registry_contract
            && c.rewards_contract == config.rewards_contract && c.update_reward_index_addr
            == config.update_reward_index_addr,
{
    let p = match proposed {
        Some(p) => p,
        None => return Err(HubError::Unauthorized),
    };
    if p.new_owner != *sender {
        return Err(HubError::Unauthorized);
    }
    Ok(Config {
        creator: sender.clone(),
        update_reward_index_addr: config.update_reward_index_addr.clone(),
        reward_dispatcher_contract: config.reward_dispatcher_contract.clone(),
        validators_registry_contract: config.validators_registry_contract.clone(),
        bsei_token_contract: config.bsei_token_contract.clone(),
        stsei_token_contract: config.stsei_token_contract.clone(),
        airdrop_registry_contract: config.airdrop_registry_contract.clone(),
        rewards_contract: config.rewards_contract.clone(),
    })
}

} // verus!
