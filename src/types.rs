//! The data that the hub keeps and the messages that it understands.
use vstd::prelude::*;

verus! {

/// Why an operation was refused. Every refusal leaves the ledger unchanged.
#[derive(Clone, Copy, Debug, PartialEq, Eq, Structural)]
pub enum HubError {
    /// The input has the wrong shape: wrong coins, a zero amount.
    Validation,
    /// The caller may not perform this operation.
    Unauthorized,
    /// A collaborator that the operation needs is not registered.
    NotConfigured,
    /// A quantity would become negative or leave its range.
    Arithmetic,
    /// The observed state contradicts the ledger.
    Invariant,
    /// The hub is paused.
    Paused,
}

} // verus!

verus! {

/// Which derivative a deposit mints, or a reward re-bonding that mints nothing.
#[derive(Clone, Copy, Debug, PartialEq, Eq, Structural)]
pub enum BondType {
    BSei,
    StSei,
    BondRewards,
}

/// Which derivative an unbond request burns.
#[derive(Clone, Copy, Debug, PartialEq, Eq, Structural)]
pub enum UnbondType {
    BSei,
    StSei,
}

/// What a token contract asks the hub to do with the tokens it forwards.
#[derive(Clone, Copy, Debug, PartialEq, Eq, Structural)]
pub enum Cw20HookMsg {
    Unbond {},
    Convert {},
}

/// A coin: an amount of one denomination.
#[derive(Clone, Debug)]
pub struct Coin {
    pub denom: String,
    pub amount: u128,
}

/// A validator and the amount the hub has delegated to it.
#[derive(Clone, Debug)]
pub struct ValidatorResponse {
    pub total_delegated: u128,
    pub address: String,
}

/// An entry of the validators registry.
#[derive(Clone, Debug)]
pub struct Validator {
    pub address: String,
}

/// The ledger's singleton record: both exchange rates, the principal bonded
/// for each token, the batch cursor and the last observed hub balance.
#[derive(Clone, Copy, Debug, PartialEq, Eq, Structural)]
pub struct State {
    pub bsei_exchange_rate: crate::math::Rate,
    pub stsei_exchange_rate: crate::math::Rate,
    pub total_bond_bsei_amount: u128,
    pub total_bond_stsei_amount: u128,
    pub last_index_modification: u64,
    pub prev_hub_balance: u128,
    pub last_unbonded_time: u64,
    pub last_processed_batch: u64,
}

/// The batch that is still collecting unbond requests.
#[derive(Clone, Copy, Debug, PartialEq, Eq, Structural)]
pub struct CurrentBatch {
    pub id: u64,
    pub requested_bsei_with_fee: u128,
    pub requested_stsei: u128,
}

/// A flushed batch: what was burnt of each token, the rate applied when it was
/// flushed, and the rate at which its claims are paid out.
#[derive(Clone, Copy, Debug, PartialEq, Eq, Structural)]
pub struct UnbondHistory {
    pub batch_id: u64,
    pub time: u64,
    pub bsei_amount: u128,
    pub bsei_applied_exchange_rate: crate::math::Rate,
    pub bsei_withdraw_rate: crate::math::Rate,
    pub stsei_amount: u128,
    pub stsei_applied_exchange_rate: crate::math::Rate,
    pub stsei_withdraw_rate: crate::math::Rate,
    pub released: bool,
}

/// One user's pending claim in one batch.
#[derive(Clone, Copy, Debug, PartialEq, Eq, Structural)]
pub struct UnbondWaitEntity {
    pub bsei_amount: u128,
    pub stsei_amount: u128,
}

/// The hub's tunable parameters.
#[derive(Clone, Debug)]
pub struct Parameters {
    pub epoch_period: u64,
    pub underlying_coin_denom: String,
    pub unbonding_period: u64,
    pub peg_recovery_fee: crate::math::Rate,
    pub er_threshold: crate::math::Rate,
    pub reward_denom: String,
    pub paused: Option<bool>,
}

/// Addresses of the collaborators; `None` while one is not registered.
#[derive(Clone, Debug)]
pub struct Config {
    pub creator: String,
    pub update_reward_index_addr: String,
    pub reward_dispatcher_contract: Option<String>,
    pub validators_registry_contract: Option<String>,
    pub bsei_token_contract: Option<String>,
    pub stsei_token_contract: Option<String>,
    pub airdrop_registry_contract: Option<String>,
    pub rewards_contract: Option<String>,
}

/// Read-only requests that the hub answers.
#[derive(Clone, Debug)]
pub enum QueryMsg {
    Config {},
    State {},
    CurrentBatch {},
    WithdrawableUnbonded { address: String },
    Parameters {},
    UnbondRequests { address: String },
    AllHistory { start_from: Option<u64>, limit: Option<u32> },
    NewOwner {},
}

/// Addresses handed to the hub when its code is upgraded.
#[derive(Clone, Debug)]
pub struct MigrateMsg {
    pub reward_dispatcher_contract: String,
    pub validators_registry_contract: String,
    pub stsei_token_contract: String,
    pub rewards_contract: String,
}

/// The owner that has been proposed and not yet accepted.
#[derive(Clone, Debug)]
pub struct NewOwnerResponse {
    pub new_owner: String,
}

/// What the hub is created with.
#[derive(Clone, Debug)]
pub struct InstantiateMsg {
    pub epoch_period: u64,
    pub underlying_coin_denom: String,
    pub unbonding_period: u64,
    pub peg_recovery_fee: crate::math::Rate,
    pub er_threshold: crate::math::Rate,
    pub reward_denom: String,
    pub update_reward_index_addr: String,
}

} // verus!
