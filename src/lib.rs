//! Accounting engine of a liquid-staking hub: two derivative tokens backed by
//! one pool of staked principal, their exchange rates, the peg recovery fee,
//! and the batched, slashing-aware settlement of withdrawals.

pub mod math;
pub mod types;
pub mod rates;
pub mod fee;
pub mod registry;
pub mod bond;
pub mod unbond;
pub mod settle;
pub mod withdraw;
pub mod convert;
pub mod state;
pub mod laws;
pub mod contract;
