//! Unbond requests: burning a derivative, recording the claim in the open
//! batch, and flushing the batch into an undelegation once an epoch has passed.
use vstd::prelude::*;

use crate::fee::{apply_peg_fee, peg_fee, peg_fee_chargeable};
use crate::math::{decimal_multiplication, mul_floor};
use crate::rates::{rate_computable, slashed_state, slashing, slashing_succeeds, with_bsei_rate};
use crate::types::{
    Config, CurrentBatch, HubError, Parameters, State, UnbondHistory, UnbondType, UnbondWaitEntity,
};

verus! {

/// A user's pending claims, one entry per batch id.
pub open spec fn batch_ids_unique(list: Seq<(u64, UnbondWaitEntity)>) -> bool {
    forall|i: int, j: int|
        0 <= i < j < list.len() ==> #[trigger] list[i].0 != #[trigger] list[j].0
}

/// `w` with `amount` added to the claim on the token of `unbond_type`.
pub open spec fn added_claim(w: UnbondWaitEntity, amount: int, unbond_type: UnbondType) -> UnbondWaitEntity {
    match unbond_type {
        UnbondType::BSei => UnbondWaitEntity { bsei_amount: (w.bsei_amount + amount) as u128, ..w },
        UnbondType::StSei => UnbondWaitEntity { stsei_amount: (w.stsei_amount + amount) as u128, ..w },
    }
}

/// Whether `amount` can be added to the claim without leaving the `u128` range.
pub open spec fn claim_fits(w: UnbondWaitEntity, amount: int, unbond_type: UnbondType) -> bool {
    match unbond_type {
        UnbondType::BSei => w.bsei_amount + amount <= u128::MAX,
        UnbondType::StSei => w.stsei_amount + amount <= u128::MAX,
    }
}

/// Adds `amount` to the user's claim in batch `batch_id`, creating the entry
/// when the user has none there yet; unchanged on error.
pub fn store_unbond_wait_list(
    list: &mut Vec<(u64, UnbondWaitEntity)>,
    batch_id: u64,
    amount: u128,
    unbond_type: UnbondType,
) -> (r: Result<(), HubError>)
    requires
        batch_ids_unique(old(list)@),
    ensures
        batch_ids_unique(final(list)@),
        forall|k: int|
            0 <= k < old(list)@.len() && #[trigger] old(list)@[k].0 == batch_id ==> {
                &&& (r is Ok <==> claim_fits(old(list)@[k].1, amount as int, unbond_type))
                &&& r is Ok ==> final(list)@ == old(list)@.update(
                    k,
                    (batch_id, added_claim(old(list)@[k].1, amount as int, unbond_type)),
                )
            },
        (forall|k: int| 0 <= k < old(list)@.len() ==> #[trigger] old(list)@[k].0 != batch_id) ==> r
            is Ok && final(list)@ == old(list)@.push(
            (
                batch_id,
                added_claim(
                    UnbondWaitEntity { bsei_amount: 0, stsei_amount: 0 },
                    amount as int,
                    unbond_type,
                ),
            ),
        ),
        r is Err ==> final(list)@ == old(list)@,
        r matches Err(e) ==> e == HubError::Arithmetic,
{
    let n = list.len();
    let mut i: usize = 0;
    while i < n
        invariant
            n == list@.len(),
            i <= n,
            list@ == old(list)@,
            batch_ids_unique(old(list)@),
            forall|k: int| 0 <= k < i ==> #[trigger] list@[k].0 != batch_id,
        decreases n - i,
    {
        if list[i].0 == batch_id {
            let mut w = list[i].1;
            match unbond_type {
                UnbondType::BSei => {
                    if w.bsei_amount > u128::MAX - amount {
                        return Err(HubError::Arithmetic);
                    }
                    w.bsei_amount = w.bsei_amount + amount;
                },
                UnbondType::StSei => {
                    if w.stsei_amount > u128::MAX - amount {
                        return Err(HubError::Arithmetic);
                    }
                    w.stsei_amount = w.stsei_amount + amount;
                },
            }
            list.set(i, (batch_id, w));
            assert forall|k: int| 0 <= k < old(list)@.len() && #[trigger] old(list)@[k].0 == batch_id implies k == i by {
                if k < i {
                } else if k > i {
                    assert(old(list)@[i as int].0 != old(list)@[k].0);
                }
            }
            assert(batch_ids_unique(list@)) by {
                assert forall|a: int, b: int| 0 <= a < b < list@.len() implies #[trigger] list@[a].0 != #[trigger] list@[b].0 by {
                    assert(old(list)@[a].0 != old(list)@[b].0);
                }
            }
            return Ok(());
        }
        i = i + 1;
    }
    let w = match unbond_type {
        UnbondType::BSei => UnbondWaitEntity { bsei_amount: amount, stsei_amount: 0 },
        UnbondType::StSei => UnbondWaitEntity { bsei_amount: 0, stsei_amount: amount },
    };
    list.push((batch_id, w));
    assert(batch_ids_unique(list@)) by {
        assert forall|a: int, b: int| 0 <= a < b < list@.len() implies #[trigger] list@[a].0 != #[trigger] list@[b].0 by {
            if b < n {
                assert(old(list)@[a].0 != old(list)@[b].0);
            } else {
                assert(old(list)@[a].0 != batch_id);
            }
        }
    }
    Ok(())
}

/// What flushing the open batch does: the principal each token gives back at
/// the current rates leaves the bonded totals, a history record is written,
/// and a fresh, empty batch opens. Fails if either total would go negative.
pub open spec fn flush_outcome(s: State, batch: CurrentBatch, now: u64) -> Result<
    (State, CurrentBatch, UnbondHistory, int),
    HubError,
> {
    let st = mul_floor(batch.requested_stsei as int, s.stsei_exchange_rate.atomics as int);
    let bs = mul_floor(batch.requested_bsei_with_fee as int, s.bsei_exchange_rate.atomics as int);
    if st > u128::MAX || bs > u128::MAX || st + bs > u128::MAX || st > s.total_bond_stsei_amount
        || bs > s.total_bond_bsei_amount || batch.id == u64::MAX {
        Err(HubError::Arithmetic)
    } else {
        Ok(
            (
                State {
                    total_bond_stsei_amount: (s.total_bond_stsei_amount - st) as u128,
                    total_bond_bsei_amount: (s.total_bond_bsei_amount - bs) as u128,
                    last_unbonded_time: now,
                    ..s
                },
                CurrentBatch { id: (batch.id + 1) as u64, requested_bsei_with_fee: 0, requested_stsei: 0 },
                UnbondHistory {
                    batch_id: batch.id,
                    time: now,
                    stsei_amount: batch.requested_stsei,
                    stsei_applied_exchange_rate: s.stsei_exchange_rate,
                    stsei_withdraw_rate: s.stsei_exchange_rate,
                    bsei_amount: batch.requested_bsei_with_fee,
                    bsei_applied_exchange_rate: s.bsei_exchange_rate,
                    bsei_withdraw_rate: s.bsei_exchange_rate,
                    released: false,
                },
                st + bs,
            ),
        )
    }
}

/// Flushes the open batch at time `now`; returns its history record and the
/// amount of underlying coin to undelegate. Both arguments are unchanged on error.
pub fn process_undelegations(state: &mut State, current_batch: &mut CurrentBatch, now: u64) -> (r:
    Result<(UnbondHistory, u128), HubError>)
    ensures
        ({
            let o = flush_outcome(*old(state), *old(current_batch), now);
            &&& o is Err ==> r == Err::<(UnbondHistory, u128), HubError>(o->Err_0)
            &&& o is Err ==> *final(state) == *old(state) && *final(current_batch) == *old(current_batch)
            &&& r matches Ok(v) ==> o == Ok::<(State, CurrentBatch, UnbondHistory, int), HubError>(
                (*final(state), *final(current_batch), v.0, v.1 as int),
            )
            &&& o is Ok ==> r is Ok
        }),
{
    let stsei_undelegation = match decimal_multiplication(
        current_batch.requested_stsei,
        state.stsei_exchange_rate,
    ) {
        Ok(v) => v,
        Err(e) => return Err(e),
    };
    let bsei_undelegation = match decimal_multiplication(
        current_batch.requested_bsei_with_fee,
        state.bsei_exchange_rate,
    ) {
        Ok(v) => v,
        Err(e) => return Err(e),
    };
    if stsei_undelegation > u128::MAX - bsei_undelegation {
        return Err(HubError::Arithmetic);
    }
    if stsei_undelegation > state.total_bond_stsei_amount || bsei_undelegation
        > state.total_bond_bsei_amount || current_batch.id == u64::MAX {
        return Err(HubError::Arithmetic);
    }
    state.total_bond_stsei_amount = state.total_bond_stsei_amount - stsei_undelegation;
    state.total_bond_bsei_amount = state.total_bond_bsei_amount - bsei_undelegation;
    let history = UnbondHistory {
        batch_id: current_batch.id,
        time: now,
        stsei_amount: current_batch.requested_stsei,
        stsei_applied_exchange_rate: state.stsei_exchange_rate,
        stsei_withdraw_rate: state.stsei_exchange_rate,
        bsei_amount: current_batch.requested_bsei_with_fee,
        bsei_applied_exchange_rate: state.bsei_exchange_rate,
        bsei_withdraw_rate: state.bsei_exchange_rate,
        released: false,
    };
    current_batch.id = current_batch.id + 1;
    current_batch.requested_stsei = 0;
    current_batch.requested_bsei_with_fee = 0;
    state.last_unbonded_time = now;
    Ok((history, stsei_undelegation + bsei_undelegation))
}

/// What an unbond request records, before any flush: the claim added to the
/// open batch (net of the peg recovery fee for the first token), the batch and
/// the state. `s` is the state after the slashing check.
pub open spec fn request_outcome(
    s: State,
    batch: CurrentBatch,
    params: Parameters,
    unbond_type: UnbondType,
    amount: int,
    bsei_issued: int,
) -> Result<(State, CurrentBatch, int), HubError> {
    match unbond_type {
        UnbondType::BSei => {
            let rate = s.bsei_exchange_rate.atomics as int;
            let thr = params.er_threshold.atomics as int;
            let fee = params.peg_recovery_fee.atomics as int;
            let pending = batch.requested_bsei_with_fee as int;
            let bonded = s.total_bond_bsei_amount as int;
            if !peg_fee_chargeable(amount, rate, thr, fee, bsei_issued, pending, bonded, amount) {
                Err(HubError::Arithmetic)
            } else {
                let net = amount - peg_fee(amount, rate, thr, fee, bsei_issued, pending, bonded, amount);
                let requested = pending + net;
                if requested > u128::MAX || amount > bsei_issued || !rate_computable(
                    bonded,
                    bsei_issued - amount,
                    requested,
                ) {
                    Err(HubError::Arithmetic)
                } else {
                    Ok(
                        (
                            with_bsei_rate(s, bsei_issued - amount, requested),
                            CurrentBatch { requested_bsei_with_fee: requested as u128, ..batch },
                            net,
                        ),
                    )
                }
            }
        },
        UnbondType::StSei => {
            let requested = batch.requested_stsei + amount;
            if requested > u128::MAX {
                Err(HubError::Arithmetic)
            } else {
                Ok((s, CurrentBatch { requested_stsei: requested as u128, ..batch }, amount))
            }
        },
    }
}

/// The whole unbond request: slashing check, the request itself, and a flush
/// when more than an epoch has passed since the last one. The result holds the
/// new state and batch, the claim recorded, and the flushed record if any.
pub open spec fn unbond_outcome(
    state: State,
    batch: CurrentBatch,
    params: Parameters,
    unbond_type: UnbondType,
    amount: int,
    actual: int,
    bsei_issued: int,
    stsei_issued: int,
    now: u64,
) -> Result<(State, CurrentBatch, int, Option<(UnbondHistory, int)>), HubError> {
    if !slashing_succeeds(state, batch, actual, bsei_issued, stsei_issued) {
        Err(HubError::Arithmetic)
    } else {
        let s1 = slashed_state(state, batch, actual, bsei_issued, stsei_issued);
        match request_outcome(s1, batch, params, unbond_type, amount, bsei_issued) {
            Err(e) => Err(e),
            Ok((s2, b2, net)) => if now < s2.last_unbonded_time {
                Err(HubError::Arithmetic)
            } else if now - s2.last_unbonded_time > params.epoch_period {
                match flush_outcome(s2, b2, now) {
                    Err(e) => Err(e),
                    Ok((s3, b3, h, und)) => Ok((s3, b3, net, Some((h, und)))),
                }
            } else {
                Ok((s2, b2, net, None))
            }
        }
    }
}

/// The result of an accepted unbond request.
pub struct UnbondResponse {
    /// The ledger state to persist.
    pub state: State,
    /// The open batch to persist.
    pub current_batch: CurrentBatch,
    /// The claim recorded for the user, in tokens of the kind burnt.
    pub unbonded_amount: u128,
    /// The batch that was flushed and the amount to undelegate, if one was.
    pub flushed: Option<(UnbondHistory, u128)>,
    /// The token contract that burns the `amount` received.
    pub token_contract: String,
}

/// Handles `amount` tokens of `unbond_type` sent back by `sender`'s token
/// contract: records the claim in the user's wait list `wait_list` and in the
/// open batch, and flushes the batch when an epoch has passed. On error the
/// wait list is unchanged.
pub fn execute_unbond(
    state: &State,
    batch: &CurrentBatch,
    params: &Parameters,
    config: &Config,
    unbond_type: UnbondType,
    amount: u128,
    wait_list: &mut Vec<(u64, UnbondWaitEntity)>,
    actual_total_bonded: u128,
    bsei_issued: u128,
    stsei_issued: u128,
    now: u64,
) -> (r: Result<UnbondResponse, HubError>)
    requires
        batch_ids_unique(old(wait_list)@),
    ensures
        batch_ids_unique(final(wait_list)@),
        ({
            let o = unbond_outcome(
                *state,
                *batch,
                *params,
                unbond_type,
                amount as int,
                actual_total_bonded as int,
                bsei_issued as int,
                stsei_issued as int,
                now,
            );
            let token = match unbond_type {
                UnbondType::BSei => config.bsei_token_contract,
                UnbondType::StSei => config.stsei_token_contract,
            };
            &&& o is Err ==> r == Err::<UnbondResponse, HubError>(o->Err_0)
            &&& r matches Ok(v) ==> o == Ok::<
                (State, CurrentBatch, int, Option<(UnbondHistory, int)>),
                HubError,
            >(
                (
                    v.state,
                    v.current_batch,
                    v.unbonded_amount as int,
                    match v.flushed {
                        Some(f) => Some((f.0, f.1 as int)),
                        None => None,
                    },
                ),
            )
            &&& r matches Ok(v) ==> token == Some(v.token_contract)
            &&& (o is Ok && token is Some && forall|k: int|
                0 <= k < old(wait_list)@.len() && #[trigger] old(wait_list)@[k].0 == batch.id
                    ==> claim_fits(old(wait_list)@[k].1, o->Ok_0.2, unbond_type)) <==> r is Ok
            &&& r matches Ok(v) ==> forall|k: int|
                0 <= k < old(wait_list)@.len() && #[trigger] old(wait_list)@[k].0 == batch.id ==> final(wait_list)@
                    == old(wait_list)@.update(
                    k,
                    (batch.id, added_claim(old(wait_list)@[k].1, v.unbonded_amount as int, unbond_type)),
                )
            &&& r matches Ok(v) ==> (forall|k: int|
                0 <= k < old(wait_list)@.len() ==> #[trigger] old(wait_list)@[k].0 != batch.id)
                ==> final(wait_list)@ == old(wait_list)@.push(
                (
                    batch.id,
                    added_claim(
                        UnbondWaitEntity { bsei_amount: 0, stsei_amount: 0 },
                        v.unbonded_amount as int,
                        unbond_type,
                    ),
                ),
            )
            &&& r is Err ==> final(wait_list)@ == old(wait_list)@
        }),
{
    let s1 = match slashing(state, batch, actual_total_bonded, bsei_issued, stsei_issued) {
        Ok(s) => s,
        Err(e) => return Err(e),
    };
    let mut s2 = s1;
    let mut b2 = *batch;
    let net = match unbond_type {
        UnbondType::BSei => {
            let net = match apply_peg_fee(
                amount,
                s1.bsei_exchange_rate,
                params.er_threshold,
                params.peg_recovery_fee,
                bsei_issued,
                batch.requested_bsei_with_fee,
                s1.total_bond_bsei_amount,
                amount,
            ) {
                Ok(v) => v,
                Err(e) => return Err(e),
            };
            if b2.requested_bsei_with_fee > u128::MAX - net || amount > bsei_issued {
                return Err(HubError::Arithmetic);
            }
            b2.requested_bsei_with_fee = b2.requested_bsei_with_fee + net;
            match s2.update_bsei_exchange_rate(bsei_issued - amount, b2.requested_bsei_with_fee) {
                Ok(()) => {},
                Err(e) => return Err(e),
            }
            net
        },
        UnbondType::StSei => {
            if b2.requested_stsei > u128::MAX - amount {
                return Err(HubError::Arithmetic);
            }
            b2.requested_stsei = b2.requested_stsei + amount;
            amount
        },
    };
    if now < s2.last_unbonded_time {
        return Err(HubError::Arithmetic);
    }
    let mut flushed: Option<(UnbondHistory, u128)> = None;
    if now - s2.last_unbonded_time > params.epoch_period {
        match process_undelegations(&mut s2, &mut b2, now) {
            Ok(f) => {
                flushed = Some(f);
            },
            Err(e) => return Err(e),
        }
    }
    let token_contract = match unbond_type {
        UnbondType::BSei => &config.bsei_token_contract,
        UnbondType::StSei => &config.stsei_token_contract,
    };
    let token_contract = match token_contract {
        Some(t) => t.clone(),
        None => return Err(HubError::NotConfigured),
    };
    store_unbond_wait_list(wait_list, batch.id, net, unbond_type)?;
    Ok(UnbondResponse { state: s2, current_batch: b2, unbonded_amount: net, flushed, token_contract })
}

} // verus!
