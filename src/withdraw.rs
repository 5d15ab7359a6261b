//! Paying out the claims of released batches.
use vstd::prelude::*;

use crate::math::{decimal_multiplication, mul_floor};
use crate::settle::{history_wf, process_withdraw_rate, settle_outcome};
use crate::types::{HubError, State, UnbondHistory, UnbondWaitEntity};

verus! {

/// Whether batch `id` has been released.
pub open spec fn is_released(h: Seq<UnbondHistory>, id: u64) -> bool {
    1 <= id <= h.len() && h[id - 1].released
}

/// What a claim is paid at the batch's withdraw rates.
pub open spec fn claim_payout(w: UnbondWaitEntity, r: UnbondHistory) -> int {
    mul_floor(w.stsei_amount as int, r.stsei_withdraw_rate.atomics as int) + mul_floor(
        w.bsei_amount as int,
        r.bsei_withdraw_rate.atomics as int,
    )
}

/// What the claims of released batches in `list` are paid.
pub open spec fn finished_amount(list: Seq<(u64, UnbondWaitEntity)>, h: Seq<UnbondHistory>) -> int
    decreases list.len(),
{
    if list.len() == 0 {
        0
    } else {
        let e = list.last();
        finished_amount(list.drop_last(), h) + if is_released(h, e.0) {
            claim_payout(e.1, h[e.0 - 1])
        } else {
            0
        }
    }
}

/// The batch ids of `list` that have been released, in order.
pub open spec fn released_ids(list: Seq<(u64, UnbondWaitEntity)>, h: Seq<UnbondHistory>) -> Seq<u64>
    decreases list.len(),
{
    if list.len() == 0 {
        Seq::empty()
    } else {
        let rest = released_ids(list.drop_last(), h);
        if is_released(h, list.last().0) {
            rest.push(list.last().0)
        } else {
            rest
        }
    }
}

/// The claims of `list` whose batch is not yet released, in order.
pub open spec fn unreleased_claims(list: Seq<(u64, UnbondWaitEntity)>, h: Seq<UnbondHistory>) -> Seq<
    (u64, UnbondWaitEntity),
>
    decreases list.len(),
{
    if list.len() == 0 {
        Seq::empty()
    } else {
        let rest = unreleased_claims(list.drop_last(), h);
        if is_released(h, list.last().0) {
            rest
        } else {
            rest.push(list.last())
        }
    }
}

proof fn lemma_finished_prefix(list: Seq<(u64, UnbondWaitEntity)>, h: Seq<UnbondHistory>, k: int)
    requires
        0 <= k <= list.len(),
    ensures
        0 <= finished_amount(list.subrange(0, k), h) <= finished_amount(list, h),
    decreases list.len() - k,
{
    if k < list.len() {
        lemma_finished_prefix(list, h, k + 1);
        lemma_finished_non_negative(list.subrange(0, k), h);
        assert(list.subrange(0, k + 1).drop_last() == list.subrange(0, k));
        let e = list[k];
        if is_released(h, e.0) {
            lemma_payout_non_negative(e.1, h[e.0 - 1]);
        }
    } else {
        assert(list.subrange(0, k) == list);
        lemma_finished_non_negative(list, h);
    }
}

proof fn lemma_payout_non_negative(w: UnbondWaitEntity, r: UnbondHistory)
    ensures
        0 <= mul_floor(w.stsei_amount as int, r.stsei_withdraw_rate.atomics as int),
        0 <= mul_floor(w.bsei_amount as int, r.bsei_withdraw_rate.atomics as int),
{
    assert(0 <= w.stsei_amount as int * r.stsei_withdraw_rate.atomics as int) by (nonlinear_arith);
    assert(0 <= w.bsei_amount as int * r.bsei_withdraw_rate.atomics as int) by (nonlinear_arith);
}

proof fn lemma_finished_non_negative(list: Seq<(u64, UnbondWaitEntity)>, h: Seq<UnbondHistory>)
    ensures
        0 <= finished_amount(list, h),
    decreases list.len(),
{
    if list.len() > 0 {
        lemma_finished_non_negative(list.drop_last(), h);
        let e = list.last();
        if is_released(h, e.0) {
            lemma_payout_non_negative(e.1, h[e.0 - 1]);
        }
    }
}

/// What the user's claims in released batches are worth; the ids of those
/// batches come with it. Fails only when the sum leaves the `u128` range.
pub fn get_finished_amount(wait_list: &Vec<(u64, UnbondWaitEntity)>, history: &Vec<UnbondHistory>) -> (r:
    Result<(u128, Vec<u64>), HubError>)
    ensures
        r is Ok <==> finished_amount(wait_list@, history@) <= u128::MAX,
        r matches Ok(v) ==> v.0 == finished_amount(wait_list@, history@) && v.1@ == released_ids(
            wait_list@,
            history@,
        ),
        r matches Err(e) ==> e == HubError::Arithmetic,
{
    let (amount, ids, _kept) = finished_split(wait_list, history)?;
    Ok((amount, ids))
}

fn finished_split(wait_list: &Vec<(u64, UnbondWaitEntity)>, history: &Vec<UnbondHistory>) -> (r: Result<
    (u128, Vec<u64>, Vec<(u64, UnbondWaitEntity)>),
    HubError,
>)
    ensures
        r is Ok <==> finished_amount(wait_list@, history@) <= u128::MAX,
        r matches Ok(v) ==> v.0 == finished_amount(wait_list@, history@) && v.1@ == released_ids(
            wait_list@,
            history@,
        ) && v.2@ == unreleased_claims(wait_list@, history@),
        r matches Err(e) ==> e == HubError::Arithmetic,
{
    let ghost l = wait_list@;
    let ghost h = history@;
    let n = wait_list.len();
    let mut amount: u128 = 0;
    let mut ids: Vec<u64> = Vec::new();
    let mut kept: Vec<(u64, UnbondWaitEntity)> = Vec::new();
    let mut i: usize = 0;
    while i < n
        invariant
            l == wait_list@,
            h == history@,
            n == l.len(),
            i <= n,
            amount == finished_amount(l.subrange(0, i as int), h),
            ids@ == released_ids(l.subrange(0, i as int), h),
            kept@ == unreleased_claims(l.subrange(0, i as int), h),
        decreases n - i,
    {
        let ghost sub = l.subrange(0, i as int + 1);
        assert(sub.drop_last() == l.subrange(0, i as int));
        assert(sub.last() == l[i as int]);
        proof {
            lemma_finished_prefix(l, h, i as int + 1);
        }
        let (id, w) = wait_list[i];
        if id >= 1 && id <= history.len() as u64 && history[(id - 1) as usize].released {
            let rec = history[(id - 1) as usize];
            let st = match decimal_multiplication(w.stsei_amount, rec.stsei_withdraw_rate) {
                Ok(v) => v,
                Err(e) => {
                    assert(0 <= w.bsei_amount as int * rec.bsei_withdraw_rate.atomics as int) by (nonlinear_arith);
                    return Err(e);
                },
            };
            let bs = match decimal_multiplication(w.bsei_amount, rec.bsei_withdraw_rate) {
                Ok(v) => v,
                Err(e) => {
                    assert(0 <= w.stsei_amount as int * rec.stsei_withdraw_rate.atomics as int) by (nonlinear_arith);
                    return Err(e);
                },
            };
            if st > u128::MAX - bs || amount > u128::MAX - (st + bs) {
                return Err(HubError::Arithmetic);
            }
            amount = amount + (st + bs);
            ids.push(id);
        } else {
            kept.push((id, w));
        }
        i = i + 1;
    }
    assert(l.subrange(0, n as int) == l);
    Ok((amount, ids, kept))
}

/// The outcome of a withdrawal at `now`: settlement of what is due, then the
/// payout of the user's released claims, which must be positive and covered by
/// the hub's balance.
pub open spec fn withdraw_outcome(
    s: State,
    h: Seq<UnbondHistory>,
    list: Seq<(u64, UnbondWaitEntity)>,
    now: u64,
    unbonding_period: u64,
    hub_balance: int,
) -> Result<(State, Seq<UnbondHistory>, Seq<(u64, UnbondWaitEntity)>, int), HubError> {
    if now < unbonding_period {
        Err(HubError::Arithmetic)
    } else {
        match settle_outcome(s, h, (now - unbonding_period) as u64, hub_balance) {
            Err(e) => Err(e),
            Ok((s1, h1)) => {
                let amount = finished_amount(list, h1);
                if amount > u128::MAX {
                    Err(HubError::Arithmetic)
                } else if amount == 0 {
                    Err(HubError::Validation)
                } else if amount > hub_balance {
                    Err(HubError::Arithmetic)
                } else {
                    Ok(
                        (
                            State { prev_hub_balance: (hub_balance - amount) as u128, ..s1 },
                            h1,
                            unreleased_claims(list, h1),
                            amount,
                        ),
                    )
                }
            },
        }
    }
}

/// Settles what is due and pays the user the claims of released batches,
/// removing them from `wait_list`; returns the amount to send. Nothing
/// withdrawable is a refusal. All arguments are unchanged on error.
pub fn execute_withdraw_unbonded(
    state: &mut State,
    history: &mut Vec<UnbondHistory>,
    wait_list: &mut Vec<(u64, UnbondWaitEntity)>,
    now: u64,
    unbonding_period: u64,
    hub_balance: u128,
) -> (r: Result<u128, HubError>)
    requires
        history_wf(old(history)@),
    ensures
        history_wf(final(history)@),
        ({
            let o = withdraw_outcome(
                *old(state),
                old(history)@,
                old(wait_list)@,
                now,
                unbonding_period,
                hub_balance as int,
            );
            &&& o is Err ==> r == Err::<u128, HubError>(o->Err_0)
            &&& o is Ok ==> r is Ok
            &&& r matches Ok(v) ==> o == Ok::<
                (State, Seq<UnbondHistory>, Seq<(u64, UnbondWaitEntity)>, int),
                HubError,
            >((*final(state), final(history)@, final(wait_list)@, v as int))
            &&& r is Err ==> *final(state) == *old(state) && final(history)@ == old(history)@
                && final(wait_list)@ == old(wait_list)@
        }),
{
    if now < unbonding_period {
        return Err(HubError::Arithmetic);
    }
    let historical_time = now - unbonding_period;
    let mut s = *state;
    let mut h = history.clone();
    assert(h@ =~= history@);
    match process_withdraw_rate(&mut s, &mut h, historical_time, hub_balance) {
        Ok(()) => {},
        Err(e) => return Err(e),
    }
    let (amount, _ids, kept) = match finished_split(wait_list, &h) {
        Ok(v) => v,
        Err(e) => return Err(e),
    };
    if amount == 0 {
        return Err(HubError::Validation);
    }
    if amount > hub_balance {
        return Err(HubError::Arithmetic);
    }
    s.prev_hub_balance = hub_balance - amount;
    *state = s;
    *history = h;
    *wait_list = kept;
    Ok(amount)
}

/// What the claims in `list` on batches flushed before `block_time` are worth
/// at their batches' current withdraw rates, released or not.
pub open spec fn due_amount(list: Seq<(u64, UnbondWaitEntity)>, h: Seq<UnbondHistory>, block_time: u64) -> int
    decreases list.len(),
{
    if list.len() == 0 {
        0
    } else {
        let e = list.last();
        due_amount(list.drop_last(), h, block_time) + if 1 <= e.0 <= h.len() && h[e.0 - 1].time
            < block_time {
            claim_payout(e.1, h[e.0 - 1])
        } else {
            0
        }
    }
}

proof fn lemma_due_prefix(list: Seq<(u64, UnbondWaitEntity)>, h: Seq<UnbondHistory>, t: u64, k: int)
    requires
        0 <= k <= list.len(),
    ensures
        0 <= due_amount(list.subrange(0, k), h, t) <= due_amount(list, h, t),
    decreases list.len() - k,
{
    if k < list.len() {
        lemma_due_prefix(list, h, t, k + 1);
        lemma_due_non_negative(list.subrange(0, k), h, t);
        assert(list.subrange(0, k + 1).drop_last() == list.subrange(0, k));
        let e = list[k];
        if 1 <= e.0 <= h.len() {
            lemma_payout_non_negative(e.1, h[e.0 - 1]);
        }
    } else {
        assert(list.subrange(0, k) == list);
        lemma_due_non_negative(list, h, t);
    }
}

proof fn lemma_due_non_negative(list: Seq<(u64, UnbondWaitEntity)>, h: Seq<UnbondHistory>, t: u64)
    ensures
        0 <= due_amount(list, h, t),
    decreases list.len(),
{
    if list.len() > 0 {
        lemma_due_non_negative(list.drop_last(), h, t);
        let e = list.last();
        if 1 <= e.0 <= h.len() {
            lemma_payout_non_negative(e.1, h[e.0 - 1]);
        }
    }
}

/// What a user could withdraw from batches flushed before `block_time`, at
/// their current withdraw rates; a read-only estimate.
pub fn query_get_finished_amount(
    wait_list: &Vec<(u64, UnbondWaitEntity)>,
    history: &Vec<UnbondHistory>,
    block_time: u64,
) -> (r: Result<u128, HubError>)
    ensures
        r is Ok <==> due_amount(wait_list@, history@, block_time) <= u128::MAX,
        r matches Ok(v) ==> v == due_amount(wait_list@, history@, block_time),
        r matches Err(e) ==> e == HubError::Arithmetic,
{
    let ghost l = wait_list@;
    let ghost h = history@;
    let n = wait_list.len();
    let mut amount: u128 = 0;
    let mut i: usize = 0;
    while i < n
        invariant
            l == wait_list@,
            h == history@,
            n == l.len(),
            i <= n,
            amount == due_amount(l.subrange(0, i as int), h, block_time),
        decreases n - i,
    {
        let ghost sub = l.subrange(0, i as int + 1);
        assert(sub.drop_last() == l.subrange(0, i as int));
        assert(sub.last() == l[i as int]);
        proof {
            lemma_due_prefix(l, h, block_time, i as int + 1);
        }
        let (id, w) = wait_list[i];
        if id >= 1 && id <= history.len() as u64 && history[(id - 1) as usize].time < block_time {
            let rec = history[(id - 1) as usize];
            proof {
                lemma_payout_non_negative(w, rec);
            }
            let st = match decimal_multiplication(w.stsei_amount, rec.stsei_withdraw_rate) {
                Ok(v) => v,
                Err(e) => return Err(e),
            };
            let bs = match decimal_multiplication(w.bsei_amount, rec.bsei_withdraw_rate) {
                Ok(v) => v,
                Err(e) => return Err(e),
            };
            if st > u128::MAX - bs || amount > u128::MAX - (st + bs) {
                return Err(HubError::Arithmetic);
            }
            amount = amount + (st + bs);
        }
        i = i + 1;
    }
    assert(l.subrange(0, n as int) == l);
    Ok(amount)
}

} // verus!
