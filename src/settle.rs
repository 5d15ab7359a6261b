//! Settlement of flushed batches: the underlying coin that really came back is
//! shared out over the batches whose unbonding period has ended, and each gets
//! its final withdraw rate. Rounding always favours the hub.
use vstd::prelude::*;

use crate::math::{decimal_multiplication, mul_div, mul_floor, ratio_floor, Rate, DECIMAL_FRACTIONAL};
use crate::types::{HubError, State, UnbondHistory};

verus! {

/// The history holds the batches in order: the record at index `k` is batch `k + 1`.
pub open spec fn history_wf(h: Seq<UnbondHistory>) -> bool {
    forall|k: int| 0 <= k < h.len() ==> #[trigger] h[k].batch_id == k + 1
}

/// One past the last record, from index `start` on, that is due by `time` and
/// not yet released: the window that a settlement covers.
pub open spec fn window_end(h: Seq<UnbondHistory>, start: int, time: u64) -> int
    decreases h.len() - start,
{
    if start < 0 || start >= h.len() || h[start].time > time || h[start].released {
        start
    } else {
        window_end(h, start + 1, time)
    }
}

/// What the records in `[start, end)` expect back for the first token, at
/// their current withdraw rates.
pub open spec fn expected_bsei(h: Seq<UnbondHistory>, start: int, end: int) -> int
    decreases end - start,
{
    if end <= start {
        0
    } else {
        expected_bsei(h, start, end - 1) + mul_floor(
            h[end - 1].bsei_amount as int,
            h[end - 1].bsei_withdraw_rate.atomics as int,
        )
    }
}

/// What the records in `[start, end)` expect back for the second token.
pub open spec fn expected_stsei(h: Seq<UnbondHistory>, start: int, end: int) -> int
    decreases end - start,
{
    if end <= start {
        0
    } else {
        expected_stsei(h, start, end - 1) + mul_floor(
            h[end - 1].stsei_amount as int,
            h[end - 1].stsei_withdraw_rate.atomics as int,
        )
    }
}

/// The part of `actual` that goes to the first token: in proportion to what
/// each token expects, the second token's share being rounded down first.
pub open spec fn bsei_share(actual: int, bsei: int, stsei: int) -> int {
    if bsei + stsei > 0 {
        mul_floor(actual, DECIMAL_FRACTIONAL as int - ratio_floor(stsei, stsei + bsei))
    } else {
        0
    }
}

/// A batch's exact pro-rata part of `magnitude`, floored: what it expects
/// over what the whole window expects for the token.
pub open spec fn batch_share(amount: int, rate: int, total: int, magnitude: int) -> int {
    if total != 0 {
        mul_floor(amount, rate) * magnitude / total
    } else {
        0
    }
}

/// What a batch gets of the token's result: what it expected, less its share
/// of the loss `slashed` rounded up by one unit, or plus its share of a gain
/// (`slashed` negative) rounded down by one unit; never less than nothing.
pub open spec fn batch_cap(amount: int, rate: int, total: int, slashed: int) -> int {
    let expected = mul_floor(amount, rate);
    let magnitude = if slashed < 0 {
        -slashed
    } else {
        slashed
    };
    let share = batch_share(amount, rate, total, magnitude);
    if slashed < 0 {
        expected + if share > 1 {
            share - 1
        } else {
            0
        }
    } else {
        let rounded = if magnitude != 0 {
            share + 1
        } else {
            share
        };
        if expected >= rounded {
            expected - rounded
        } else {
            0
        }
    }
}

/// The final withdraw rate of one token of one batch, in atomics: what the
/// batch gets over what it burnt; the old rate for a batch that burnt none of
/// the token; `None` when a step leaves the representable range.
pub open spec fn new_withdraw_rate(amount: int, rate: int, total: int, slashed: int) -> Option<int> {
    let expected = mul_floor(amount, rate);
    let magnitude = if slashed < 0 {
        -slashed
    } else {
        slashed
    };
    let share = batch_share(amount, rate, total, magnitude);
    let actual = batch_cap(amount, rate, total, slashed);
    if expected > u128::MAX || share > u128::MAX || actual > u128::MAX {
        None
    } else if amount == 0 {
        Some(rate)
    } else if ratio_floor(actual, amount) > u128::MAX {
        None
    } else {
        Some(ratio_floor(actual, amount))
    }
}

/// Recomputes one token's withdraw rate for one batch; see `new_withdraw_rate`.
/// `slashed_magnitude` and `gained` give the signed loss.
pub fn calculate_new_withdraw_rate(
    amount: u128,
    withdraw_rate: Rate,
    total_unbonded_amount: u128,
    slashed_magnitude: u128,
    gained: bool,
) -> (r: Result<Rate, HubError>)
    ensures
        ({
            let slashed = if gained {
                -(slashed_magnitude as int)
            } else {
                slashed_magnitude as int
            };
            let o = new_withdraw_rate(
                amount as int,
                withdraw_rate.atomics as int,
                total_unbonded_amount as int,
                slashed,
            );
            &&& r is Ok <==> o is Some
            &&& r matches Ok(v) ==> o == Some(v.atomics as int)
            &&& r matches Err(e) ==> e == HubError::Arithmetic
        }),
{
    let expected = decimal_multiplication(amount, withdraw_rate)?;
    let share = if total_unbonded_amount != 0 {
        match mul_div(expected, slashed_magnitude, total_unbonded_amount) {
            Some(v) => v,
            None => return Err(HubError::Arithmetic),
        }
    } else {
        0
    };
    proof {
        if slashed_magnitude == 0 && total_unbonded_amount != 0 {
            let e = expected as int;
            assert(e * 0 == 0);
            assert(0int / (total_unbonded_amount as int) == 0);
        }
    }
    let actual = if gained {
        let bonus = if share > 1 {
            share - 1
        } else {
            0
        };
        if expected > u128::MAX - bonus {
            return Err(HubError::Arithmetic);
        }
        expected + bonus
    } else {
        if slashed_magnitude == 0 {
            expected
        } else if expected > share {
            expected - share - 1
        } else {
            0
        }
    };
    if amount == 0 {
        return Ok(withdraw_rate);
    }
    Rate::from_ratio(actual, amount)
}

/// The first token's loss over the window when `actual` came back.
pub open spec fn bsei_slashed(actual: int, bsei: int, stsei: int) -> int {
    bsei - bsei_share(actual, bsei, stsei)
}

/// The second token's loss over the window when `actual` came back.
pub open spec fn stsei_slashed(actual: int, bsei: int, stsei: int) -> int {
    stsei - (actual - bsei_share(actual, bsei, stsei))
}

/// A record once settled against the window's totals and `actual`.
pub open spec fn settled_record(r: UnbondHistory, bsei: int, stsei: int, actual: int) -> Option<
    UnbondHistory,
> {
    let st = new_withdraw_rate(
        r.stsei_amount as int,
        r.stsei_withdraw_rate.atomics as int,
        stsei,
        stsei_slashed(actual, bsei, stsei),
    );
    let bs = new_withdraw_rate(
        r.bsei_amount as int,
        r.bsei_withdraw_rate.atomics as int,
        bsei,
        bsei_slashed(actual, bsei, stsei),
    );
    if st is Some && bs is Some {
        Some(
            UnbondHistory {
                stsei_withdraw_rate: Rate { atomics: st.unwrap() as u128 },
                bsei_withdraw_rate: Rate { atomics: bs.unwrap() as u128 },
                released: true,
                ..r
            },
        )
    } else {
        None
    }
}

/// Whether the window `[start, end)` can be settled with `actual` received.
pub open spec fn window_settles(h: Seq<UnbondHistory>, start: int, end: int, actual: int) -> bool {
    let bsei = expected_bsei(h, start, end);
    let stsei = expected_stsei(h, start, end);
    &&& bsei + stsei <= u128::MAX
    &&& forall|k: int| start <= k < end ==> (#[trigger] settled_record(h[k], bsei, stsei, actual)) is Some
}

/// The history after the window `[start, end)` is settled with `actual` received.
pub open spec fn settled_history(h: Seq<UnbondHistory>, start: int, end: int, actual: int) -> Seq<
    UnbondHistory,
> {
    let bsei = expected_bsei(h, start, end);
    let stsei = expected_stsei(h, start, end);
    Seq::new(
        h.len(),
        |k: int|
            if start <= k < end {
                settled_record(h[k], bsei, stsei, actual).unwrap()
            } else {
                h[k]
            },
    )
}

proof fn lemma_expected_monotone(h: Seq<UnbondHistory>, start: int, a: int, b: int)
    requires
        start <= a <= b <= h.len(),
        0 <= start,
    ensures
        0 <= expected_bsei(h, start, a) <= expected_bsei(h, start, b),
        0 <= expected_stsei(h, start, a) <= expected_stsei(h, start, b),
    decreases b - a,
{
    if a < b {
        lemma_expected_monotone(h, start, a, b - 1);
        lemma_mul_floor_non_negative(h[b - 1].bsei_amount as int, h[b - 1].bsei_withdraw_rate.atomics as int);
        lemma_mul_floor_non_negative(h[b - 1].stsei_amount as int, h[b - 1].stsei_withdraw_rate.atomics as int);
    } else {
        lemma_expected_non_negative(h, start, a);
    }
}

proof fn lemma_expected_non_negative(h: Seq<UnbondHistory>, start: int, a: int)
    requires
        0 <= start <= a <= h.len(),
    ensures
        0 <= expected_bsei(h, start, a),
        0 <= expected_stsei(h, start, a),
    decreases a - start,
{
    if start < a {
        lemma_expected_non_negative(h, start, a - 1);
        lemma_mul_floor_non_negative(h[a - 1].bsei_amount as int, h[a - 1].bsei_withdraw_rate.atomics as int);
        lemma_mul_floor_non_negative(h[a - 1].stsei_amount as int, h[a - 1].stsei_withdraw_rate.atomics as int);
    }
}

proof fn lemma_mul_floor_non_negative(a: int, b: int)
    requires
        0 <= a,
        0 <= b,
    ensures
        0 <= mul_floor(a, b),
{
    assert(0 <= a * b) by (nonlinear_arith)
        requires 0 <= a, 0 <= b;
}

/// The state and history after a settlement, or its refusal.
pub open spec fn settle_outcome(s: State, h: Seq<UnbondHistory>, time: u64, hub_balance: int) -> Result<
    (State, Seq<UnbondHistory>),
    HubError,
> {
    let start = s.last_processed_batch as int;
    let end = window_end(h, start, time);
    let actual = hub_balance - s.prev_hub_balance;
    if end == start {
        Ok((s, h))
    } else if actual < 0 {
        Err(HubError::Invariant)
    } else if window_settles(h, start, end, actual) {
        Ok((State { last_processed_batch: end as u64, ..s }, settled_history(h, start, end, actual)))
    } else {
        Err(HubError::Arithmetic)
    }
}

/// Settles every flushed batch that is due by `historical_time` and not yet
/// released, given `hub_balance`, the hub's current balance of the underlying
/// coin. What came back since the last payout is shared between the tokens and
/// then between the batches; each batch gets its final withdraw rate and is
/// released, and the cursor moves past it. A balance below the last recorded
/// one is a broken invariant. Both arguments are unchanged on error.
pub fn process_withdraw_rate(
    state: &mut State,
    history: &mut Vec<UnbondHistory>,
    historical_time: u64,
    hub_balance: u128,
) -> (r: Result<(), HubError>)
    requires
        history_wf(old(history)@),
    ensures
        history_wf(final(history)@),
        ({
            let h = old(history)@;
            let start = old(state).last_processed_batch as int;
            let end = window_end(h, start, historical_time);
            let actual = hub_balance - old(state).prev_hub_balance;
            &&& end == start ==> r is Ok
            &&& end > start && actual < 0 ==> r == Err::<(), HubError>(HubError::Invariant)
            &&& end > start && actual >= 0 ==> (r is Ok <==> window_settles(h, start, end, actual))
            &&& (r is Err || end == start) ==> final(history)@ == h && *final(state) == *old(state)
            &&& r is Ok && end > start ==> final(history)@ == settled_history(h, start, end, actual)
                && *final(state) == (State { last_processed_batch: end as u64, ..*old(state) })
            &&& r matches Err(e) ==> (e == HubError::Arithmetic || e == HubError::Invariant)
            &&& r matches Err(e) ==> settle_outcome(*old(state), h, historical_time, hub_balance as int)
                == Err::<(State, Seq<UnbondHistory>), HubError>(e)
            &&& r is Ok ==> settle_outcome(*old(state), h, historical_time, hub_balance as int) == Ok::<
                (State, Seq<UnbondHistory>),
                HubError,
            >((*final(state), final(history)@))
        }),
{
    let ghost h = history@;
    let n = history.len();
    if state.last_processed_batch >= n as u64 {
        return Ok(());
    }
    let start = state.last_processed_batch as usize;
    let mut i: usize = start;
    while i < n && history[i].time <= historical_time && !history[i].released
        invariant
            h == history@,
            h == old(history)@,
            n == h.len(),
            start <= i <= n,
            window_end(h, start as int, historical_time) == window_end(h, i as int, historical_time),
        decreases n - i,
    {
        i = i + 1;
    }
    let end = i;
    assert(window_end(h, end as int, historical_time) == end);
    if end == start {
        return Ok(());
    }
    if hub_balance < state.prev_hub_balance {
        return Err(HubError::Invariant);
    }
    let actual = hub_balance - state.prev_hub_balance;
    let mut total_bsei: u128 = 0;
    let mut total_stsei: u128 = 0;
    let mut k: usize = start;
    while k < end
        invariant
            h == history@,
            h == old(history)@,
            n == h.len(),
            start <= k <= end <= n,
            total_bsei == expected_bsei(h, start as int, k as int),
            total_stsei == expected_stsei(h, start as int, k as int),
            history_wf(h),
            *state == *old(state),
            start == old(state).last_processed_batch,
            window_end(h, start as int, historical_time) == end,
            end > start,
            actual == hub_balance - old(state).prev_hub_balance,
        decreases end - k,
    {
        proof {
            lemma_expected_monotone(h, start as int, k as int + 1, end as int);
        }
        let b = match decimal_multiplication(history[k].bsei_amount, history[k].bsei_withdraw_rate) {
            Ok(v) => v,
            Err(e) => return Err(e),
        };
        let st = match decimal_multiplication(history[k].stsei_amount, history[k].stsei_withdraw_rate) {
            Ok(v) => v,
            Err(e) => return Err(e),
        };
        if total_bsei > u128::MAX - b || total_stsei > u128::MAX - st {
            return Err(HubError::Arithmetic);
        }
        total_bsei = total_bsei + b;
        total_stsei = total_stsei + st;
        k = k + 1;
    }
    proof {
        lemma_expected_non_negative(h, start as int, end as int);
    }
    if total_bsei > u128::MAX - total_stsei {
        return Err(HubError::Arithmetic);
    }
    let sum = total_bsei + total_stsei;
    let bsei_ratio = if sum > 0 {
        let ghost f = DECIMAL_FRACTIONAL as int;
        proof {
            let a = total_stsei as int;
            let t = sum as int;
            assert(a * f <= t * f) by (nonlinear_arith)
                requires 0 <= a <= t, f > 0;
            assert(a * f / t <= t * f / t) by (nonlinear_arith)
                requires 0 <= a * f <= t * f, t > 0;
            assert(t * f / t == f) by (nonlinear_arith)
                requires t > 0;
        }
        let stsei_ratio = Rate::from_ratio(total_stsei, sum)?;
        Rate { atomics: DECIMAL_FRACTIONAL - stsei_ratio.atomics }
    } else {
        Rate::zero()
    };
    proof {
        crate::math::lemma_mul_floor_at_most(actual as int, bsei_ratio.atomics as int);
    }
    let bsei_actual = decimal_multiplication(actual, bsei_ratio)?;
    let stsei_actual = actual - bsei_actual;
    let (bsei_mag, bsei_gained) = if total_bsei >= bsei_actual {
        (total_bsei - bsei_actual, false)
    } else {
        (bsei_actual - total_bsei, true)
    };
    let (stsei_mag, stsei_gained) = if total_stsei >= stsei_actual {
        (total_stsei - stsei_actual, false)
    } else {
        (stsei_actual - total_stsei, true)
    };
    let ghost gb = expected_bsei(h, start as int, end as int);
    let ghost gs = expected_stsei(h, start as int, end as int);
    assert(bsei_actual == bsei_share(actual as int, gb, gs));
    let mut updated: Vec<UnbondHistory> = Vec::new();
    let mut k: usize = start;
    proof {
        lemma_window_end_bounds(h, start as int, historical_time);
    }
    while k < end
        invariant
            h == history@,
            n == h.len(),
            start <= k <= end <= n,
            gb == total_bsei,
            gs == total_stsei,
            gb == expected_bsei(h, start as int, end as int),
            gs == expected_stsei(h, start as int, end as int),
            bsei_actual == bsei_share(actual as int, gb, gs),
            stsei_actual == actual - bsei_actual,
            (if bsei_gained { -(bsei_mag as int) } else { bsei_mag as int }) == bsei_slashed(actual as int, gb, gs),
            (if stsei_gained { -(stsei_mag as int) } else { stsei_mag as int }) == stsei_slashed(actual as int, gb, gs),
            updated@.len() == k - start,
            h == old(history)@,
            history_wf(h),
            start == old(state).last_processed_batch,
            window_end(h, start as int, historical_time) == end,
            end > start,
            actual == hub_balance - old(state).prev_hub_balance,
            total_bsei + total_stsei <= u128::MAX,
            forall|j: int| start <= j < k ==> settled_record(h[j], gb, gs, actual as int) == Some(#[trigger] updated@[j - start]),
            *state == *old(state),
        decreases end - k,
    {
        let rec = history[k];
        let st_rate = match calculate_new_withdraw_rate(
            rec.stsei_amount,
            rec.stsei_withdraw_rate,
            total_stsei,
            stsei_mag,
            stsei_gained,
        ) {
            Ok(v) => v,
            Err(e) => {
                assert(settled_record(h[k as int], gb, gs, actual as int) is None);
                assert(!window_settles(h, start as int, end as int, actual as int));
                return Err(e);
            },
        };
        let bs_rate = match calculate_new_withdraw_rate(
            rec.bsei_amount,
            rec.bsei_withdraw_rate,
            total_bsei,
            bsei_mag,
            bsei_gained,
        ) {
            Ok(v) => v,
            Err(e) => {
                assert(settled_record(h[k as int], gb, gs, actual as int) is None);
                assert(!window_settles(h, start as int, end as int, actual as int));
                return Err(e);
            },
        };
        let mut new_rec = rec;
        new_rec.stsei_withdraw_rate = st_rate;
        new_rec.bsei_withdraw_rate = bs_rate;
        new_rec.released = true;
        updated.push(new_rec);
        k = k + 1;
    }
    assert forall|j: int| start <= j < end implies (#[trigger] settled_record(h[j], gb, gs, actual as int)) is Some by {
        assert(settled_record(h[j], gb, gs, actual as int) == Some(updated@[j - start]));
    }
    let mut m: usize = start;
    while m < end
        invariant
            n == history@.len(),
            h == old(history)@,
            history_wf(h),
            start == old(state).last_processed_batch,
            window_end(h, start as int, historical_time) == end,
            *state == *old(state),
            gb == expected_bsei(h, start as int, end as int),
            gs == expected_stsei(h, start as int, end as int),
            gb + gs <= u128::MAX,
            forall|j: int| start <= j < end ==> (#[trigger] settled_record(h[j], gb, gs, actual as int)) is Some,
            start <= m <= end <= n,
            updated@.len() == end - start,
            forall|j: int| start <= j < end ==> settled_record(h[j], gb, gs, actual as int) == Some(#[trigger] updated@[j - start]),
            forall|j: int| 0 <= j < n ==> #[trigger] history@[j] == if start <= j < m {
                updated@[j - start]
            } else {
                h[j]
            },
        decreases end - m,
    {
        history.set(m, updated[m - start]);
        m = m + 1;
    }
    assert(history@ =~= settled_history(h, start as int, end as int, actual as int));
    assert(window_settles(h, start as int, end as int, actual as int));
    assert(history_wf(history@));
    state.last_processed_batch = end as u64;
    Ok(())
}

proof fn lemma_window_end_bounds(h: Seq<UnbondHistory>, start: int, time: u64)
    requires
        0 <= start,
    ensures
        start <= window_end(h, start, time),
        start <= h.len() ==> window_end(h, start, time) <= h.len(),
    decreases h.len() - start,
{
    if !(start >= h.len() || h[start].time > time || h[start].released) {
        lemma_window_end_bounds(h, start + 1, time);
    }
}

} // verus!
