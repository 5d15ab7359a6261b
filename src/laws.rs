//! Properties that relate several operations of the hub.
use vstd::prelude::*;

use crate::math::{mul_floor, ratio_floor, DECIMAL_FRACTIONAL};
use crate::settle::{
    batch_cap, bsei_share, bsei_slashed, expected_bsei, expected_stsei, new_withdraw_rate,
    settled_history, settled_record, stsei_slashed, window_settles,
};
use crate::bond::{bond_outcome, mint_of, payment_of, supply_for};
use crate::fee::{peg_fee, peg_fee_chargeable, required_peg_fee};
use crate::rates::{slashed_state, slashing_succeeds};
use crate::types::{BondType, Coin, Config, CurrentBatch, HubError, Parameters, State, UnbondType};
use crate::unbond::{request_outcome, unbond_outcome};
use crate::types::UnbondHistory;

verus! {

/// Bonding `n` units of underlying coin at rate `rate` mints `ratio_floor(n, rate)`,
/// or less once the peg recovery fee is taken. Unbonding whatever was minted at
/// the same rate, with no slashing in between, pays back at most `n`; at a rate
/// of exactly one and with no fee it pays back exactly `n`.
pub proof fn lemma_bond_unbond_round_trip(n: int, rate: int, minted: int)
    requires
        0 <= n,
        0 < rate,
        0 <= minted <= ratio_floor(n, rate),
    ensures
        mul_floor(minted, rate) <= n,
        rate == DECIMAL_FRACTIONAL && minted == ratio_floor(n, rate) ==> mul_floor(minted, rate) == n,
{
    let f = DECIMAL_FRACTIONAL as int;
    let m = ratio_floor(n, rate);
    assert(m * rate <= n * f) by (nonlinear_arith)
        requires m == n * f / rate, rate > 0, n >= 0, f > 0;
    assert(minted * rate <= m * rate) by (nonlinear_arith)
        requires 0 <= minted <= m, rate > 0;
    assert(minted * rate / f <= n * f / f) by (nonlinear_arith)
        requires minted * rate <= n * f, f > 0, minted >= 0, rate > 0;
    assert(n * f / f == n) by (nonlinear_arith)
        requires f > 0;
    if rate == f && minted == m {
        assert(n * f / f == n) by (nonlinear_arith)
            requires f > 0;
        assert(m == n);
        assert(minted * rate / f == n);
    }
}

/// Claims on one batch paid separately never add up to more than the same
/// claims paid together.
pub proof fn lemma_split_claims_never_pay_more(a: int, b: int, rate: int)
    requires
        0 <= a,
        0 <= b,
        0 <= rate,
    ensures
        mul_floor(a, rate) + mul_floor(b, rate) <= mul_floor(a + b, rate),
{
    let f = DECIMAL_FRACTIONAL as int;
    assert((a * rate) / f + (b * rate) / f <= (a * rate + b * rate) / f) by (nonlinear_arith)
        requires a * rate >= 0, b * rate >= 0, f > 0;
    assert((a + b) * rate == a * rate + b * rate) by (nonlinear_arith);
    assert(a * rate >= 0 && b * rate >= 0) by (nonlinear_arith)
        requires a >= 0, b >= 0, rate >= 0;
}

/// The amount burnt of one token by a record: the first token when `first`.
pub open spec fn amount_of(r: UnbondHistory, first: bool) -> int {
    if first {
        r.bsei_amount as int
    } else {
        r.stsei_amount as int
    }
}

/// A record's withdraw rate for one token, in atomics.
pub open spec fn rate_of(r: UnbondHistory, first: bool) -> int {
    if first {
        r.bsei_withdraw_rate.atomics as int
    } else {
        r.stsei_withdraw_rate.atomics as int
    }
}

/// What the records in `[start, end)` pay for one token at their withdraw rates.
pub open spec fn window_payout(h: Seq<UnbondHistory>, start: int, end: int, first: bool) -> int
    decreases end - start,
{
    if end <= start {
        0
    } else {
        window_payout(h, start, end - 1, first) + mul_floor(amount_of(h[end - 1], first), rate_of(h[end - 1], first))
    }
}

/// The sum of what the batches get over `[start, end)`.
pub open spec fn window_cap(h: Seq<UnbondHistory>, start: int, end: int, first: bool, total: int, slashed: int) -> int
    decreases end - start,
{
    if end <= start {
        0
    } else {
        window_cap(h, start, end - 1, first, total, slashed) + batch_cap(
            amount_of(h[end - 1], first),
            rate_of(h[end - 1], first),
            total,
            slashed,
        )
    }
}

proof fn lemma_payout_is_expected(h: Seq<UnbondHistory>, start: int, end: int)
    ensures
        window_payout(h, start, end, true) == expected_bsei(h, start, end),
        window_payout(h, start, end, false) == expected_stsei(h, start, end),
    decreases end - start,
{
    if end > start {
        lemma_payout_is_expected(h, start, end - 1);
    }
}

proof fn lemma_mul_floor_nonneg(a: int, b: int)
    requires
        0 <= a,
        0 <= b,
    ensures
        0 <= mul_floor(a, b),
{
    assert(0 <= a * b) by (nonlinear_arith)
        requires 0 <= a, 0 <= b;
}

/// A settled batch pays at most what it gets, never less than nothing, and at
/// most its exact pro-rata part of the token's result; on a loss it gets at
/// most one unit less than that part.
pub proof fn lemma_batch_cap(amount: int, rate: int, total: int, slashed: int)
    requires
        0 <= amount,
        0 <= rate,
        0 <= total,
        slashed <= total,
        new_withdraw_rate(amount, rate, total, slashed) is Some,
    ensures
        mul_floor(amount, new_withdraw_rate(amount, rate, total, slashed).unwrap()) <= batch_cap(
            amount,
            rate,
            total,
            slashed,
        ),
        0 <= batch_cap(amount, rate, total, slashed),
        total * batch_cap(amount, rate, total, slashed) <= (total - slashed) * mul_floor(amount, rate),
        total == 0 ==> batch_cap(amount, rate, total, slashed) == mul_floor(amount, rate),
        0 < slashed ==> total * batch_cap(amount, rate, total, slashed) + total >= (total - slashed)
            * mul_floor(amount, rate),
{
    let f = DECIMAL_FRACTIONAL as int;
    let unb = mul_floor(amount, rate);
    lemma_mul_floor_nonneg(amount, rate);
    let mag = if slashed < 0 {
        -slashed
    } else {
        slashed
    };
    let cap = batch_cap(amount, rate, total, slashed);
    if total == 0 {
        assert(slashed <= 0);
        assert(cap == unb);
        assert(total * cap == 0) by (nonlinear_arith)
            requires total == 0;
        assert((total - slashed) * unb >= 0) by (nonlinear_arith)
            requires total - slashed >= 0, unb >= 0;
    } else {
        let share = unb * mag / total;
        assert(total * share <= unb * mag && total * share > unb * mag - total && share >= 0)
            by (nonlinear_arith)
            requires share == unb * mag / total, total > 0, unb >= 0, mag >= 0;
        if slashed < 0 {
            assert(cap <= unb + share);
            assert(total * cap <= total * unb + total * share) by (nonlinear_arith)
                requires cap <= unb + share, total > 0;
            assert((total - slashed) * unb == total * unb + unb * mag) by (nonlinear_arith)
                requires mag == -slashed;
        } else if slashed == 0 {
            assert(unb * 0 == 0);
            assert(share == 0);
            assert(cap == unb);
            assert(total * cap == (total - slashed) * unb) by (nonlinear_arith)
                requires slashed == 0, cap == unb;
        } else {
            assert((total - slashed) * unb == total * unb - unb * mag) by (nonlinear_arith)
                requires mag == slashed;
            if unb >= share + 1 {
                assert(cap == unb - share - 1);
                assert(total * cap == total * unb - total * share - total) by (nonlinear_arith)
                    requires cap == unb - share - 1;
            } else {
                assert(cap == 0);
                assert(total * cap == 0) by (nonlinear_arith)
                    requires cap == 0;
                assert(unb * mag <= unb * total) by (nonlinear_arith)
                    requires 0 <= mag <= total, unb >= 0;
                assert(total * unb <= total * share + total) by (nonlinear_arith)
                    requires unb <= share, total > 0;
            }
        }
    }
    let r2 = new_withdraw_rate(amount, rate, total, slashed).unwrap();
    if amount == 0 {
        assert(mul_floor(0, r2) == 0) by {
            assert(0 * r2 == 0);
        }
    } else {
        assert(r2 == ratio_floor(cap, amount));
        assert(amount * r2 <= cap * f) by (nonlinear_arith)
            requires r2 == cap * f / amount, amount > 0, cap >= 0, f > 0;
        assert(amount * r2 / f <= cap * f / f) by (nonlinear_arith)
            requires amount * r2 <= cap * f, f > 0;
        assert(cap * f / f == cap) by (nonlinear_arith)
            requires f > 0;
    }
}

proof fn lemma_window_sums(
    h: Seq<UnbondHistory>,
    h2: Seq<UnbondHistory>,
    start: int,
    j: int,
    first: bool,
    total: int,
    slashed: int,
)
    requires
        0 <= start <= j <= h.len(),
        h2.len() == h.len(),
        0 <= total,
        slashed <= total,
        forall|k: int|
            start <= k < j ==> (#[trigger] new_withdraw_rate(
                amount_of(h[k], first),
                rate_of(h[k], first),
                total,
                slashed,
            )) is Some,
        forall|k: int|
            start <= k < j ==> amount_of(#[trigger] h2[k], first) == amount_of(h[k], first)
                && rate_of(h2[k], first) == new_withdraw_rate(
                amount_of(h[k], first),
                rate_of(h[k], first),
                total,
                slashed,
            ).unwrap(),
    ensures
        ({
            let e = window_payout(h, start, j, first);
            let cap = window_cap(h, start, j, first, total, slashed);
            &&& window_payout(h2, start, j, first) <= cap
            &&& 0 <= cap
            &&& total * cap <= (total - slashed) * e
            &&& total == 0 ==> cap == e
        }),
    decreases j - start,
{
    if j > start {
        let k = j - 1;
        lemma_window_sums(h, h2, start, k, first, total, slashed);
        let a = amount_of(h[k], first);
        let r = rate_of(h[k], first);
        assert(new_withdraw_rate(a, r, total, slashed) is Some);
        assert(amount_of(h2[k], first) == a);
        lemma_batch_cap(a, r, total, slashed);
        let c0 = window_cap(h, start, k, first, total, slashed);
        let e0 = window_payout(h, start, k, first);
        assert(total * (c0 + batch_cap(a, r, total, slashed)) == total * c0 + total * batch_cap(
            a,
            r,
            total,
            slashed,
        )) by (nonlinear_arith);
        assert((total - slashed) * (e0 + mul_floor(a, r)) == (total - slashed) * e0 + (total
            - slashed) * mul_floor(a, r)) by (nonlinear_arith);
    }
}

/// A settlement never pays out more than came back. For each token, the
/// window's batches, paid at their new withdraw rates, get at most the token's
/// part of what the hub received, and the two parts add up to what was
/// received: claims released by a settlement never exceed the underlying coin
/// that really arrived for them.
pub proof fn lemma_settlement_never_overpays(
    h: Seq<UnbondHistory>,
    start: int,
    end: int,
    actual: int,
)
    requires
        0 <= start <= end <= h.len(),
        0 <= actual,
        window_settles(h, start, end, actual),
    ensures
        ({
            let gb = expected_bsei(h, start, end);
            let gs = expected_stsei(h, start, end);
            let h2 = settled_history(h, start, end, actual);
            let part_b = bsei_share(actual, gb, gs);
            let part_s = actual - part_b;
            &&& 0 <= part_b && 0 <= part_s && part_b + part_s == actual
            &&& bsei_slashed(actual, gb, gs) == gb - part_b
            &&& stsei_slashed(actual, gb, gs) == gs - part_s
            &&& window_payout(h2, start, end, true) <= part_b
            &&& window_payout(h2, start, end, false) <= part_s
            &&& window_payout(h2, start, end, true) + window_payout(h2, start, end, false) <= actual
        }),
{
    let f = DECIMAL_FRACTIONAL as int;
    let gb = expected_bsei(h, start, end);
    let gs = expected_stsei(h, start, end);
    let h2 = settled_history(h, start, end, actual);
    lemma_payout_is_expected(h, start, end);
    lemma_window_payout_non_negative(h, start, end, true);
    lemma_window_payout_non_negative(h, start, end, false);
    let part_b = bsei_share(actual, gb, gs);
    if gb + gs > 0 {
        let t = gs + gb;
        assert(gs * f <= t * f) by (nonlinear_arith)
            requires 0 <= gs <= t, f > 0;
        assert(gs * f / t <= t * f / t) by (nonlinear_arith)
            requires 0 <= gs * f <= t * f, t > 0;
        assert(t * f / t == f) by (nonlinear_arith)
            requires t > 0;
        assert(0 <= gs * f / t) by (nonlinear_arith)
            requires 0 <= gs * f, t > 0;
        crate::math::lemma_mul_floor_at_most(actual, f - ratio_floor(gs, t));
    }
    assert(0 <= part_b <= actual);
    assert forall|k: int|
        start <= k < end implies (#[trigger] new_withdraw_rate(
            amount_of(h[k], true),
            rate_of(h[k], true),
            gb,
            bsei_slashed(actual, gb, gs),
        )) is Some by {
        assert(settled_record(h[k], gb, gs, actual) is Some);
    }
    assert forall|k: int|
        start <= k < end implies (#[trigger] new_withdraw_rate(
            amount_of(h[k], false),
            rate_of(h[k], false),
            gs,
            stsei_slashed(actual, gb, gs),
        )) is Some by {
        assert(settled_record(h[k], gb, gs, actual) is Some);
    }
    lemma_window_sums(h, h2, start, end, true, gb, bsei_slashed(actual, gb, gs));
    lemma_window_sums(h, h2, start, end, false, gs, stsei_slashed(actual, gb, gs));
    lemma_close(gb, part_b, window_cap(h, start, end, true, gb, bsei_slashed(actual, gb, gs)));
    lemma_close(gs, actual - part_b, window_cap(h, start, end, false, gs, stsei_slashed(actual, gb, gs)));
}

proof fn lemma_window_payout_non_negative(h: Seq<UnbondHistory>, start: int, end: int, first: bool)
    ensures
        0 <= window_payout(h, start, end, first),
    decreases end - start,
{
    if end > start {
        lemma_window_payout_non_negative(h, start, end - 1, first);
        let r = h[end - 1];
        lemma_mul_floor_nonneg(amount_of(r, first), rate_of(r, first));
    }
}

proof fn lemma_close(total: int, part: int, cap: int)
    requires
        0 <= part,
        0 <= total,
        total * cap <= part * total,
        total == 0 ==> cap == total,
    ensures
        cap <= part,
{
    if total > 0 {
        assert(cap <= part) by (nonlinear_arith)
            requires total * cap <= part * total, total > 0;
    }
}

proof fn lemma_fee_bounds(
    raw: int,
    rate: int,
    threshold: int,
    fee_rate: int,
    issued: int,
    pending: int,
    bonded: int,
    payment: int,
)
    requires
        0 <= raw,
        0 <= fee_rate,
        peg_fee_chargeable(raw, rate, threshold, fee_rate, issued, pending, bonded, payment),
    ensures
        0 <= peg_fee(raw, rate, threshold, fee_rate, issued, pending, bonded, payment) <= raw,
        rate >= threshold ==> peg_fee(raw, rate, threshold, fee_rate, issued, pending, bonded, payment)
            == 0,
{
    if rate < threshold {
        lemma_mul_floor_nonneg(raw, fee_rate);
        assert(required_peg_fee(issued, raw, pending, bonded, payment) >= 0);
    }
}

/// Bonding `payment` and then unbonding exactly what was minted, with the rate
/// unchanged in between, records a claim of at most what was minted, worth at
/// most `payment` at that rate. The second token is never charged a fee, and
/// at a rate of exactly one with no fee the claim is worth exactly `payment`.
pub proof fn lemma_bond_then_unbond(
    state: State,
    batch: CurrentBatch,
    params: Parameters,
    config: Config,
    first: bool,
    sender: Seq<char>,
    funds: Seq<Coin>,
    actual: int,
    bsei_issued: int,
    stsei_issued: int,
    bonded: State,
    payment: int,
    minted: int,
    batch2: CurrentBatch,
    actual2: int,
    bsei_issued2: int,
    stsei_issued2: int,
    now: u64,
    unbonded: State,
    batch3: CurrentBatch,
    recorded: int,
    flushed: Option<(UnbondHistory, int)>,
)
    requires
        bond_outcome(
            state,
            batch,
            params,
            config,
            if first { BondType::BSei } else { BondType::StSei },
            sender,
            funds,
            actual,
            bsei_issued,
            stsei_issued,
        ) == Ok::<(State, int, int), HubError>((bonded, payment, minted)),
        unbond_outcome(
            bonded,
            batch2,
            params,
            if first { UnbondType::BSei } else { UnbondType::StSei },
            minted,
            actual2,
            bsei_issued2,
            stsei_issued2,
            now,
        ) == Ok::<(State, CurrentBatch, int, Option<(UnbondHistory, int)>), HubError>(
            (unbonded, batch3, recorded, flushed),
        ),
        first ==> slashed_state(bonded, batch2, actual2, bsei_issued2, stsei_issued2).bsei_exchange_rate
            == slashed_state(state, batch, actual, bsei_issued, stsei_issued).bsei_exchange_rate,
        !first ==> slashed_state(bonded, batch2, actual2, bsei_issued2, stsei_issued2).stsei_exchange_rate
            == slashed_state(state, batch, actual, bsei_issued, stsei_issued).stsei_exchange_rate,
    ensures
        ({
            let s = slashed_state(state, batch, actual, bsei_issued, stsei_issued);
            let r = if first {
                s.bsei_exchange_rate.atomics as int
            } else {
                s.stsei_exchange_rate.atomics as int
            };
            &&& 0 <= recorded <= minted
            &&& mul_floor(recorded, r) <= payment
            &&& !first ==> recorded == minted
            &&& (r == DECIMAL_FRACTIONAL && (first ==> params.er_threshold.atomics <= r))
                ==> recorded == minted && mul_floor(recorded, r) == payment
        }),
{
    let bt = if first { BondType::BSei } else { BondType::StSei };
    let s = slashed_state(state, batch, actual, bsei_issued, stsei_issued);
    let supply = supply_for(bt, bsei_issued, stsei_issued);
    assert(payment_of(funds, params.underlying_coin_denom@) is Some);
    assert(payment >= 0);
    assert(mint_of(s, batch, params, bt, payment, supply) == Ok::<int, HubError>(minted));
    let r = if first {
        s.bsei_exchange_rate.atomics as int
    } else {
        s.stsei_exchange_rate.atomics as int
    };
    assert(r > 0);
    let raw = ratio_floor(payment, r);
    let f = DECIMAL_FRACTIONAL as int;
    assert(raw >= 0) by (nonlinear_arith)
        requires raw == payment * f / r, payment >= 0, r > 0, f > 0;
    if first {
        lemma_fee_bounds(
            raw,
            r,
            params.er_threshold.atomics as int,
            params.peg_recovery_fee.atomics as int,
            supply,
            batch.requested_bsei_with_fee as int,
            s.total_bond_bsei_amount as int,
            payment,
        );
    }
    assert(0 <= minted <= raw);
    let s1 = slashed_state(bonded, batch2, actual2, bsei_issued2, stsei_issued2);
    assert(slashing_succeeds(bonded, batch2, actual2, bsei_issued2, stsei_issued2));
    let ut = if first { UnbondType::BSei } else { UnbondType::StSei };
    assert(request_outcome(s1, batch2, params, ut, minted, bsei_issued2) is Ok);
    if first {
        lemma_fee_bounds(
            minted,
            r,
            params.er_threshold.atomics as int,
            params.peg_recovery_fee.atomics as int,
            bsei_issued2,
            batch2.requested_bsei_with_fee as int,
            s1.total_bond_bsei_amount as int,
            minted,
        );
    }
    assert(0 <= recorded <= minted);
    lemma_bond_unbond_round_trip(payment, r, recorded);
}

} // verus!
