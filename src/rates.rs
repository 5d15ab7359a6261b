//! Exchange rates and the slashing check that keeps them honest.
use vstd::prelude::*;

use crate::math::{lemma_mul_floor_at_most, mul_floor, ratio_floor, Rate, DECIMAL_FRACTIONAL};
use crate::types::{Coin, CurrentBatch, HubError, State};

verus! {

/// The exchange rate of a token, in atomics: what is bonded for it over what is
/// owed to its holders; one while either side is zero.
pub open spec fn exchange_rate(bonded: int, supply: int) -> int {
    if bonded == 0 || supply == 0 {
        DECIMAL_FRACTIONAL as int
    } else {
        ratio_floor(bonded, supply)
    }
}

/// Whether the rate of `bonded` over `issued + requested` can be computed.
pub open spec fn rate_computable(bonded: int, issued: int, requested: int) -> bool {
    &&& issued + requested <= u128::MAX
    &&& exchange_rate(bonded, issued + requested) <= u128::MAX
}

/// The state with the first token's rate refreshed.
pub open spec fn with_bsei_rate(s: State, issued: int, requested: int) -> State {
    State {
        bsei_exchange_rate: Rate {
            atomics: exchange_rate(s.total_bond_bsei_amount as int, issued + requested) as u128,
        },
        ..s
    }
}

/// The state with the second token's rate refreshed.
pub open spec fn with_stsei_rate(s: State, issued: int, requested: int) -> State {
    State {
        stsei_exchange_rate: Rate {
            atomics: exchange_rate(s.total_bond_stsei_amount as int, issued + requested) as u128,
        },
        ..s
    }
}

fn refreshed_rate(bonded: u128, issued: u128, requested: u128) -> (r: Result<Rate, HubError>)
    ensures
        r is Ok <==> rate_computable(bonded as int, issued as int, requested as int),
        r matches Ok(v) ==> v.atomics as int == exchange_rate(
            bonded as int,
            issued as int + requested as int,
        ),
        r matches Err(e) ==> e == HubError::Arithmetic,
{
    if issued > u128::MAX - requested {
        return Err(HubError::Arithmetic);
    }
    let actual_supply = issued + requested;
    if bonded == 0 || actual_supply == 0 {
        Ok(Rate::one())
    } else {
        Rate::from_ratio(bonded, actual_supply)
    }
}

impl State {
    /// Sets the first token's rate to its bonded principal over the supply
    /// issued plus what the current batch has requested; unchanged on error.
    pub fn update_bsei_exchange_rate(&mut self, total_issued: u128, requested_with_fee: u128) -> (r:
        Result<(), HubError>)
        ensures
            r is Ok <==> rate_computable(
                old(self).total_bond_bsei_amount as int,
                total_issued as int,
                requested_with_fee as int,
            ),
            r is Ok ==> *final(self) == with_bsei_rate(
                *old(self),
                total_issued as int,
                requested_with_fee as int,
            ),
            r is Err ==> *final(self) == *old(self),
            r matches Err(e) ==> e == HubError::Arithmetic,
    {
        let rate = refreshed_rate(self.total_bond_bsei_amount, total_issued, requested_with_fee)?;
        self.bsei_exchange_rate = rate;
        Ok(())
    }

    /// Sets the second token's rate to its bonded principal over the supply
    /// issued plus what the current batch has requested; unchanged on error.
    pub fn update_stsei_exchange_rate(&mut self, total_issued: u128, requested: u128) -> (r: Result<
        (),
        HubError,
    >)
        ensures
            r is Ok <==> rate_computable(
                old(self).total_bond_stsei_amount as int,
                total_issued as int,
                requested as int,
            ),
            r is Ok ==> *final(self) == with_stsei_rate(
                *old(self),
                total_issued as int,
                requested as int,
            ),
            r is Err ==> *final(self) == *old(self),
            r matches Err(e) ==> e == HubError::Arithmetic,
    {
        let rate = refreshed_rate(self.total_bond_stsei_amount, total_issued, requested)?;
        self.stsei_exchange_rate = rate;
        Ok(())
    }
}

/// The first token's bonded principal after a shortfall to `actual` is shared
/// out in proportion to the two tokens' shares.
pub open spec fn slashed_bsei(bsei: int, stsei: int, actual: int) -> int {
    mul_floor(actual, ratio_floor(bsei, bsei + stsei))
}

/// Whether the slashing check leaves the state as it is: nothing is
/// delegated, or the ledger records nothing bonded.
pub open spec fn slashing_skipped(s: State, actual: int) -> bool {
    actual == 0 || s.total_bond_bsei_amount + s.total_bond_stsei_amount == 0
}

/// The bonded amounts after the shortfall, if any, has been absorbed.
pub open spec fn reconciled(s: State, actual: int) -> State {
    let total = s.total_bond_bsei_amount + s.total_bond_stsei_amount;
    if total > actual {
        let b = slashed_bsei(s.total_bond_bsei_amount as int, s.total_bond_stsei_amount as int, actual);
        State { total_bond_bsei_amount: b as u128, total_bond_stsei_amount: (actual - b) as u128, ..s }
    } else {
        s
    }
}

/// Whether the slashing check succeeds.
pub open spec fn slashing_succeeds(
    s: State,
    batch: CurrentBatch,
    actual: int,
    bsei_issued: int,
    stsei_issued: int,
) -> bool {
    slashing_skipped(s, actual) || {
        let r = reconciled(s, actual);
        &&& s.total_bond_bsei_amount + s.total_bond_stsei_amount <= u128::MAX
        &&& rate_computable(r.total_bond_bsei_amount as int, bsei_issued, batch.requested_bsei_with_fee as int)
        &&& rate_computable(r.total_bond_stsei_amount as int, stsei_issued, batch.requested_stsei as int)
    }
}

/// The state after the slashing check.
pub open spec fn slashed_state(
    s: State,
    batch: CurrentBatch,
    actual: int,
    bsei_issued: int,
    stsei_issued: int,
) -> State {
    if slashing_skipped(s, actual) {
        s
    } else {
        with_stsei_rate(
            with_bsei_rate(reconciled(s, actual), bsei_issued, batch.requested_bsei_with_fee as int),
            stsei_issued,
            batch.requested_stsei as int,
        )
    }
}

/// Reconciles the ledger with `actual_total_bonded`, the amount really
/// delegated. A shortfall is shared between the two tokens in proportion to
/// their bonded principal, the second absorbing the rounding; then both rates
/// are refreshed against the issued supplies and the current batch.
pub fn slashing(
    state: &State,
    batch: &CurrentBatch,
    actual_total_bonded: u128,
    bsei_issued: u128,
    stsei_issued: u128,
) -> (r: Result<State, HubError>)
    ensures
        r is Ok <==> slashing_succeeds(
            *state,
            *batch,
            actual_total_bonded as int,
            bsei_issued as int,
            stsei_issued as int,
        ),
        r matches Ok(v) ==> v == slashed_state(
            *state,
            *batch,
            actual_total_bonded as int,
            bsei_issued as int,
            stsei_issued as int,
        ),
        r matches Err(e) ==> e == HubError::Arithmetic,
{
    let mut s = *state;
    if actual_total_bonded == 0 {
        return Ok(s);
    }
    if s.total_bond_bsei_amount > u128::MAX - s.total_bond_stsei_amount {
        return Err(HubError::Arithmetic);
    }
    let state_total_bonded = s.total_bond_bsei_amount + s.total_bond_stsei_amount;
    if state_total_bonded == 0 {
        return Ok(s);
    }
    if state_total_bonded > actual_total_bonded {
        let ghost f = DECIMAL_FRACTIONAL as int;
        proof {
            let b = s.total_bond_bsei_amount as int;
            let t = state_total_bonded as int;
            assert(b * f <= t * f) by (nonlinear_arith)
                requires 0 <= b <= t, f > 0;
            assert(b * f / t <= t * f / t) by (nonlinear_arith)
                requires 0 <= b * f <= t * f, t > 0;
            assert(t * f / t == f) by (nonlinear_arith)
                requires t > 0;
            assert(0 <= b * f / t) by (nonlinear_arith)
                requires 0 <= b * f, t > 0;
        }
        let bsei_bond_ratio = match Rate::from_ratio(s.total_bond_bsei_amount, state_total_bonded) {
            Ok(v) => v,
            Err(e) => return Err(e),
        };
        proof {
            lemma_mul_floor_at_most(actual_total_bonded as int, bsei_bond_ratio.atomics as int);
        }
        let new_bsei = match crate::math::decimal_multiplication(actual_total_bonded, bsei_bond_ratio) {
            Ok(v) => v,
            Err(e) => return Err(e),
        };
        s.total_bond_bsei_amount = new_bsei;
        s.total_bond_stsei_amount = actual_total_bonded - new_bsei;
    }
    s.update_bsei_exchange_rate(bsei_issued, batch.requested_bsei_with_fee)?;
    s.update_stsei_exchange_rate(stsei_issued, batch.requested_stsei)?;
    Ok(s)
}

/// Bonded principal and exchange rates are never negative, in any state the
/// ledger can hold.
pub proof fn lemma_state_non_negative(s: State)
    ensures
        s.bsei_exchange_rate.atomics >= 0,
        s.stsei_exchange_rate.atomics >= 0,
        s.total_bond_bsei_amount >= 0,
        s.total_bond_stsei_amount >= 0,
{
}

/// Running the slashing check a second time, with nothing changed outside,
/// succeeds and leaves the state as the first run left it.
pub proof fn lemma_slashing_idempotent(
    s: State,
    batch: CurrentBatch,
    actual: int,
    bsei_issued: int,
    stsei_issued: int,
)
    requires
        0 <= actual <= u128::MAX,
        0 <= bsei_issued <= u128::MAX,
        0 <= stsei_issued <= u128::MAX,
        slashing_succeeds(s, batch, actual, bsei_issued, stsei_issued),
    ensures
        ({
            let once = slashed_state(s, batch, actual, bsei_issued, stsei_issued);
            &&& slashing_succeeds(once, batch, actual, bsei_issued, stsei_issued)
            &&& slashed_state(once, batch, actual, bsei_issued, stsei_issued) == once
        }),
{
    if !slashing_skipped(s, actual) {
        let total = s.total_bond_bsei_amount + s.total_bond_stsei_amount;
        if total > actual {
            let b = s.total_bond_bsei_amount as int;
            let t = total as int;
            let f = DECIMAL_FRACTIONAL as int;
            assert(b * f <= t * f) by (nonlinear_arith)
                requires 0 <= b <= t, f > 0;
            assert(b * f / t <= t * f / t) by (nonlinear_arith)
                requires 0 <= b * f <= t * f, t > 0;
            assert(t * f / t == f) by (nonlinear_arith)
                requires t > 0;
            assert(0 <= b * f / t) by (nonlinear_arith)
                requires 0 <= b * f, t > 0;
            lemma_mul_floor_at_most(actual, ratio_floor(b, t));
        }
    }
}

/// What is delegated in `denom`, summed over the delegations.
pub open spec fn delegated_total(d: Seq<Coin>, denom: Seq<char>) -> int
    decreases d.len(),
{
    if d.len() == 0 {
        0
    } else {
        delegated_total(d.drop_last(), denom) + if d.last().denom@ == denom {
            d.last().amount as int
        } else {
            0
        }
    }
}

proof fn lemma_delegated_prefix(d: Seq<Coin>, denom: Seq<char>, k: int)
    requires
        0 <= k <= d.len(),
    ensures
        0 <= delegated_total(d.subrange(0, k), denom) <= delegated_total(d, denom),
    decreases d.len() - k,
{
    if k < d.len() {
        lemma_delegated_prefix(d, denom, k + 1);
        lemma_delegated_non_negative(d.subrange(0, k), denom);
        assert(d.subrange(0, k + 1).drop_last() == d.subrange(0, k));
    } else {
        assert(d.subrange(0, k) == d);
        lemma_delegated_non_negative(d, denom);
    }
}

proof fn lemma_delegated_non_negative(d: Seq<Coin>, denom: Seq<char>)
    ensures
        0 <= delegated_total(d, denom),
    decreases d.len(),
{
    if d.len() > 0 {
        lemma_delegated_non_negative(d.drop_last(), denom);
    }
}

/// The amount really delegated by the hub in the staking denomination, from
/// the delegations the chain reports.
pub fn actual_total_bonded(delegations: &Vec<Coin>, denom: &String) -> (r: Result<u128, HubError>)
    ensures
        r is Ok <==> delegated_total(delegations@, denom@) <= u128::MAX,
        r matches Ok(v) ==> v == delegated_total(delegations@, denom@),
        r matches Err(e) ==> e == HubError::Arithmetic,
{
    let mut total: u128 = 0;
    let mut i: usize = 0;
    while i < delegations.len()
        invariant
            i <= delegations@.len(),
            total == delegated_total(delegations@.subrange(0, i as int), denom@),
        decreases delegations@.len() - i,
    {
        assert(delegations@.subrange(0, i as int + 1).drop_last() == delegations@.subrange(0, i as int));
        proof {
            lemma_delegated_prefix(delegations@, denom@, i as int + 1);
        }
        if delegations[i].denom == *denom {
            if total > u128::MAX - delegations[i].amount {
                return Err(HubError::Arithmetic);
            }
            total = total + delegations[i].amount;
        }
        i = i + 1;
    }
    assert(delegations@.subrange(0, i as int) == delegations@);
    Ok(total)
}

} // verus!
