//! Splitting an amount across the registered validators.
use vstd::prelude::*;

use crate::types::{HubError, ValidatorResponse};
use vstd::arithmetic::div_mod::lemma_fundamental_div_mod;
use vstd::seq_lib::{to_multiset_build, to_multiset_remove};

verus! {

/// Sum of a sequence of amounts.
pub open spec fn sum_amounts(s: Seq<u128>) -> int
    decreases s.len(),
{
    if s.len() == 0 {
        0
    } else {
        sum_amounts(s.drop_last()) + s.last() as int
    }
}

/// Sum of what the validators hold.
pub open spec fn total_delegated(v: Seq<ValidatorResponse>) -> int
    decreases v.len(),
{
    if v.len() == 0 {
        0
    } else {
        total_delegated(v.drop_last()) + v.last().total_delegated as int
    }
}

proof fn lemma_quotient_below_max(t: int, n: int)
    requires
        0 <= t <= u128::MAX,
        n >= 2,
    ensures
        t / n < u128::MAX,
{
    assert(t / n <= t / 2) by (nonlinear_arith)
        requires 0 <= t, n >= 2;
}

/// How far validator `j` is below its share in the split, or zero.
pub open spec fn shortfall_at(v: Seq<ValidatorResponse>, per: int, rem: int, j: int) -> int {
    let gap = target_of(per, rem, j) - v[j].total_delegated;
    if gap > 0 {
        gap
    } else {
        0
    }
}

/// What is still to delegate when the split reaches validator `j`.
pub open spec fn left_before(v: Seq<ValidatorResponse>, per: int, rem: int, amount: int, j: int) -> int
    decreases j,
{
    if j <= 0 {
        amount
    } else {
        let left = left_before(v, per, rem, amount, j - 1);
        let want = shortfall_at(v, per, rem, j - 1);
        left - if want < left {
            want
        } else {
            left
        }
    }
}

/// What the split gives validator `j`: its shortfall, as far as what is left allows.
pub open spec fn delegation_at(v: Seq<ValidatorResponse>, per: int, rem: int, amount: int, j: int) -> int {
    let left = left_before(v, per, rem, amount, j);
    let want = shortfall_at(v, per, rem, j);
    if want < left {
        want
    } else {
        left
    }
}

/// The amount that delegating `amount` over the validators `v` gives validator
/// `j`: each validator in order is topped up toward an even share of all that
/// will be delegated, the first `rem` shares being one unit larger.
pub open spec fn delegation_of(v: Seq<ValidatorResponse>, amount: int, j: int) -> int {
    let t = total_delegated(v) + amount;
    delegation_at(v, t / v.len() as int, t % v.len() as int, amount, j)
}

/// Sum of the shortfalls of the first `j` validators.
pub open spec fn shortfall_sum(v: Seq<ValidatorResponse>, per: int, rem: int, j: int) -> int
    decreases j,
{
    if j <= 0 {
        0
    } else {
        shortfall_sum(v, per, rem, j - 1) + shortfall_at(v, per, rem, j - 1)
    }
}

proof fn lemma_left_before(v: Seq<ValidatorResponse>, per: int, rem: int, amount: int, j: int)
    requires
        0 <= amount,
        0 <= j,
    ensures
        0 <= left_before(v, per, rem, amount, j) <= amount,
        left_before(v, per, rem, amount, j) == 0 || left_before(v, per, rem, amount, j) == amount
            - shortfall_sum(v, per, rem, j),
    decreases j,
{
    if j > 0 {
        lemma_left_before(v, per, rem, amount, j - 1);
    }
}

proof fn lemma_shortfall_covers(v: Seq<ValidatorResponse>, per: int, rem: int, j: int)
    requires
        0 <= j <= v.len(),
        per >= 0,
        rem >= 0,
    ensures
        shortfall_sum(v, per, rem, j) >= targets_sum(per, rem, j) - total_delegated(v.subrange(0, j)),
    decreases j,
{
    if j > 0 {
        lemma_shortfall_covers(v, per, rem, j - 1);
        assert(v.subrange(0, j).drop_last() == v.subrange(0, j - 1));
        assert(per * j == per * (j - 1) + per) by (nonlinear_arith);
    } else {
        assert(per * 0 == 0) by (nonlinear_arith);
    }
}

/// Splits `buffered_balance` over the validators as `delegation_of` says;
/// returns what is left, which is always nothing, and the amount for each
/// validator. Fails on an empty set or when the totals leave the `u128` range.
pub fn calculate_delegations(buffered_balance: u128, validators: &Vec<ValidatorResponse>) -> (r:
    Result<(u128, Vec<u128>), HubError>)
    ensures
        r is Ok <==> validators@.len() > 0 && total_delegated(validators@) + buffered_balance
            <= u128::MAX,
        r matches Ok(v) ==> v.1@.len() == validators@.len() && v.0 == 0 && sum_amounts(v.1@)
            == buffered_balance,
        r matches Ok(v) ==> forall|j: int|
            0 <= j < v.1@.len() ==> #[trigger] v.1@[j] == delegation_of(validators@, buffered_balance as int, j),
        r matches Err(e) ==> (validators@.len() == 0 ==> e == HubError::NotConfigured),
        r matches Err(e) ==> (validators@.len() > 0 ==> e == HubError::Arithmetic),
{
    let n = validators.len();
    if n == 0 {
        return Err(HubError::NotConfigured);
    }
    let mut total: u128 = 0;
    let mut i: usize = 0;
    while i < n
        invariant
            n == validators@.len(),
            i <= n,
            total as int == total_delegated(validators@.subrange(0, i as int)),
        decreases n - i,
    {
        assert(validators@.subrange(0, i as int + 1).drop_last() == validators@.subrange(0, i as int));
        if total > u128::MAX - validators[i].total_delegated {
            proof {
                lemma_total_prefix_monotone(validators@, i as int + 1);
            }
            return Err(HubError::Arithmetic);
        }
        total = total + validators[i].total_delegated;
        i = i + 1;
    }
    assert(validators@.subrange(0, n as int) == validators@);
    if total > u128::MAX - buffered_balance {
        return Err(HubError::Arithmetic);
    }
    let to_distribute = total + buffered_balance;
    let per_validator = to_distribute / (n as u128);
    let remaining_coins = to_distribute % (n as u128);
    let ghost per = per_validator as int;
    let ghost rem = remaining_coins as int;
    let ghost amount = buffered_balance as int;
    let mut buffered = buffered_balance;
    let mut delegations: Vec<u128> = Vec::new();
    let mut j: usize = 0;
    while j < n
        invariant
            n == validators@.len(),
            n > 0,
            j <= n,
            delegations@.len() == j,
            buffered + sum_amounts(delegations@) == buffered_balance,
            per_validator == to_distribute / (n as u128),
            remaining_coins == to_distribute % (n as u128),
            per == per_validator,
            rem == remaining_coins,
            amount == buffered_balance,
            to_distribute == total_delegated(validators@) + buffered_balance,
            buffered == left_before(validators@, per, rem, amount, j as int),
            forall|k: int|
                0 <= k < j ==> #[trigger] delegations@[k] == delegation_at(validators@, per, rem, amount, k),
        decreases n - j,
    {
        let extra: u128 = if (j as u128) + 1 <= remaining_coins {
            1
        } else {
            0
        };
        if extra == 1 {
            proof {
                lemma_quotient_below_max(to_distribute as int, n as int);
            }
        }
        let target = per_validator + extra;
        let mut to_delegate: u128 = 0;
        if target >= validators[j].total_delegated {
            to_delegate = target - validators[j].total_delegated;
            if buffered < to_delegate {
                to_delegate = buffered;
            }
        }
        assert(target as int == target_of(per, rem, j as int));
        assert(to_delegate as int == delegation_at(validators@, per, rem, amount, j as int));
        buffered = buffered - to_delegate;
        let ghost before = delegations@;
        delegations.push(to_delegate);
        assert(delegations@.drop_last() == before);
        j = j + 1;
    }
    proof {
        lemma_left_before(validators@, per, rem, amount, n as int);
        lemma_shortfall_covers(validators@, per, rem, n as int);
        assert(validators@.subrange(0, n as int) == validators@);
        lemma_fundamental_div_mod(to_distribute as int, n as int);
        assert(per * (n as int) == (n as int) * per) by (nonlinear_arith);
        assert(rem < n);
    }
    Ok((buffered, delegations))
}

proof fn lemma_total_prefix_monotone(v: Seq<ValidatorResponse>, k: int)
    requires
        0 <= k <= v.len(),
    ensures
        total_delegated(v.subrange(0, k)) <= total_delegated(v),
    decreases v.len() - k,
{
    if k < v.len() {
        lemma_total_prefix_monotone(v, k + 1);
        assert(v.subrange(0, k + 1).drop_last() == v.subrange(0, k));
    } else {
        assert(v.subrange(0, k) == v);
    }
}


/// The shares of the first `k` validators in one pass: the even share each,
/// plus one for each of the first `rem` validators.
pub open spec fn targets_sum(per: int, rem: int, k: int) -> int {
    per * k + if k < rem {
        k
    } else {
        rem
    }
}

/// The share a validator at `index` is brought down to in one pass.
pub open spec fn target_of(per: int, rem: int, index: int) -> int {
    per + if index + 1 <= rem {
        1int
    } else {
        0int
    }
}

proof fn lemma_sum_update(s: Seq<u128>, i: int, v: u128)
    requires
        0 <= i < s.len(),
    ensures
        sum_amounts(s.update(i, v)) == sum_amounts(s) - s[i] + v,
    decreases s.len(),
{
    if i == s.len() - 1 {
        assert(s.update(i, v).drop_last() == s.drop_last());
    } else {
        lemma_sum_update(s.drop_last(), i, v);
        assert(s.update(i, v).drop_last() == s.drop_last().update(i, v));
    }
}

proof fn lemma_sum_non_negative(s: Seq<u128>)
    ensures
        sum_amounts(s) >= 0,
    decreases s.len(),
{
    if s.len() > 0 {
        lemma_sum_non_negative(s.drop_last());
    }
}

proof fn lemma_element_at_most_sum(s: Seq<u128>, i: int)
    requires
        0 <= i < s.len(),
    ensures
        s[i] <= sum_amounts(s),
    decreases s.len(),
{
    lemma_sum_non_negative(s.drop_last());
    if i < s.len() - 1 {
        lemma_element_at_most_sum(s.drop_last(), i);
    }
}

proof fn lemma_sum_below_targets(s: Seq<u128>, per: int, rem: int, k: int)
    requires
        0 <= k <= s.len(),
        per >= 0,
        rem >= 0,
        forall|j: int| 0 <= j < k ==> s[j] <= #[trigger] target_of(per, rem, j),
    ensures
        sum_amounts(s.subrange(0, k)) <= targets_sum(per, rem, k),
    decreases k,
{
    if k > 0 {
        lemma_sum_below_targets(s, per, rem, k - 1);
        assert(s.subrange(0, k).drop_last() == s.subrange(0, k - 1));
        assert(s[k - 1] <= target_of(per, rem, k - 1));
        assert(per * k == per * (k - 1) + per) by (nonlinear_arith);
    } else {
        assert(per * 0 == 0) by (nonlinear_arith);
    }
}

proof fn lemma_total_as_sum(v: Seq<ValidatorResponse>, d: Seq<u128>)
    requires
        d.len() == v.len(),
        forall|j: int| 0 <= j < v.len() ==> d[j] == #[trigger] v[j].total_delegated,
    ensures
        sum_amounts(d) == total_delegated(v),
    decreases v.len(),
{
    if v.len() > 0 {
        lemma_total_as_sum(v.drop_last(), d.drop_last());
    }
}

/// Splits `undelegation_amount` over the validators so that the largest
/// delegations shrink first toward an even share: in each pass a validator
/// gives what it holds above its share of what will be left. Returns the
/// amount taken from each validator, in order. Fails on an empty set, or when
/// more is asked than is delegated.
pub fn calculate_undelegations(undelegation_amount: u128, validators: &Vec<ValidatorResponse>) -> (r:
    Result<Vec<u128>, HubError>)
    ensures
        r is Ok <==> validators@.len() > 0 && total_delegated(validators@) <= u128::MAX
            && undelegation_amount <= total_delegated(validators@),
        r matches Ok(u) ==> u@.len() == validators@.len() && sum_amounts(u@) == undelegation_amount
            && forall|i: int| 0 <= i < u@.len() ==> #[trigger] u@[i] <= validators@[i].total_delegated,
        r matches Err(e) ==> (validators@.len() == 0 ==> e == HubError::NotConfigured),
        r matches Err(e) ==> (validators@.len() > 0 ==> e == HubError::Arithmetic),
{
    let n = validators.len();
    if n == 0 {
        return Err(HubError::NotConfigured);
    }
    let mut remaining: Vec<u128> = Vec::new();
    let mut undelegations: Vec<u128> = Vec::new();
    let mut total: u128 = 0;
    let mut i: usize = 0;
    while i < n
        invariant
            n == validators@.len(),
            i <= n,
            remaining@.len() == i,
            undelegations@.len() == i,
            forall|j: int| 0 <= j < i ==> #[trigger] remaining@[j] == validators@[j].total_delegated,
            forall|j: int| 0 <= j < i ==> #[trigger] undelegations@[j] == 0,
            total == sum_amounts(remaining@),
            sum_amounts(undelegations@) == 0,
        decreases n - i,
    {
        let d = validators[i].total_delegated;
        let ghost before = remaining@;
        let ghost ubefore = undelegations@;
        if total > u128::MAX - d {
            proof {
                lemma_total_prefix_monotone(validators@, i as int + 1);
                lemma_total_as_sum(validators@.subrange(0, i as int + 1), before.push(d));
                assert(before.push(d).drop_last() == before);
            }
            return Err(HubError::Arithmetic);
        }
        remaining.push(d);
        undelegations.push(0);
        assert(remaining@.drop_last() == before);
        assert(undelegations@.drop_last() == ubefore);
        total = total + d;
        i = i + 1;
    }
    proof {
        lemma_total_as_sum(validators@, remaining@);
    }
    if undelegation_amount > total {
        return Err(HubError::Arithmetic);
    }
    let mut amount = undelegation_amount;
    while amount > 0
        invariant
            n == validators@.len(),
            n > 0,
            remaining@.len() == n,
            undelegations@.len() == n,
            total == sum_amounts(remaining@),
            amount <= total,
            sum_amounts(undelegations@) + amount == undelegation_amount,
            forall|j: int|
                0 <= j < n ==> #[trigger] undelegations@[j] + remaining@[j]
                    == validators@[j].total_delegated,
        decreases amount,
    {
        let ghost amount_before = amount;
        let ghost start = remaining@;
        let after = total - amount;
        let per = after / (n as u128);
        let rem = after % (n as u128);
        let mut k: usize = 0;
        while k < n
            invariant
                n == validators@.len(),
                n > 0,
                k <= n,
                remaining@.len() == n,
                undelegations@.len() == n,
                total == sum_amounts(remaining@),
                amount <= total,
                amount <= amount_before,
                amount_before > 0,
                total - amount == after,
                per == after / (n as u128),
                rem == after % (n as u128),
                start.len() == n,
                sum_amounts(undelegations@) + amount == undelegation_amount,
                forall|j: int|
                    0 <= j < n ==> #[trigger] undelegations@[j] + remaining@[j]
                        == validators@[j].total_delegated,
                amount == amount_before ==> remaining@ == start,
                amount == amount_before ==> forall|j: int|
                    0 <= j < k ==> start[j] <= #[trigger] target_of(per as int, rem as int, j),
            decreases n - k,
        {
            let extra: u128 = if (k as u128) + 1 <= rem {
                1
            } else {
                0
            };
            if extra == 1 {
                proof {
                    lemma_quotient_below_max(after as int, n as int);
                }
            }
            let target = per + extra;
            let held = remaining[k];
            let mut to_undelegate: u128 = if held > target {
                held - target
            } else {
                0
            };
            if amount < to_undelegate {
                to_undelegate = amount;
            }
            proof {
                lemma_sum_update(remaining@, k as int, (held - to_undelegate) as u128);
                lemma_sum_update(undelegations@, k as int, (undelegations@[k as int] + to_undelegate) as u128);
                lemma_element_at_most_sum(remaining@, k as int);
            }
            let u = undelegations[k];
            undelegations.set(k, u + to_undelegate);
            remaining.set(k, held - to_undelegate);
            amount = amount - to_undelegate;
            total = total - to_undelegate;
            proof {
                if amount == amount_before {
                    assert(target as int == target_of(per as int, rem as int, k as int));
                    assert(start[k as int] == held);
                }
            }
            k = k + 1;
        }
        proof {
            if amount == amount_before {
                lemma_sum_below_targets(start, per as int, rem as int, n as int);
                assert(start.subrange(0, n as int) == start);
                lemma_fundamental_div_mod(after as int, n as int);
                assert(per as int * n as int == n as int * per as int) by (nonlinear_arith);
            }
        }
    }
    proof {
        assert forall|j: int| 0 <= j < n implies #[trigger] undelegations@[j]
            <= validators@[j].total_delegated by {
            assert(undelegations@[j] + remaining@[j] == validators@[j].total_delegated);
        }
    }
    Ok(undelegations)
}


/// Whether the validators come largest delegation first.
pub open spec fn sorted_by_delegation(v: Seq<ValidatorResponse>) -> bool {
    forall|i: int, j: int|
        0 <= i < j < v.len() ==> #[trigger] v[i].total_delegated >= #[trigger] v[j].total_delegated
}

/// The validators reordered largest delegation first; among equal delegations
/// the given order is kept.
pub fn sort_by_delegation(validators: Vec<ValidatorResponse>) -> (r: Vec<ValidatorResponse>)
    ensures
        r@.to_multiset() == validators@.to_multiset(),
        r@.len() == validators@.len(),
        sorted_by_delegation(r@),
{
    broadcast use vstd::multiset::group_multiset_axioms;
    broadcast use vstd::seq_lib::group_to_multiset_ensures;

    let ghost input = validators@;
    proof {
        lemma_empty_seq_multiset::<ValidatorResponse>();
    }
    let mut rest = validators;
    let mut out: Vec<ValidatorResponse> = Vec::new();
    while rest.len() > 0
        invariant
            out@.to_multiset().add(rest@.to_multiset()) == input.to_multiset(),
            out@.len() + rest@.len() == input.len(),
            sorted_by_delegation(out@),
            forall|a: int, b: int|
                0 <= a < out@.len() && 0 <= b < rest@.len() ==> #[trigger] out@[a].total_delegated
                    >= #[trigger] rest@[b].total_delegated,
        decreases rest@.len(),
    {
        let mut m: usize = 0;
        let mut j: usize = 1;
        while j < rest.len()
            invariant
                m < j <= rest@.len(),
                forall|b: int| 0 <= b < j ==> rest@[m as int].total_delegated >= #[trigger] rest@[b].total_delegated,
            decreases rest@.len() - j,
        {
            if rest[j].total_delegated > rest[m].total_delegated {
                m = j;
            }
            j = j + 1;
        }
        let ghost old_rest = rest@;
        let ghost old_out = out@;
        let x = rest.remove(m);
        proof {
            to_multiset_remove(old_rest, m as int);
            to_multiset_build(old_out, x);
            assert(old_rest.contains(x));
            old_rest.to_multiset_ensures();
            assert(old_rest.to_multiset().count(x) > 0);
        }
        out.push(x);
        proof {
            assert(out@.to_multiset() == old_out.to_multiset().insert(x));
            assert(rest@.to_multiset() == old_rest.to_multiset().remove(x));
            assert(out@.to_multiset().add(rest@.to_multiset()) =~= old_out.to_multiset().add(
                old_rest.to_multiset(),
            ));
            assert forall|a: int, b: int|
                0 <= a < out@.len() && 0 <= b < rest@.len() implies #[trigger] out@[a].total_delegated
                >= #[trigger] rest@[b].total_delegated by {
                let ob = if b < m { b } else { b + 1 };
                assert(rest@[b] == old_rest[ob]);
                if a < old_out.len() {
                    assert(old_out[a].total_delegated >= old_rest[ob].total_delegated);
                }
            }
            assert forall|a: int, b: int|
                0 <= a < b < out@.len() implies #[trigger] out@[a].total_delegated
                >= #[trigger] out@[b].total_delegated by {
                if b == out@.len() - 1 {
                    assert(old_out[a].total_delegated >= old_rest[m as int].total_delegated);
                }
            }
        }
    }
    assert(rest@.len() == 0);
    assert(rest@.to_multiset().len() == 0);
    assert(rest@.to_multiset() =~= vstd::multiset::Multiset::empty());
    assert(out@.to_multiset() =~= input.to_multiset());
    proof {
        input.to_multiset_ensures();
        out@.to_multiset_ensures();
    }
    out
}

/// The validators of `vs` whose amount in `u` is positive, with that amount, in order.
pub open spec fn nonzero_pairs(vs: Seq<ValidatorResponse>, u: Seq<u128>) -> Seq<(String, u128)>
    decreases vs.len(),
{
    if vs.len() == 0 || u.len() == 0 {
        Seq::empty()
    } else {
        let rest = nonzero_pairs(vs.drop_last(), u.drop_last());
        if u.last() > 0 {
            rest.push((vs.last().address, u.last()))
        } else {
            rest
        }
    }
}

/// Whether `u` is a split of `claim` over `vs` as `calculate_undelegations`
/// promises: one amount per validator, each at most what it holds, summing to
/// the claim.
pub open spec fn undelegation_split(vs: Seq<ValidatorResponse>, u: Seq<u128>, claim: int) -> bool {
    &&& u.len() == vs.len()
    &&& sum_amounts(u) == claim
    &&& forall|i: int| 0 <= i < u.len() ==> #[trigger] u[i] <= vs[i].total_delegated
}

/// Chooses where to undelegate `claim` from, given the hub's current
/// delegations: the validators are put largest delegation first, the claim is
/// split over them by `calculate_undelegations`, and each validator that gives
/// something comes out with its amount, in that order.
pub fn pick_validator(claim: u128, delegations: Vec<ValidatorResponse>) -> (r: Result<
    Vec<(String, u128)>,
    HubError,
>)
    ensures
        r is Ok <==> delegations@.len() > 0 && total_delegated(delegations@) <= u128::MAX && claim
            <= total_delegated(delegations@),
        r matches Ok(msgs) ==> exists|vs: Seq<ValidatorResponse>, u: Seq<u128>|
            {
                &&& vs.to_multiset() == delegations@.to_multiset()
                &&& sorted_by_delegation(vs)
                &&& undelegation_split(vs, u, claim as int)
                &&& msgs@ == #[trigger] nonzero_pairs(vs, u)
            },
        r matches Ok(msgs) ==> ({
            let amounts = Seq::new(msgs@.len(), |k: int| msgs@[k].1);
            &&& sum_amounts(amounts) == claim
            &&& forall|k: int| 0 <= k < msgs@.len() ==> (#[trigger] msgs@[k]).1 > 0
        }),
        r matches Err(e) ==> (e == HubError::NotConfigured || e == HubError::Arithmetic),
{
    let ghost input = delegations@;
    let validators = sort_by_delegation(delegations);
    proof {
        lemma_total_permutation(validators@, input);
    }
    let undelegations = calculate_undelegations(claim, &validators)?;
    let mut msgs: Vec<(String, u128)> = Vec::new();
    let mut i: usize = 0;
    while i < validators.len()
        invariant
            i <= validators@.len(),
            undelegations@.len() == validators@.len(),
            sum_amounts(Seq::new(msgs@.len(), |k: int| msgs@[k].1)) == sum_amounts(
                undelegations@.subrange(0, i as int),
            ),
            forall|k: int| 0 <= k < msgs@.len() ==> (#[trigger] msgs@[k]).1 > 0,
            msgs@ == nonzero_pairs(validators@.subrange(0, i as int), undelegations@.subrange(0, i as int)),
        decreases validators@.len() - i,
    {
        let ghost before = msgs@;
        assert(undelegations@.subrange(0, i as int + 1).drop_last() == undelegations@.subrange(0, i as int));
        assert(validators@.subrange(0, i as int + 1).drop_last() == validators@.subrange(0, i as int));
        if undelegations[i] > 0 {
            msgs.push((validators[i].address.clone(), undelegations[i]));
            assert(Seq::new(msgs@.len(), |k: int| msgs@[k].1).drop_last() =~= Seq::new(
                before.len(),
                |k: int| before[k].1,
            ));
        }
        i = i + 1;
    }
    assert(undelegations@.subrange(0, validators@.len() as int) == undelegations@);
    assert(validators@.subrange(0, validators@.len() as int) == validators@);
    assert(undelegation_split(validators@, undelegations@, claim as int));
    assert(msgs@ == nonzero_pairs(validators@, undelegations@));
    Ok(msgs)
}

proof fn lemma_empty_seq_multiset<A>()
    ensures
        Seq::<A>::empty().to_multiset() =~= vstd::multiset::Multiset::<A>::empty(),
{
    broadcast use vstd::seq_lib::group_to_multiset_ensures;

    assert(Seq::<A>::empty().to_multiset().len() == 0);
}

proof fn lemma_total_permutation(a: Seq<ValidatorResponse>, b: Seq<ValidatorResponse>)
    requires
        a.to_multiset() == b.to_multiset(),
    ensures
        total_delegated(a) == total_delegated(b),
    decreases a.len(),
{
    broadcast use vstd::multiset::group_multiset_axioms;

    a.to_multiset_ensures();
    b.to_multiset_ensures();
    if a.len() > 0 {
        let x = a.last();
        assert(a.to_multiset().count(x) > 0);
        assert(b.contains(x));
        let i = choose|i: int| 0 <= i < b.len() && b[i] == x;
        to_multiset_remove(b, i);
        assert(a.drop_last().push(x) == a);
        to_multiset_build(a.drop_last(), x);
        assert(a.drop_last().to_multiset() =~= b.remove(i).to_multiset());
        lemma_total_permutation(a.drop_last(), b.remove(i));
        lemma_total_remove(b, i);
    }
}

proof fn lemma_total_remove(b: Seq<ValidatorResponse>, i: int)
    requires
        0 <= i < b.len(),
    ensures
        total_delegated(b.remove(i)) + b[i].total_delegated == total_delegated(b),
    decreases b.len(),
{
    if i == b.len() - 1 {
        assert(b.remove(i) == b.drop_last());
    } else {
        lemma_total_remove(b.drop_last(), i);
        assert(b.remove(i).drop_last() == b.drop_last().remove(i));
        assert(b.remove(i).last() == b.last());
    }
}

} // verus!
