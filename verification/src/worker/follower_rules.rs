//! The rules by which a follower judges the balances that a leader proposes.

use crate::primitives::balances_map::BalancesMap;
use crate::primitives::big_num::BigNum;
use crate::primitives::channel::Channel;
use crate::primitives::string_map::{
    amount_at, is_key_order, key_order, keyed_sum, lemma_map_sum_by_keys, lemma_map_sum_remove,
    map_sum,
};
use crate::worker::events::min_nat;
use vstd::prelude::*;

verus! {

/// A step from `prev` to `next` is valid when no address has less than
/// before and the new balances fit into `deposit`. An address without an
/// entry counts as having nothing.
pub open spec fn valid_transition(
    deposit: nat,
    prev: Map<Seq<char>, nat>,
    next: Map<Seq<char>, nat>,
) -> bool {
    &&& forall|k: Seq<char>| #[trigger] prev.dom().contains(k) ==> amount_at(next, k) >= prev[k]
    &&& map_sum(next) <= deposit
}

/// For every address of `ours`, the smaller of what we and what they say it
/// has.
pub open spec fn agreed(ours: Map<Seq<char>, nat>, theirs: Map<Seq<char>, nat>) -> Map<
    Seq<char>,
    nat,
> {
    Map::new(|k: Seq<char>| ours.dom().contains(k), |k: Seq<char>| min_nat(ours[k], amount_at(theirs, k)))
}

/// How close `theirs` is to `ours`, in promille: 1000 when they hold at least
/// as much in sum as we do, and otherwise the part of our sum that they agree
/// with.
pub open spec fn health(ours: Map<Seq<char>, nat>, theirs: Map<Seq<char>, nat>) -> nat {
    if map_sum(theirs) >= map_sum(ours) {
        1000
    } else {
        1000 * map_sum(agreed(ours, theirs)) / map_sum(ours)
    }
}

/// What they agree with is never more than what we hold.
pub proof fn lemma_agreed_bound(ours: Map<Seq<char>, nat>, theirs: Map<Seq<char>, nat>)
    requires
        ours.dom().finite(),
    ensures
        agreed(ours, theirs).dom().finite(),
        map_sum(agreed(ours, theirs)) <= map_sum(ours),
    decreases ours.dom().len(),
{
    let a = agreed(ours, theirs);
    assert(a.dom() =~= ours.dom());
    if ours.dom().len() > 0 {
        let k = ours.dom().choose();
        lemma_map_sum_remove(ours, k);
        lemma_map_sum_remove(a, k);
        lemma_agreed_bound(ours.remove(k), theirs);
        assert(a.remove(k) =~= agreed(ours.remove(k), theirs));
    }
}

/// A finite map whose values are all zero sums to zero.
pub proof fn lemma_map_sum_zero(m: Map<Seq<char>, nat>)
    requires
        m.dom().finite(),
        forall|k: Seq<char>| #[trigger] m.dom().contains(k) ==> m[k] == 0,
    ensures
        map_sum(m) == 0,
    decreases m.dom().len(),
{
    if m.dom().len() > 0 {
        let k = m.dom().choose();
        lemma_map_sum_remove(m, k);
        lemma_map_sum_zero(m.remove(k));
    }
}

/// Health is a promille: it never exceeds 1000.
pub proof fn lemma_health_bound(ours: Map<Seq<char>, nat>, theirs: Map<Seq<char>, nat>)
    requires
        ours.dom().finite(),
    ensures
        health(ours, theirs) <= 1000,
{
    lemma_agreed_bound(ours, theirs);
    let a = map_sum(agreed(ours, theirs));
    let s = map_sum(ours);
    if map_sum(theirs) < s {
        assert(1000 * a / s <= 1000) by (nonlinear_arith)
            requires
                a <= s,
                s > 0,
        ;
    }
}

/// Staying where one is, is a valid step, as long as the balances fit into
/// the deposit at all.
pub proof fn lemma_transition_reflexive(deposit: nat, m: Map<Seq<char>, nat>)
    requires
        map_sum(m) <= deposit,
    ensures
        valid_transition(deposit, m, m),
{
}

/// A step that takes something away from one address, and leaves the others
/// as they were, is not valid.
pub proof fn lemma_transition_decrease(
    deposit: nat,
    m: Map<Seq<char>, nat>,
    k: Seq<char>,
    less: nat,
)
    requires
        m.dom().contains(k),
        less < m[k],
    ensures
        !valid_transition(deposit, m, m.insert(k, less)),
{
    assert(amount_at(m.insert(k, less), k) < m[k]);
}

/// Balances are in full health against themselves.
pub proof fn lemma_health_of_same(m: Map<Seq<char>, nat>)
    ensures
        health(m, m) == 1000,
{
}

/// Against balances that hold nothing, balances that hold something have no
/// health at all.
pub proof fn lemma_health_of_nothing(ours: Map<Seq<char>, nat>, theirs: Map<Seq<char>, nat>)
    requires
        ours.dom().finite(),
        theirs.dom().finite(),
        map_sum(ours) > 0,
        forall|k: Seq<char>| #[trigger] theirs.dom().contains(k) ==> theirs[k] == 0,
    ensures
        health(ours, theirs) == 0,
{
    lemma_map_sum_zero(theirs);
    assert(agreed(ours, theirs).dom() =~= ours.dom());
    lemma_map_sum_zero(agreed(ours, theirs));
    let s = map_sum(ours);
    let a = map_sum(agreed(ours, theirs));
    assert(1000 * a / s == 0) by (nonlinear_arith)
        requires
            a == 0,
            s > 0,
    ;
}

/// Whether the step from `prev` to `next` is valid on `channel`: nobody
/// loses anything, and `next` fits into the deposit.
pub fn is_valid_transition(channel: &Channel, prev: &BalancesMap, next: &BalancesMap) -> (r: bool)
    ensures
        r == valid_transition(channel.deposit_amount@, prev@, next@),
{
    let n: usize = prev.len();
    let ghost keys = key_order(prev@.dom());
    let mut i: usize = 0;
    while i < n
        invariant
            n == prev@.dom().len(),
            n == keys.len(),
            keys == key_order(prev@.dom()),
            is_key_order(prev@.dom(), keys),
            i <= n,
            forall|j: int| 0 <= j < i ==> amount_at(next@, #[trigger] keys[j]) >= prev@[keys[j]],
        decreases n - i,
    {
        let key = prev.key_at(i);
        let theirs = next.get(key.as_str());
        if theirs.lt(prev.amount_at(i)) {
            return false;
        }
        i = i + 1;
    }
    proof {
        assert forall|k: Seq<char>| #[trigger] prev@.dom().contains(k) implies amount_at(next@, k)
            >= prev@[k] by {
            assert(keys.contains(k));
            let j = choose|j: int| 0 <= j < keys.len() && keys[j] == k;
            assert(amount_at(next@, keys[j]) >= prev@[keys[j]]);
        }
    }
    next.total().le(&channel.deposit_amount)
}

/// The health of `their_balances` against `our_balances`, in promille.
pub fn get_health(channel: &Channel, our_balances: &BalancesMap, their_balances: &BalancesMap) -> (r:
    u64)
    ensures
        r == health(our_balances@, their_balances@),
        r <= 1000,
{
    let ours = our_balances.total();
    let theirs = their_balances.total();
    let _ = their_balances.len();
    let n: usize = our_balances.len();
    proof {
        lemma_health_bound(our_balances@, their_balances@);
    }
    if ours.le(&theirs) {
        return 1000;
    }
    let ghost keys = key_order(our_balances@.dom());
    let ghost mins = agreed(our_balances@, their_balances@);
    let mut shared = BigNum::zero();
    let mut i: usize = 0;
    while i < n
        invariant
            n == our_balances@.dom().len(),
            n == keys.len(),
            keys == key_order(our_balances@.dom()),
            is_key_order(our_balances@.dom(), keys),
            mins == agreed(our_balances@, their_balances@),
            i <= n,
            shared@ == keyed_sum(mins, keys, i as int),
        decreases n - i,
    {
        let key = our_balances.key_at(i);
        let theirs_here = their_balances.get(key.as_str());
        let least = our_balances.amount_at(i).min(&theirs_here);
        shared = shared.plus(&least);
        i = i + 1;
    }
    proof {
        assert(mins.dom() =~= our_balances@.dom());
        lemma_map_sum_by_keys(mins, keys);
    }
    let promille = BigNum::from_u64(1000).times(&shared).div_floor(&ours);
    match promille.to_u64() {
        Some(h) => h,
        None => 1000,
    }
}

} // verus!
