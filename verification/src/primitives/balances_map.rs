//! Balances: how much each address has earned.

use crate::primitives::big_num::BigNum;
use crate::primitives::string_map::{
    amount_at, is_key_order, key_order, keyed_sum, lemma_keys_are_key_order,
    lemma_map_sum_by_keys, lemma_map_sum_insert, map_sum, StringMap,
};
use vstd::prelude::*;

verus! {

/// A map from addresses to amounts. Its view is the mathematical map from
/// the characters of each address to its amount; entries are walked in
/// ascending order of the addresses.
#[derive(Debug)]
pub struct BalancesMap {
    inner: StringMap<BigNum>,
}

impl View for BalancesMap {
    type V = Map<Seq<char>, nat>;

    closed spec fn view(&self) -> Map<Seq<char>, nat> {
        self.inner@.map_values(|b: BigNum| b@)
    }
}

impl BalancesMap {
    /// The sum of all amounts.
    pub open spec fn sum(&self) -> nat {
        map_sum(self@)
    }

    /// The map without entries.
    pub fn new() -> (r: BalancesMap)
        ensures
            r@ == Map::<Seq<char>, nat>::empty(),
    {
        let r = BalancesMap { inner: StringMap::new() };
        assert(r@ =~= Map::<Seq<char>, nat>::empty());
        r
    }

    /// The number of addresses. The domain of a balances map is finite.
    pub fn len(&self) -> (n: usize)
        ensures
            n == self@.dom().len(),
            n == key_order(self@.dom()).len(),
            self@.dom().finite(),
            is_key_order(self@.dom(), key_order(self@.dom())),
    {
        let n = self.inner.len();
        proof {
            assert(self@.dom() =~= self.inner@.dom());
            lemma_keys_are_key_order(self.inner.keys(), self.inner.values());
        }
        n
    }

    /// The `i`-th address in ascending order.
    pub fn key_at(&self, i: usize) -> (k: &String)
        requires
            i < self@.dom().len(),
        ensures
            k@ == key_order(self@.dom())[i as int],
            self@.dom().contains(k@),
    {
        proof {
            assert(self@.dom() =~= self.inner@.dom());
        }
        let _ = self.inner.len();
        self.inner.key_at(i)
    }

    /// The amount of the `i`-th address in ascending order.
    pub fn amount_at(&self, i: usize) -> (v: &BigNum)
        requires
            i < self@.dom().len(),
        ensures
            v@ == self@[key_order(self@.dom())[i as int]],
    {
        proof {
            assert(self@.dom() =~= self.inner@.dom());
        }
        let _ = self.inner.len();
        let _ = self.inner.key_at(i);
        self.inner.value_at(i)
    }

    /// Whether `key` has an entry.
    pub fn contains_key(&self, key: &str) -> (r: bool)
        ensures
            r == self@.dom().contains(key@),
    {
        self.inner.contains_key(key)
    }

    /// The amount under `key`; zero where it has no entry.
    pub fn get(&self, key: &str) -> (r: BigNum)
        ensures
            r@ == amount_at(self@, key@),
    {
        match self.inner.get(key) {
            Some(v) => v.clone(),
            None => BigNum::zero(),
        }
    }

    /// Sets the amount under `key`.
    pub fn set(&mut self, key: String, amount: BigNum)
        ensures
            final(self)@ == old(self)@.insert(key@, amount@),
    {
        let ghost a = amount@;
        self.inner.insert(key, amount);
        assert(self@ =~= old(self)@.insert(key@, a));
    }

    /// Adds `amount` to what `key` has, starting from zero where it had no
    /// entry. The entry exists afterwards even when `amount` is zero.
    pub fn credit(&mut self, key: String, amount: &BigNum)
        ensures
            final(self)@ == old(self)@.insert(key@, amount_at(old(self)@, key@) + amount@),
            final(self).sum() == old(self).sum() + amount@,
    {
        let _ = self.len();
        let next = self.get(key.as_str()).plus(amount);
        proof {
            lemma_map_sum_insert(self@, key@, next@);
        }
        self.set(key, next);
    }

    /// The sum of all amounts.
    pub fn total(&self) -> (r: BigNum)
        ensures
            r@ == self.sum(),
    {
        let n: usize = self.len();
        let ghost keys = key_order(self@.dom());
        let mut acc = BigNum::zero();
        let mut i: usize = 0;
        while i < n
            invariant
                n == self@.dom().len(),
                keys == key_order(self@.dom()),
                i <= n,
                acc@ == keyed_sum(self@, keys, i as int),
            decreases n - i,
        {
            acc = acc.plus(self.amount_at(i));
            i = i + 1;
        }
        proof {
            lemma_map_sum_by_keys(self@, keys);
        }
        acc
    }
}

impl Clone for BalancesMap {
    fn clone(&self) -> (r: BalancesMap)
        ensures
            r@ == self@,
    {
        let n: usize = self.len();
        let ghost keys = key_order(self@.dom());
        let mut out = BalancesMap::new();
        let mut i: usize = 0;
        while i < n
            invariant
                n == self@.dom().len(),
                n == keys.len(),
                keys == key_order(self@.dom()),
                is_key_order(self@.dom(), keys),
                i <= n,
                forall|k: Seq<char>|
                    out@.dom().contains(k) <==> exists|j: int| 0 <= j < i && keys[j] == k,
                forall|k: Seq<char>| out@.dom().contains(k) ==> out@[k] == self@[k],
            decreases n - i,
        {
            let ghost before = out@;
            out.set(self.key_at(i).clone(), self.amount_at(i).clone());
            proof {
                assert forall|k: Seq<char>| out@.dom().contains(k) <==> exists|j: int|
                    0 <= j < i + 1 && keys[j] == k by {
                    if before.dom().contains(k) {
                        let j = choose|j: int| 0 <= j < i && keys[j] == k;
                        assert(0 <= j < i + 1 && keys[j] == k);
                    }
                    if k == keys[i as int] {
                        assert(0 <= i < i + 1 && keys[i as int] == k);
                    }
                }
            }
            i = i + 1;
        }
        proof {
            assert forall|k: Seq<char>| out@.dom().contains(k) <==> self@.dom().contains(k) by {
                if self@.dom().contains(k) {
                    assert(keys.contains(k));
                    let j = choose|j: int| 0 <= j < keys.len() && keys[j] == k;
                    assert(0 <= j < i && keys[j] == k);
                }
                if out@.dom().contains(k) {
                    let j = choose|j: int| 0 <= j < i && keys[j] == k;
                    assert(keys.contains(k));
                }
            }
            assert(out@ =~= self@);
        }
        out
    }
}

} // verus!
