//! Maps keyed by strings, kept sorted by key.
//!
//! A [`StringMap`] holds its entries in a vector, in strictly ascending
//! dictionary order of the keys. No key occurs twice, and a walk over the
//! entries always meets the keys in the same order, whatever the order in
//! which they were put in.

use crate::primitives::text::{lemma_lex_lt_total, lemma_lex_lt_trans, lemma_order_flip, lemma_order_same, lex_lt, order, str_order, Order};
use vstd::prelude::*;

verus! {

/// The keys ascend strictly in dictionary order.
pub open spec fn sorted(keys: Seq<Seq<char>>) -> bool {
    forall|i: int, j: int| 0 <= i < j < keys.len() ==> lex_lt(#[trigger] keys[i], #[trigger] keys[j])
}

/// The map that takes `keys[i]` to `vals[i]` for every position `i`.
pub open spec fn zip_map<V>(keys: Seq<Seq<char>>, vals: Seq<V>) -> Map<Seq<char>, V>
    decreases keys.len(),
{
    if keys.len() == 0 || keys.len() != vals.len() {
        Map::empty()
    } else {
        zip_map(keys.drop_last(), vals.drop_last()).insert(keys.last(), vals.last())
    }
}

/// Sorted keys are pairwise different.
pub proof fn lemma_sorted_distinct(keys: Seq<Seq<char>>, i: int, j: int)
    requires
        sorted(keys),
        0 <= i < keys.len(),
        0 <= j < keys.len(),
        i != j,
    ensures
        keys[i] != keys[j],
{
    lemma_lex_lt_total(keys[i], keys[j]);
    lemma_lex_lt_total(keys[j], keys[i]);
}

/// What `zip_map` holds: its domain is finite and is the set of the keys, and
/// under sorted keys each key is taken to the value at its own position.
pub proof fn lemma_zip_map<V>(keys: Seq<Seq<char>>, vals: Seq<V>)
    requires
        keys.len() == vals.len(),
        sorted(keys),
    ensures
        zip_map(keys, vals).dom().finite(),
        zip_map(keys, vals).dom().len() == keys.len(),
        forall|k: Seq<char>| zip_map(keys, vals).dom().contains(k) <==> keys.contains(k),
        forall|i: int| 0 <= i < keys.len() ==> zip_map(keys, vals)[#[trigger] keys[i]] == vals[i],
    decreases keys.len(),
{
    if keys.len() > 0 {
        let n = keys.len() - 1;
        let pk = keys.drop_last();
        let pv = vals.drop_last();
        assert(sorted(pk)) by {
            assert forall|i: int, j: int| 0 <= i < j < pk.len() implies lex_lt(
                #[trigger] pk[i],
                #[trigger] pk[j],
            ) by {
                assert(pk[i] == keys[i] && pk[j] == keys[j]);
            }
        }
        lemma_zip_map(pk, pv);
        let m = zip_map(keys, vals);
        let pm = zip_map(pk, pv);
        assert(!pm.dom().contains(keys[n])) by {
            if pk.contains(keys[n]) {
                let i = choose|i: int| 0 <= i < pk.len() && pk[i] == keys[n];
                lemma_sorted_distinct(keys, i, n);
            }
        }
        assert forall|k: Seq<char>| m.dom().contains(k) <==> keys.contains(k) by {
            if keys.contains(k) {
                let i = choose|i: int| 0 <= i < keys.len() && keys[i] == k;
                if i < n {
                    assert(pk[i] == k);
                }
            }
            if pk.contains(k) {
                let i = choose|i: int| 0 <= i < pk.len() && pk[i] == k;
                assert(keys[i] == k);
            }
            if k == keys[n] {
                assert(keys[n] == k);
            }
        }
        assert forall|i: int| 0 <= i < keys.len() implies m[#[trigger] keys[i]] == vals[i] by {
            if i < n {
                lemma_sorted_distinct(keys, i, n);
                assert(pk[i] == keys[i]);
                assert(pv[i] == vals[i]);
            }
        }
    }
}

/// The sum of the values of a finite map.
pub open spec fn map_sum(m: Map<Seq<char>, nat>) -> nat
    decreases m.dom().len(),
    when m.dom().finite()
{
    if m.dom().len() == 0 {
        0
    } else {
        let k = m.dom().choose();
        m[k] + map_sum(m.remove(k))
    }
}

/// The value under `k`, or zero where the map has no such key.
pub open spec fn amount_at(m: Map<Seq<char>, nat>, k: Seq<char>) -> nat {
    if m.dom().contains(k) {
        m[k]
    } else {
        0
    }
}

/// The sum can be taken with any key first.
pub proof fn lemma_map_sum_remove(m: Map<Seq<char>, nat>, k: Seq<char>)
    requires
        m.dom().finite(),
        m.dom().contains(k),
    ensures
        map_sum(m) == m[k] + map_sum(m.remove(k)),
    decreases m.dom().len(),
{
    let c = m.dom().choose();
    if c != k {
        lemma_map_sum_remove(m.remove(c), k);
        lemma_map_sum_remove(m.remove(k), c);
        assert(m.remove(c).remove(k) =~= m.remove(k).remove(c));
    }
}

/// Setting the value under `k` changes the sum by the change of that value.
pub proof fn lemma_map_sum_insert(m: Map<Seq<char>, nat>, k: Seq<char>, v: nat)
    requires
        m.dom().finite(),
    ensures
        map_sum(m.insert(k, v)) + amount_at(m, k) == map_sum(m) + v,
{
    let m2 = m.insert(k, v);
    lemma_map_sum_remove(m2, k);
    if m.dom().contains(k) {
        lemma_map_sum_remove(m, k);
        assert(m2.remove(k) =~= m.remove(k));
    } else {
        assert(m2.remove(k) =~= m);
    }
}

/// A map from strings to values of type `V`, with its entries in ascending
/// order of the keys.
#[derive(Debug)]
pub struct StringMap<V> {
    entries: Vec<(String, V)>,
}

impl<V> View for StringMap<V> {
    type V = Map<Seq<char>, V>;

    open spec fn view(&self) -> Map<Seq<char>, V> {
        zip_map(self.keys(), self.values())
    }
}

/// `key` stands at position `at` of `keys` when `found`, and else belongs
/// there: everything before `at` is smaller, everything from `at` on larger.
pub open spec fn is_place(keys: Seq<Seq<char>>, key: Seq<char>, at: int, found: bool) -> bool {
    &&& 0 <= at <= keys.len()
    &&& found ==> at < keys.len() && keys[at] == key
    &&& !found ==> !keys.contains(key)
    &&& forall|j: int| 0 <= j < at ==> lex_lt(#[trigger] keys[j], key)
    &&& forall|j: int| at <= j < keys.len() && !(found && j == at) ==> lex_lt(key, #[trigger] keys[j])
}

/// Putting a key into its place keeps the keys sorted.
pub proof fn lemma_insert_sorted(keys: Seq<Seq<char>>, key: Seq<char>, at: int)
    requires
        sorted(keys),
        is_place(keys, key, at, false),
    ensures
        sorted(keys.insert(at, key)),
{
    let nk = keys.insert(at, key);
    assert forall|i: int, j: int| 0 <= i < j < nk.len() implies lex_lt(
        #[trigger] nk[i],
        #[trigger] nk[j],
    ) by {
        if i < at && j == at {
            assert(nk[i] == keys[i]);
        } else if i < at && j > at {
            assert(nk[i] == keys[i] && nk[j] == keys[j - 1]);
        } else if i < at && j < at {
            assert(nk[i] == keys[i] && nk[j] == keys[j]);
        } else if i == at {
            assert(nk[j] == keys[j - 1]);
        } else {
            assert(nk[i] == keys[i - 1] && nk[j] == keys[j - 1]);
        }
    }
}

/// Replacing the value at one position sets the value under that key.
pub proof fn lemma_zip_update<V>(keys: Seq<Seq<char>>, vals: Seq<V>, at: int, v: V)
    requires
        keys.len() == vals.len(),
        sorted(keys),
        0 <= at < keys.len(),
    ensures
        zip_map(keys, vals.update(at, v)) == zip_map(keys, vals).insert(keys[at], v),
{
    let nv = vals.update(at, v);
    let a = zip_map(keys, nv);
    let b = zip_map(keys, vals).insert(keys[at], v);
    lemma_zip_map(keys, vals);
    lemma_zip_map(keys, nv);
    assert(keys.contains(keys[at]));
    assert(nv.len() == keys.len());
    assert forall|k: Seq<char>| a.dom().contains(k) <==> b.dom().contains(k) by {
        assert(a.dom().contains(k) <==> keys.contains(k));
        assert(zip_map(keys, vals).dom().contains(k) <==> keys.contains(k));
        assert(b.dom() == zip_map(keys, vals).dom().insert(keys[at]));
        if k == keys[at] {
            assert(keys.contains(k));
        }
    }
    assert forall|k: Seq<char>| a.dom().contains(k) implies a[k] == b[k] by {
        assert(keys.contains(k));
        let i = choose|i: int| 0 <= i < keys.len() && keys[i] == k;
        assert(a[keys[i]] == nv[i]);
        assert(zip_map(keys, vals)[keys[i]] == vals[i]);
        if i != at {
            lemma_sorted_distinct(keys, i, at);
        }
    }
    assert(a =~= b);
}

/// Putting a new key and its value into their place adds that entry.
pub proof fn lemma_zip_insert<V>(keys: Seq<Seq<char>>, vals: Seq<V>, at: int, k: Seq<char>, v: V)
    requires
        keys.len() == vals.len(),
        sorted(keys),
        is_place(keys, k, at, false),
    ensures
        sorted(keys.insert(at, k)),
        zip_map(keys.insert(at, k), vals.insert(at, v)) == zip_map(keys, vals).insert(k, v),
{
    let nk = keys.insert(at, k);
    let nv = vals.insert(at, v);
    let a = zip_map(nk, nv);
    let b = zip_map(keys, vals).insert(k, v);
    lemma_insert_sorted(keys, k, at);
    lemma_zip_map(keys, vals);
    lemma_zip_map(nk, nv);
    assert forall|x: Seq<char>| a.dom().contains(x) <==> b.dom().contains(x) by {
        if nk.contains(x) {
            let i = choose|i: int| 0 <= i < nk.len() && nk[i] == x;
            if i < at {
                assert(keys[i] == x);
            } else if i > at {
                assert(keys[i - 1] == x);
            }
        }
        if keys.contains(x) {
            let i = choose|i: int| 0 <= i < keys.len() && keys[i] == x;
            if i < at {
                assert(nk[i] == x);
            } else {
                assert(nk[i + 1] == x);
            }
        }
        if x == k {
            assert(nk[at] == x);
        }
    }
    assert forall|x: Seq<char>| a.dom().contains(x) implies a[x] == b[x] by {
        assert(nk.contains(x));
        let i = choose|i: int| 0 <= i < nk.len() && nk[i] == x;
        assert(a[nk[i]] == nv[i]);
        if i < at {
            assert(nk[i] == keys[i]);
            assert(zip_map(keys, vals)[keys[i]] == vals[i]);
        } else if i > at {
            assert(nk[i] == keys[i - 1]);
            assert(zip_map(keys, vals)[keys[i - 1]] == vals[i - 1]);
        }
    }
    assert(a =~= b);
}

impl<V> StringMap<V> {
    /// The keys, in ascending order.
    pub closed spec fn keys(&self) -> Seq<Seq<char>> {
        Seq::new(self.entries@.len(), |i: int| self.entries@[i].0@)
    }

    /// The values, each at the position of its key.
    pub closed spec fn values(&self) -> Seq<V> {
        Seq::new(self.entries@.len(), |i: int| self.entries@[i].1)
    }

    #[verifier::type_invariant]
    spec fn inv(&self) -> bool {
        sorted(self.keys())
    }

    /// The empty map.
    pub fn new() -> (r: Self)
        ensures
            r.keys().len() == 0,
            r.values().len() == 0,
            r@ == Map::<Seq<char>, V>::empty(),
    {
        let r = StringMap { entries: Vec::new() };
        assert(r.keys() =~= Seq::empty());
        r
    }

    /// The number of entries. Every map has as many values as keys, and its
    /// keys are sorted.
    pub fn len(&self) -> (n: usize)
        ensures
            n == self.keys().len(),
            n == self.values().len(),
            n == self@.dom().len(),
            self@.dom().finite(),
            sorted(self.keys()),
            self.keys() == key_order(self@.dom()),
            is_key_order(self@.dom(), key_order(self@.dom())),
    {
        proof {
            use_type_invariant(self);
            lemma_zip_map(self.keys(), self.values());
            lemma_keys_are_key_order(self.keys(), self.values());
        }
        self.entries.len()
    }

    /// The key at position `i` in ascending order.
    pub fn key_at(&self, i: usize) -> (k: &String)
        requires
            i < self@.dom().len(),
        ensures
            k@ == self.keys()[i as int],
            k@ == key_order(self@.dom())[i as int],
            self@.dom().contains(k@),
            self@[k@] == self.values()[i as int],
    {
        proof {
            use_type_invariant(self);
            lemma_zip_map(self.keys(), self.values());
            lemma_keys_are_key_order(self.keys(), self.values());
            assert(self.keys().contains(self.keys()[i as int]));
        }
        &self.entries[i].0
    }

    /// The value at position `i`, which belongs to the key at that position.
    pub fn value_at(&self, i: usize) -> (v: &V)
        requires
            i < self@.dom().len(),
        ensures
            *v == self.values()[i as int],
            self@.dom().contains(self.keys()[i as int]),
            self@[self.keys()[i as int]] == *v,
            self@[key_order(self@.dom())[i as int]] == *v,
    {
        proof {
            use_type_invariant(self);
            lemma_zip_map(self.keys(), self.values());
            lemma_keys_are_key_order(self.keys(), self.values());
            assert(self.keys().contains(self.keys()[i as int]));
        }
        &self.entries[i].1
    }

    /// Where `key` stands among the keys, or where it would be put.
    pub fn place(&self, key: &str) -> (r: (usize, bool))
        ensures
            is_place(self.keys(), key@, r.0 as int, r.1),
            r.1 == self@.dom().contains(key@),
    {
        proof {
            use_type_invariant(self);
            lemma_zip_map(self.keys(), self.values());
        }
        let ghost keys = self.keys();
        let n: usize = self.entries.len();
        let mut i: usize = 0;
        while i < n
            invariant
                keys == self.keys(),
                sorted(keys),
                n == keys.len(),
                n == self.entries@.len(),
                i <= n,
                forall|j: int| 0 <= j < i ==> lex_lt(#[trigger] keys[j], key@),
            decreases n - i,
        {
            let o = str_order(self.entries[i].0.as_str(), key);
            proof {
                lemma_order_same(keys[i as int], key@);
                lemma_order_flip(keys[i as int], key@);
            }
            match o {
                Order::Before => {},
                Order::Same => {
                    proof {
                        assert forall|j: int| i < j < n implies lex_lt(key@, #[trigger] keys[j]) by {}
                        lemma_zip_map(self.keys(), self.values());
                        assert(keys.contains(keys[i as int]));
                        assert(self@.dom().contains(key@) <==> keys.contains(key@));
                    }
                    return (i, true);
                },
                Order::After => {
                    proof {
                        assert forall|j: int| i <= j < n implies lex_lt(key@, #[trigger] keys[j]) by {
                            if j > i {
                                lemma_lex_lt_trans(key@, keys[i as int], keys[j]);
                            }
                        }
                        assert forall|j: int| 0 <= j < n implies keys[j] != key@ by {
                            lemma_lex_lt_total(keys[j], key@);
                        }
                        lemma_zip_map(self.keys(), self.values());
                        assert(!keys.contains(key@));
                        assert(self@.dom().contains(key@) <==> keys.contains(key@));
                    }
                    return (i, false);
                },
            }
            i = i + 1;
        }
        proof {
            assert forall|j: int| 0 <= j < n implies keys[j] != key@ by {
                lemma_lex_lt_total(keys[j], key@);
            }
            lemma_zip_map(self.keys(), self.values());
            assert(!keys.contains(key@));
            assert(self@.dom().contains(key@) <==> keys.contains(key@));
        }
        (n, false)
    }

    /// Whether the map has an entry under `key`.
    pub fn contains_key(&self, key: &str) -> (r: bool)
        ensures
            r == self@.dom().contains(key@),
    {
        self.place(key).1
    }

    /// The value under `key`, if there is one.
    pub fn get(&self, key: &str) -> (r: Option<&V>)
        ensures
            r.is_some() == self@.dom().contains(key@),
            r.is_some() ==> *r.unwrap() == self@[key@],
    {
        proof {
            use_type_invariant(self);
            lemma_zip_map(self.keys(), self.values());
        }
        let (at, found) = self.place(key);
        if found {
            Some(&self.entries[at].1)
        } else {
            None
        }
    }

    /// Puts `value` under `key`, in place of what was there before, if
    /// anything was.
    pub fn insert(&mut self, key: String, value: V)
        ensures
            final(self)@ == old(self)@.insert(key@, value),
    {
        proof {
            use_type_invariant(&*self);
        }
        let ghost keys = self.keys();
        let ghost vals = self.values();
        let (at, found) = self.place(key.as_str());
        let mut entries: Vec<(String, V)> = Vec::new();
        core::mem::swap(&mut self.entries, &mut entries);
        assert(self.keys() =~= Seq::empty());
        if found {
            entries[at] = (key, value);
            proof {
                lemma_zip_update(keys, vals, at as int, value);
                assert(Seq::new(entries@.len(), |i: int| entries@[i].0@) =~= keys);
                assert(Seq::new(entries@.len(), |i: int| entries@[i].1) =~= vals.update(
                    at as int,
                    value,
                ));
            }
            self.entries = entries;
        } else {
            entries.insert(at, (key, value));
            proof {
                lemma_zip_insert(keys, vals, at as int, key@, value);
                assert(Seq::new(entries@.len(), |i: int| entries@[i].0@) =~= keys.insert(
                    at as int,
                    key@,
                ));
                assert(Seq::new(entries@.len(), |i: int| entries@[i].1) =~= vals.insert(
                    at as int,
                    value,
                ));
            }
            self.entries = entries;
        }
    }
}


/// The keys of `dom`, each once, in ascending order.
pub open spec fn is_key_order(dom: Set<Seq<char>>, keys: Seq<Seq<char>>) -> bool {
    &&& sorted(keys)
    &&& forall|k: Seq<char>| dom.contains(k) <==> keys.contains(k)
}

/// The ascending sequence of the keys in `dom`.
pub open spec fn key_order(dom: Set<Seq<char>>) -> Seq<Seq<char>> {
    choose|keys: Seq<Seq<char>>| is_key_order(dom, keys)
}

proof fn lemma_key_order_prefix(dom: Set<Seq<char>>, keys: Seq<Seq<char>>)
    requires
        is_key_order(dom, keys),
        keys.len() > 0,
    ensures
        is_key_order(dom.remove(keys.last()), keys.drop_last()),
{
    let n = keys.len() - 1;
    let pk = keys.drop_last();
    assert forall|i: int, j: int| 0 <= i < j < pk.len() implies lex_lt(
        #[trigger] pk[i],
        #[trigger] pk[j],
    ) by {
        assert(pk[i] == keys[i] && pk[j] == keys[j]);
    }
    assert forall|k: Seq<char>| dom.remove(keys.last()).contains(k) <==> pk.contains(k) by {
        if pk.contains(k) {
            let i = choose|i: int| 0 <= i < pk.len() && pk[i] == k;
            assert(keys[i] == k);
            lemma_sorted_distinct(keys, i, n);
        }
        if dom.remove(keys.last()).contains(k) {
            assert(keys.contains(k));
            let i = choose|i: int| 0 <= i < keys.len() && keys[i] == k;
            assert(pk[i] == k);
        }
    }
}

/// A set of keys has one ascending sequence only.
pub proof fn lemma_key_order_unique(dom: Set<Seq<char>>, a: Seq<Seq<char>>, b: Seq<Seq<char>>)
    requires
        is_key_order(dom, a),
        is_key_order(dom, b),
    ensures
        a == b,
    decreases a.len(),
{
    if a.len() == 0 {
        if b.len() > 0 {
            assert(b.contains(b[0]));
            assert(a.contains(b[0]));
        }
        assert(a =~= b);
    } else if b.len() == 0 {
        assert(a.contains(a[0]));
        assert(b.contains(a[0]));
    } else {
        let x = a.last();
        let y = b.last();
        assert(a.contains(x));
        assert(b.contains(y));
        assert(b.contains(x));
        assert(a.contains(y));
        let i = choose|i: int| 0 <= i < b.len() && b[i] == x;
        let j = choose|j: int| 0 <= j < a.len() && a[j] == y;
        if x != y {
            // x lies strictly below y in `b`, and y strictly below x in `a`
            assert(lex_lt(b[i], b[b.len() - 1]));
            assert(lex_lt(a[j], a[a.len() - 1]));
            lemma_lex_lt_total(x, y);
        }
        lemma_key_order_prefix(dom, a);
        lemma_key_order_prefix(dom, b);
        lemma_key_order_unique(dom.remove(x), a.drop_last(), b.drop_last());
        assert(a =~= a.drop_last().push(x));
        assert(b =~= b.drop_last().push(y));
    }
}

/// The keys of a sorted map are the ascending sequence of its domain.
pub proof fn lemma_keys_are_key_order<V>(keys: Seq<Seq<char>>, vals: Seq<V>)
    requires
        keys.len() == vals.len(),
        sorted(keys),
    ensures
        is_key_order(zip_map(keys, vals).dom(), keys),
        key_order(zip_map(keys, vals).dom()) == keys,
{
    lemma_zip_map(keys, vals);
    let dom = zip_map(keys, vals).dom();
    assert(is_key_order(dom, keys));
    lemma_key_order_unique(dom, keys, key_order(dom));
}

/// The sum of the values that `m` holds under the first `n` of `keys`.
pub open spec fn keyed_sum(m: Map<Seq<char>, nat>, keys: Seq<Seq<char>>, n: int) -> nat
    decreases n,
{
    if n <= 0 {
        0
    } else {
        keyed_sum(m, keys, n - 1) + m[keys[n - 1]]
    }
}

proof fn lemma_keyed_sum_same(
    a: Map<Seq<char>, nat>,
    b: Map<Seq<char>, nat>,
    ka: Seq<Seq<char>>,
    kb: Seq<Seq<char>>,
    n: int,
)
    requires
        n <= ka.len(),
        n <= kb.len(),
        forall|j: int| 0 <= j < n ==> ka[j] == kb[j] && a[ka[j]] == b[ka[j]],
    ensures
        keyed_sum(a, ka, n) == keyed_sum(b, kb, n),
    decreases n,
{
    if n > 0 {
        lemma_keyed_sum_same(a, b, ka, kb, n - 1);
    }
}

/// The sum of a finite map is the sum of its values taken in key order.
pub proof fn lemma_map_sum_by_keys(m: Map<Seq<char>, nat>, keys: Seq<Seq<char>>)
    requires
        m.dom().finite(),
        is_key_order(m.dom(), keys),
    ensures
        map_sum(m) == keyed_sum(m, keys, keys.len() as int),
    decreases keys.len(),
{
    if keys.len() == 0 {
        if m.dom().len() != 0 {
            let k = m.dom().choose();
            assert(m.dom().contains(k));
            assert(keys.contains(k));
        }
    } else {
        let n = keys.len() - 1;
        let last = keys.last();
        assert(keys.contains(last));
        lemma_map_sum_remove(m, last);
        lemma_key_order_prefix(m.dom(), keys);
        assert(m.remove(last).dom() =~= m.dom().remove(last));
        lemma_map_sum_by_keys(m.remove(last), keys.drop_last());
        assert forall|j: int| 0 <= j < n implies keys.drop_last()[j] == keys[j] && m.remove(
            last,
        )[keys.drop_last()[j]] == m[keys.drop_last()[j]] by {
            lemma_sorted_distinct(keys, j, n);
        }
        lemma_keyed_sum_same(m.remove(last), m, keys.drop_last(), keys, n);
    }
}

} // verus!
