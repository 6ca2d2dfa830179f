//! A map from account identifiers to values, kept in the order of insertion.
//!
//! Its model is the sequence of its `(identifier, value)` pairs, in which no
//! identifier occurs twice. The spec functions of this module read and
//! change such a sequence; the methods of `IdMap` do the same to the map.

use vstd::prelude::*;

verus! {

/// A sequence of pairs of an account identifier and a value.
pub type Pairs<V> = Seq<(Seq<char>, V)>;

/// Some pair of `s` has the key `k`.
pub open spec fn has_key<V>(s: Pairs<V>, k: Seq<char>) -> bool {
    exists|i: int| 0 <= i < s.len() && (#[trigger] s[i]).0 == k
}

/// The place of a pair with the key `k`, where there is one.
pub open spec fn key_index<V>(s: Pairs<V>, k: Seq<char>) -> int {
    choose|i: int| 0 <= i < s.len() && (#[trigger] s[i]).0 == k
}

/// No key occurs twice in `s`.
pub open spec fn unique_keys<V>(s: Pairs<V>) -> bool {
    forall|i: int, j: int| 0 <= i < j < s.len() ==> (#[trigger] s[i]).0 != (#[trigger] s[j]).0
}

/// The value that `s` holds for `k`.
pub open spec fn lookup<V>(s: Pairs<V>, k: Seq<char>) -> Option<V> {
    if has_key(s, k) {
        Some(s[key_index(s, k)].1)
    } else {
        None
    }
}

/// `s` with the value of `k` set to `v`: replaced in place where `k` is
/// present, added at the end where it is not.
pub open spec fn upsert<V>(s: Pairs<V>, k: Seq<char>, v: V) -> Pairs<V> {
    if has_key(s, k) {
        s.update(key_index(s, k), (k, v))
    } else {
        s.push((k, v))
    }
}

/// `s` without the pair of `k`.
pub open spec fn erase<V>(s: Pairs<V>, k: Seq<char>) -> Pairs<V> {
    if has_key(s, k) {
        s.remove(key_index(s, k))
    } else {
        s
    }
}

/// The sum of `weight` over the values of `s`.
pub open spec fn total<V>(s: Pairs<V>, weight: spec_fn(V) -> nat) -> nat
    decreases s.len(),
{
    if s.len() == 0 {
        0
    } else {
        total(s.drop_last(), weight) + weight(s.last().1)
    }
}

/// The weight of the value of `k` in `s`, nothing where `k` is absent.
pub open spec fn weight_at<V>(s: Pairs<V>, k: Seq<char>, weight: spec_fn(V) -> nat) -> nat {
    match lookup(s, k) {
        Some(v) => weight(v),
        None => 0,
    }
}

/// In a sequence of unique keys, a pair found at `i` is the pair of its key.
pub proof fn lemma_key_index<V>(s: Pairs<V>, k: Seq<char>, i: int)
    requires
        unique_keys(s),
        0 <= i < s.len(),
        s[i].0 == k,
    ensures
        has_key(s, k),
        key_index(s, k) == i,
        lookup(s, k) == Some(s[i].1),
{
    let j = key_index(s, k);
    assert(0 <= j < s.len() && s[j].0 == k);
    if j < i {
        assert(s[j].0 != s[i].0);
    }
    if i < j {
        assert(s[i].0 != s[j].0);
    }
}

/// Setting a value keeps the keys unique, is seen by a later lookup of the
/// same key, and changes no other key's value.
pub proof fn lemma_upsert<V>(s: Pairs<V>, k: Seq<char>, v: V)
    requires
        unique_keys(s),
    ensures
        unique_keys(upsert(s, k, v)),
        lookup(upsert(s, k, v), k) == Some(v),
        forall|other: Seq<char>| other != k ==> #[trigger] lookup(upsert(s, k, v), other) == lookup(s, other),
{
    let t = upsert(s, k, v);
    if has_key(s, k) {
        let i = key_index(s, k);
        assert(forall|j: int| 0 <= j < s.len() ==> (#[trigger] t[j]).0 == s[j].0);
        assert(unique_keys(t)) by {
            assert forall|a: int, b: int| 0 <= a < b < t.len() implies (#[trigger] t[a]).0 != (#[trigger] t[b]).0 by {
                assert(s[a].0 != s[b].0);
            }
        }
        lemma_key_index(t, k, i);
        assert forall|other: Seq<char>| other != k implies #[trigger] lookup(t, other) == lookup(s, other) by {
            if has_key(s, other) {
                let j = key_index(s, other);
                assert(t[j] == s[j]);
                lemma_key_index(t, other, j);
            } else if has_key(t, other) {
                let j = key_index(t, other);
                assert(s[j].0 == t[j].0);
            }
        }
    } else {
        let n = s.len() as int;
        assert(forall|j: int| 0 <= j < n ==> #[trigger] t[j] == s[j]);
        assert(unique_keys(t)) by {
            assert forall|a: int, b: int| 0 <= a < b < t.len() implies (#[trigger] t[a]).0 != (#[trigger] t[b]).0 by {
                if b < n {
                    assert(s[a].0 != s[b].0);
                } else {
                    assert(s[a].0 != k);
                }
            }
        }
        lemma_key_index(t, k, n);
        assert forall|other: Seq<char>| other != k implies #[trigger] lookup(t, other) == lookup(s, other) by {
            if has_key(s, other) {
                let j = key_index(s, other);
                assert(t[j] == s[j]);
                lemma_key_index(t, other, j);
            } else if has_key(t, other) {
                let j = key_index(t, other);
                assert(j < n);
                assert(s[j].0 == other);
            }
        }
    }
}

/// Taking a key out keeps the keys unique, leaves the key absent, and
/// changes no other key's value.
pub proof fn lemma_erase<V>(s: Pairs<V>, k: Seq<char>)
    requires
        unique_keys(s),
    ensures
        unique_keys(erase(s, k)),
        lookup(erase(s, k), k).is_none(),
        forall|other: Seq<char>| other != k ==> #[trigger] lookup(erase(s, k), other) == lookup(s, other),
{
    let t = erase(s, k);
    if has_key(s, k) {
        let i = key_index(s, k);
        assert(forall|j: int| 0 <= j < i ==> #[trigger] t[j] == s[j]);
        assert(forall|j: int| i <= j < t.len() ==> #[trigger] t[j] == s[j + 1]);
        assert(unique_keys(t)) by {
            assert forall|a: int, b: int| 0 <= a < b < t.len() implies (#[trigger] t[a]).0 != (#[trigger] t[b]).0 by {
                let sa = if a < i { a } else { a + 1 };
                let sb = if b < i { b } else { b + 1 };
                assert(t[a] == s[sa] && t[b] == s[sb]);
                assert(s[sa].0 != s[sb].0);
            }
        }
        if has_key(t, k) {
            let j = key_index(t, k);
            let sj = if j < i { j } else { j + 1 };
            assert(t[j] == s[sj]);
            lemma_key_index(s, k, sj);
        }
        assert forall|other: Seq<char>| other != k implies #[trigger] lookup(t, other) == lookup(s, other) by {
            if has_key(s, other) {
                let j = key_index(s, other);
                let tj = if j < i { j } else { j - 1 };
                assert(t[tj] == s[j]);
                lemma_key_index(t, other, tj);
            } else if has_key(t, other) {
                let j = key_index(t, other);
                let sj = if j < i { j } else { j + 1 };
                assert(t[j] == s[sj]);
            }
        }
    }
}

/// Every value of `s` has the property `holds`.
pub open spec fn all_values<V>(s: Pairs<V>, holds: spec_fn(V) -> bool) -> bool {
    forall|i: int| 0 <= i < s.len() ==> holds((#[trigger] s[i]).1)
}

/// What holds of every value still holds of every value after one that
/// has the property was set, and after a key was taken out.
pub proof fn lemma_all_values_kept<V>(s: Pairs<V>, k: Seq<char>, v: V, holds: spec_fn(V) -> bool)
    requires
        all_values(s, holds),
    ensures
        holds(v) ==> all_values(upsert(s, k, v), holds),
        all_values(erase(s, k), holds),
        lookup(s, k).is_some() ==> holds(lookup(s, k).unwrap()),
{
    if holds(v) {
        let t = upsert(s, k, v);
        assert forall|i: int| 0 <= i < t.len() implies holds((#[trigger] t[i]).1) by {
            if i < s.len() && !(has_key(s, k) && i == key_index(s, k)) {
                assert(t[i] == s[i]);
            }
        }
    }
    let e = erase(s, k);
    assert forall|i: int| 0 <= i < e.len() implies holds((#[trigger] e[i]).1) by {
        if has_key(s, k) && i >= key_index(s, k) {
            assert(e[i] == s[i + 1]);
        } else {
            assert(e[i] == s[i]);
        }
    }
    if has_key(s, k) {
        assert(holds(s[key_index(s, k)].1));
    }
}

/// Replacing the pair at `i` changes the total by the difference of the weights.
pub proof fn lemma_total_update<V>(s: Pairs<V>, i: int, pair: (Seq<char>, V), weight: spec_fn(V) -> nat)
    requires
        0 <= i < s.len(),
    ensures
        total(s.update(i, pair), weight) + weight(s[i].1) == total(s, weight) + weight(pair.1),
    decreases s.len(),
{
    let t = s.update(i, pair);
    if i == s.len() - 1 {
        assert(t.drop_last() =~= s.drop_last());
    } else {
        assert(t.drop_last() =~= s.drop_last().update(i, pair));
        lemma_total_update(s.drop_last(), i, pair, weight);
    }
}

/// Adding a pair at the end adds its weight to the total.
pub proof fn lemma_total_push<V>(s: Pairs<V>, pair: (Seq<char>, V), weight: spec_fn(V) -> nat)
    ensures
        total(s.push(pair), weight) == total(s, weight) + weight(pair.1),
{
    assert(s.push(pair).drop_last() =~= s);
}

/// Taking the pair at `i` out takes its weight from the total.
pub proof fn lemma_total_remove<V>(s: Pairs<V>, i: int, weight: spec_fn(V) -> nat)
    requires
        0 <= i < s.len(),
    ensures
        total(s.remove(i), weight) + weight(s[i].1) == total(s, weight),
    decreases s.len(),
{
    let t = s.remove(i);
    if i == s.len() - 1 {
        assert(t =~= s.drop_last());
    } else {
        assert(t.drop_last() =~= s.drop_last().remove(i));
        assert(t.last() == s.last());
        lemma_total_remove(s.drop_last(), i, weight);
    }
}

/// Setting the value of `k` changes the total by the new weight less the
/// weight that `k` had.
pub proof fn lemma_total_upsert<V>(s: Pairs<V>, k: Seq<char>, v: V, weight: spec_fn(V) -> nat)
    ensures
        total(upsert(s, k, v), weight) + weight_at(s, k, weight) == total(s, weight) + weight(v),
{
    if has_key(s, k) {
        lemma_total_update(s, key_index(s, k), (k, v), weight);
    } else {
        lemma_total_push(s, (k, v), weight);
    }
}

/// Taking `k` out takes the weight that `k` had from the total.
pub proof fn lemma_total_erase<V>(s: Pairs<V>, k: Seq<char>, weight: spec_fn(V) -> nat)
    ensures
        total(erase(s, k), weight) + weight_at(s, k, weight) == total(s, weight),
{
    if has_key(s, k) {
        lemma_total_remove(s, key_index(s, k), weight);
    }
}

/// The model of a list of entries: each identifier as its characters.
pub open spec fn pairs_of<V>(entries: Seq<(String, V)>) -> Pairs<V> {
    entries.map_values(|e: (String, V)| (e.0@, e.1))
}

/// A map from account identifiers to values.
pub struct IdMap<V> {
    entries: Vec<(String, V)>,
}

impl<V> IdMap<V> {
    /// The pairs of the map, in the order in which their keys came in.
    pub closed spec fn view(&self) -> Pairs<V> {
        pairs_of(self.entries@)
    }

    /// No identifier is held twice. This holds of every map.
    #[verifier::type_invariant]
    pub open spec fn wf(&self) -> bool {
        unique_keys(self@)
    }

    /// The empty map.
    pub fn new() -> (map: Self)
        ensures
            map@ == Pairs::<V>::empty(),
    {
        let map = IdMap { entries: Vec::new() };
        assert(map@ =~= Pairs::<V>::empty());
        map
    }

    /// The number of identifiers held.
    pub fn len(&self) -> (n: usize)
        ensures
            n == self@.len(),
    {
        self.entries.len()
    }

    /// The identifier at place `i`.
    pub fn key_at(&self, i: usize) -> (id: &String)
        requires
            i < self@.len(),
        ensures
            id@ == self@[i as int].0,
    {
        &self.entries[i].0
    }

    /// The value at place `i`.
    pub fn value_at(&self, i: usize) -> (value: &V)
        requires
            i < self@.len(),
        ensures
            *value == self@[i as int].1,
    {
        &self.entries[i].1
    }

    fn find(&self, id: &String) -> (place: Option<usize>)
        ensures
            match place {
                Some(i) => i < self@.len() && self@[i as int].0 == id@,
                None => !has_key(self@, id@),
            },
    {
        let mut i: usize = 0;
        while i < self.entries.len()
            invariant
                i <= self.entries.len(),
                forall|j: int| 0 <= j < i ==> (#[trigger] self@[j]).0 != id@,
            decreases self.entries.len() - i,
        {
            if self.entries[i].0 == *id {
                return Some(i);
            }
            i += 1;
        }
        None
    }

    /// Tells whether `id` is held.
    pub fn contains_key(&self, id: &String) -> (held: bool)
        ensures
            held == has_key(self@, id@),
    {
        self.find(id).is_some()
    }

    /// The value held for `id`.
    pub fn get(&self, id: &String) -> (value: Option<&V>)
        ensures
            match value {
                Some(v) => lookup(self@, id@) == Some(*v),
                None => lookup(self@, id@).is_none(),
            },
    {
        proof {
            use_type_invariant(self);
        }
        match self.find(id) {
            Some(i) => {
                proof {
                    lemma_key_index(self@, id@, i as int);
                }
                Some(&self.entries[i].1)
            },
            None => None,
        }
    }

    /// Sets the value of `id`, whether or not it was held before.
    pub fn insert(&mut self, id: String, value: V)
        ensures
            final(self)@ == upsert(old(self)@, id@, value),
    {
        proof {
            use_type_invariant(&*self);
            lemma_upsert(self@, id@, value);
        }
        let place = self.find(&id);
        let mut entries = Vec::new();
        std::mem::swap(&mut entries, &mut self.entries);
        match place {
            Some(i) => {
                proof {
                    lemma_key_index(old(self)@, id@, i as int);
                }
                entries.set(i, (id, value));
            },
            None => {
                entries.push((id, value));
            },
        }
        assert(pairs_of(entries@) =~= upsert(old(self)@, id@, value));
        self.entries = entries;
    }

    /// Takes `id` out and hands back the value that it had.
    pub fn remove(&mut self, id: &String) -> (value: Option<V>)
        ensures
            final(self)@ == erase(old(self)@, id@),
            value == lookup(old(self)@, id@),
    {
        proof {
            use_type_invariant(&*self);
            lemma_erase(self@, id@);
        }
        match self.find(id) {
            Some(i) => {
                proof {
                    lemma_key_index(self@, id@, i as int);
                }
                let mut entries = Vec::new();
                std::mem::swap(&mut entries, &mut self.entries);
                let pair = entries.remove(i);
                assert(pairs_of(entries@) =~= erase(old(self)@, id@));
                self.entries = entries;
                Some(pair.1)
            },
            None => None,
        }
    }
}

} // verus!
