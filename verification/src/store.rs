//! The series store: for each registered name a raw value and the value derived from it.

use crate::fixed::{clamp, saturating_sum};
use vstd::prelude::*;

verus! {

/// The mapping that a list of distinct keys and a list of values stand for: the key at
/// position `i` is mapped to the value at position `i`.
spec fn keyed_map<V>(keys: Seq<Seq<char>>, values: Seq<V>) -> Map<Seq<char>, V> {
    Map::new(|k: Seq<char>| keys.contains(k), |k: Seq<char>| values[keys.index_of(k)])
}

/// In a list without duplicates, the key at position `i` is found at position `i`.
proof fn lemma_keyed_at<V>(keys: Seq<Seq<char>>, values: Seq<V>, i: int)
    requires
        keys.no_duplicates(),
        0 <= i < keys.len(),
    ensures
        keys.contains(keys[i]),
        keys.index_of(keys[i]) == i,
        keyed_map(keys, values).contains_key(keys[i]),
        keyed_map(keys, values)[keys[i]] == values[i],
{
}

/// Appending a new key with its value inserts the pair into the mapping.
proof fn lemma_keyed_push<V>(keys: Seq<Seq<char>>, values: Seq<V>, k: Seq<char>, v: V)
    requires
        keys.no_duplicates(),
        keys.len() == values.len(),
        !keys.contains(k),
    ensures
        keys.push(k).no_duplicates(),
        keyed_map(keys.push(k), values.push(v)) == keyed_map(keys, values).insert(k, v),
{
    let keys2 = keys.push(k);
    let values2 = values.push(v);
    assert(keys2.no_duplicates());
    assert forall|n: Seq<char>| keys2.contains(n) <==> (n == k || keys.contains(n)) by {
        if keys.contains(n) {
            let i = keys.index_of(n);
            assert(keys2[i] == n);
        }
        assert(keys2[keys.len() as int] == k);
    }
    assert forall|n: Seq<char>| keys2.contains(n) implies #[trigger] keyed_map(keys2, values2)[n]
        == keyed_map(keys, values).insert(k, v)[n] by {
        if n == k {
            lemma_keyed_at(keys2, values2, keys.len() as int);
        } else {
            let i = keys.index_of(n);
            assert(keys2[i] == n);
            lemma_keyed_at(keys2, values2, i);
        }
    }
    assert(keyed_map(keys2, values2) =~= keyed_map(keys, values).insert(k, v));
}

/// Replacing the value at position `i` replaces the value of the key at position `i`.
proof fn lemma_keyed_update<V>(keys: Seq<Seq<char>>, values: Seq<V>, i: int, v: V)
    requires
        keys.no_duplicates(),
        keys.len() == values.len(),
        0 <= i < keys.len(),
    ensures
        keyed_map(keys, values.update(i, v)) == keyed_map(keys, values).insert(keys[i], v),
{
    let values2 = values.update(i, v);
    lemma_keyed_at(keys, values2, i);
    assert forall|n: Seq<char>| keys.contains(n) implies #[trigger] keyed_map(keys, values2)[n]
        == keyed_map(keys, values).insert(keys[i], v)[n] by {
        let j = keys.index_of(n);
        lemma_keyed_at(keys, values2, j);
    }
    assert(keyed_map(keys, values2) =~= keyed_map(keys, values).insert(keys[i], v));
}

/// Mapping a function over the values maps it over the mapping.
proof fn lemma_keyed_map_values<V, W>(keys: Seq<Seq<char>>, values: Seq<V>, f: spec_fn(V) -> W)
    requires
        keys.no_duplicates(),
        keys.len() == values.len(),
    ensures
        keyed_map(keys, values.map_values(f)) == keyed_map(keys, values).map_values(f),
{
    assert forall|n: Seq<char>| keys.contains(n) implies #[trigger] keyed_map(
        keys,
        values.map_values(f),
    )[n] == keyed_map(keys, values).map_values(f)[n] by {
        let j = keys.index_of(n);
        lemma_keyed_at(keys, values, j);
    }
    assert(keyed_map(keys, values.map_values(f)) =~= keyed_map(keys, values).map_values(f));
}

/// The raw values after every one of them has gone up by `delta`, each stopping at the
/// ends of the `i128` range.
pub open spec fn advanced(raw: Map<Seq<char>, i128>, delta: i128) -> Map<Seq<char>, i128> {
    raw.map_values(|v: i128| clamp(v + delta))
}

/// The store. `D` is the type of a derived value and `F` the function that derives it
/// from a raw value.
pub struct State<D, F> {
    names: Vec<String>,
    map: Vec<i128>,
    results: Vec<D>,
    derive: F,
}

impl<D: Copy, F: Fn(i128) -> D> State<D, F> {
    /// The registered names, each once, in the order in which they were first registered.
    pub closed spec fn names(&self) -> Seq<Seq<char>> {
        Seq::new(self.names@.len(), |i: int| self.names@[i]@)
    }

    /// The function that derives a value from a raw value.
    pub closed spec fn derive_fn(&self) -> F {
        self.derive
    }

    /// The raw value of each registered name.
    pub closed spec fn raw(&self) -> Map<Seq<char>, i128> {
        keyed_map(self.names(), self.map@)
    }

    /// The derived value of each registered name.
    pub closed spec fn derived(&self) -> Map<Seq<char>, D> {
        keyed_map(self.names(), self.results@)
    }

    /// Every name occurs once and has both a raw and a derived value, and the deriving
    /// function accepts every raw value.
    pub closed spec fn keyed(&self) -> bool {
        &&& self.names().no_duplicates()
        &&& self.map@.len() == self.names@.len()
        &&& self.results@.len() == self.names@.len()
        &&& forall|raw: i128| self.derive.requires((raw,))
    }

    /// Each derived value is one that the deriving function gives for the raw value of
    /// the same name.
    pub closed spec fn consistent(&self) -> bool {
        forall|i: int|
            0 <= i < self.names@.len() ==> self.derive.ensures(
                (self.map@[i],),
                #[trigger] self.results@[i],
            )
    }

    /// The store is keyed and consistent: so every operation leaves it.
    pub open spec fn wf(&self) -> bool {
        self.keyed() && self.consistent()
    }

    /// An empty store that derives with `derive`.
    pub fn new(derive: F) -> (state: Self)
        requires
            forall|raw: i128| derive.requires((raw,)),
        ensures
            state.wf(),
            state.derive_fn() == derive,
            state.names() == Seq::<Seq<char>>::empty(),
            state.raw() == Map::<Seq<char>, i128>::empty(),
            state.derived() == Map::<Seq<char>, D>::empty(),
    {
        let state = State { names: Vec::new(), map: Vec::new(), results: Vec::new(), derive };
        assert(state.names() =~= Seq::<Seq<char>>::empty());
        assert(state.raw() =~= Map::<Seq<char>, i128>::empty());
        assert(state.derived() =~= Map::<Seq<char>, D>::empty());
        state
    }

    /// The position of `name` among the registered names.
    fn position(&self, name: &String) -> (found: Option<usize>)
        requires
            self.keyed(),
        ensures
            match found {
                Some(i) => i < self.names().len() && self.names()[i as int] == name@,
                None => !self.names().contains(name@),
            },
    {
        let mut i: usize = 0;
        while i < self.names.len()
            invariant
                i <= self.names@.len(),
                forall|j: int| 0 <= j < i ==> self.names()[j] != name@,
            decreases self.names@.len() - i,
        {
            if self.names[i] == *name {
                return Some(i);
            }
            i += 1;
        }
        None
    }

    /// What `register` makes of the store `before`.
    pub open spec fn registered_from(&self, before: &Self, name: Seq<char>, seed: i128) -> bool {
        &&& self.wf()
        &&& self.derive_fn() == before.derive_fn()
        &&& self.names() == if before.names().contains(name) {
            before.names()
        } else {
            before.names().push(name)
        }
        &&& self.raw() == before.raw().insert(name, seed)
        &&& self.derived().contains_key(name)
        &&& self.derived() == before.derived().insert(name, self.derived()[name])
        &&& self.derive_fn().ensures((seed,), self.derived()[name])
    }

    /// Registers `name` with the raw value `seed`, or overwrites the raw value it has,
    /// and derives its value anew from `seed`. The other series are left as they are.
    pub fn register(&mut self, name: String, seed: i128)
        requires
            old(self).wf(),
        ensures
            final(self).registered_from(old(self), name@, seed),
    {
        let value = (self.derive)(seed);
        let ghost keys = self.names();
        match self.position(&name) {
            Some(i) => {
                proof {
                    lemma_keyed_update(keys, self.map@, i as int, seed);
                    lemma_keyed_update(keys, self.results@, i as int, value);
                    lemma_keyed_at(keys, self.results@.update(i as int, value), i as int);
                }
                self.map[i] = seed;
                self.results[i] = value;
                assert(self.names() == keys);
            },
            None => {
                proof {
                    lemma_keyed_push(keys, self.map@, name@, seed);
                    lemma_keyed_push(keys, self.results@, name@, value);
                    lemma_keyed_at(keys.push(name@), self.results@.push(value), keys.len() as int);
                }
                self.names.push(name);
                self.map.push(seed);
                self.results.push(value);
                assert(self.names() =~= keys.push(name@));
            },
        }
    }

    /// What `update_results` makes of the store `before`.
    pub open spec fn refreshed_from(&self, before: &Self) -> bool {
        &&& self.wf()
        &&& self.derive_fn() == before.derive_fn()
        &&& self.names() == before.names()
        &&& self.raw() == before.raw()
    }

    /// Derives the value of every series anew from its raw value. The names and the raw
    /// values are left as they are.
    pub fn update_results(&mut self)
        requires
            old(self).keyed(),
        ensures
            final(self).refreshed_from(old(self)),
    {
        let mut i: usize = 0;
        while i < self.results.len()
            invariant
                self.keyed(),
                i <= self.results@.len(),
                self.derive == old(self).derive,
                self.names@ == old(self).names@,
                self.map@ == old(self).map@,
                forall|j: int|
                    0 <= j < i ==> self.derive.ensures((self.map@[j],), #[trigger] self.results@[j]),
            decreases self.results@.len() - i,
        {
            let value = (self.derive)(self.map[i]);
            self.results[i] = value;
            i += 1;
        }
    }

    /// What `advance` makes of the store `before`.
    pub open spec fn advanced_from(&self, before: &Self, delta: i128) -> bool {
        &&& self.wf()
        &&& self.derive_fn() == before.derive_fn()
        &&& self.names() == before.names()
        &&& self.raw() == advanced(before.raw(), delta)
    }

    /// Adds `delta` to the raw value of every series, stopping at the ends of the `i128`
    /// range, and then derives every value anew.
    pub fn advance(&mut self, delta: i128)
        requires
            old(self).wf(),
        ensures
            final(self).advanced_from(old(self), delta),
    {
        let ghost step = |v: i128| clamp(v + delta);
        let mut i: usize = 0;
        while i < self.map.len()
            invariant
                self.keyed(),
                i <= self.map@.len(),
                self.derive == old(self).derive,
                self.names@ == old(self).names@,
                self.map@.len() == old(self).map@.len(),
                forall|j: int| 0 <= j < i ==> self.map@[j] == clamp(old(self).map@[j] + delta),
                forall|j: int| i <= j < self.map@.len() ==> self.map@[j] == old(self).map@[j],
            decreases self.map@.len() - i,
        {
            let raised: i128 = saturating_sum(self.map[i], delta);
            self.map[i] = raised;
            i += 1;
        }
        proof {
            assert(self.map@ =~= old(self).map@.map_values(step));
            lemma_keyed_map_values(old(self).names(), old(self).map@, step);
        }
        self.update_results();
    }

    /// A copy of the derived values: one pair of name and derived value for each series,
    /// in the order of `names`.
    pub fn snapshot(&self) -> (copy: Vec<(String, D)>)
        requires
            self.wf(),
        ensures
            copy@.len() == self.names().len(),
            forall|i: int|
                0 <= i < copy@.len() ==> {
                    &&& (#[trigger] copy@[i]).0@ == self.names()[i]
                    &&& copy@[i].1 == self.derived()[self.names()[i]]
                    &&& self.derive_fn().ensures((self.raw()[self.names()[i]],), copy@[i].1)
                },
    {
        let mut copy: Vec<(String, D)> = Vec::new();
        let mut i: usize = 0;
        while i < self.names.len()
            invariant
                self.wf(),
                i <= self.names@.len(),
                copy@.len() == i,
                forall|j: int|
                    0 <= j < i ==> {
                        &&& (#[trigger] copy@[j]).0@ == self.names()[j]
                        &&& copy@[j].1 == self.derived()[self.names()[j]]
                        &&& self.derive_fn().ensures((self.raw()[self.names()[j]],), copy@[j].1)
                    },
            decreases self.names@.len() - i,
        {
            proof {
                lemma_keyed_at(self.names(), self.map@, i as int);
                lemma_keyed_at(self.names(), self.results@, i as int);
            }
            copy.push((self.names[i].clone(), self.results[i]));
            i += 1;
        }
        copy
    }

    /// The number of registered series.
    pub fn len(&self) -> (n: usize)
        requires
            self.keyed(),
        ensures
            n == self.names().len(),
            n == self.raw().dom().len(),
    {
        proof {
            self.lemma_same_keys();
            self.names().unique_seq_to_set();
        }
        self.names.len()
    }

    /// Whether no series is registered.
    pub fn is_empty(&self) -> (empty: bool)
        requires
            self.keyed(),
        ensures
            empty == (self.names().len() == 0),
    {
        self.names.len() == 0
    }

    /// Whether `name` is registered.
    pub fn contains(&self, name: &String) -> (found: bool)
        requires
            self.keyed(),
        ensures
            found == self.raw().contains_key(name@),
    {
        self.position(name).is_some()
    }

    /// The raw value of `name`, if it is registered.
    pub fn raw_of(&self, name: &String) -> (value: Option<i128>)
        requires
            self.keyed(),
        ensures
            value == if self.raw().contains_key(name@) {
                Some(self.raw()[name@])
            } else {
                None
            },
    {
        match self.position(name) {
            Some(i) => {
                proof {
                    lemma_keyed_at(self.names(), self.map@, i as int);
                }
                Some(self.map[i])
            },
            None => None,
        }
    }

    /// The derived value of `name`, if it is registered.
    pub fn derived_of(&self, name: &String) -> (value: Option<D>)
        requires
            self.keyed(),
        ensures
            value == if self.derived().contains_key(name@) {
                Some(self.derived()[name@])
            } else {
                None
            },
    {
        match self.position(name) {
            Some(i) => {
                proof {
                    lemma_keyed_at(self.names(), self.results@, i as int);
                }
                Some(self.results[i])
            },
            None => None,
        }
    }

    /// The raw and the derived values are kept for the same names: those of `names`,
    /// none of which occurs twice.
    pub proof fn lemma_same_keys(&self)
        requires
            self.keyed(),
        ensures
            self.names().no_duplicates(),
            self.raw().dom() == self.names().to_set(),
            self.derived().dom() == self.raw().dom(),
    {
        assert(self.raw().dom() =~= self.names().to_set());
        assert(self.derived().dom() =~= self.raw().dom());
    }

    /// In a well-formed store the derived value of each name is one that the deriving
    /// function gives for the raw value of that name.
    pub proof fn lemma_derived_follows_raw(&self, name: Seq<char>)
        requires
            self.wf(),
            self.raw().contains_key(name),
        ensures
            self.derived().contains_key(name),
            self.derive_fn().ensures((self.raw()[name],), self.derived()[name]),
    {
        let i = self.names().index_of(name);
        lemma_keyed_at(self.names(), self.map@, i);
        lemma_keyed_at(self.names(), self.results@, i);
    }
}

} // verus!
