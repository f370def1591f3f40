//! A map from text keys to values, kept as a list in insertion order.
//!
//! The model is the pair of sequences `keys()` and `values()`; a key is
//! looked up at its first position. `new` and `insert` never store a key
//! twice, which `wf` states.

use crate::text::{lemma_first_index, lemma_no_index, str_eq};
use vstd::prelude::*;

verus! {

#[derive(Debug)]
struct Entry<V> {
    key: String,
    value: V,
}

/// A map keyed by text, with the keys in the order they were first inserted.
#[derive(Debug)]
pub struct StringMap<V> {
    entries: Vec<Entry<V>>,
}

impl<V> View for StringMap<V> {
    type V = Map<Seq<char>, V>;

    open spec fn view(&self) -> Map<Seq<char>, V> {
        Map::new(
            |k: Seq<char>| self.keys().contains(k),
            |k: Seq<char>| self.values()[self.keys().index_of_first(k).unwrap()],
        )
    }
}

impl<V> StringMap<V> {
    /// The keys, in insertion order.
    pub closed spec fn keys(&self) -> Seq<Seq<char>> {
        Seq::new(self.entries@.len(), |i: int| self.entries@[i].key@)
    }

    /// The values, each at the position of its key.
    pub closed spec fn values(&self) -> Seq<V> {
        Seq::new(self.entries@.len(), |i: int| self.entries@[i].value)
    }

    /// No key is stored twice.
    pub open spec fn wf(&self) -> bool {
        self.keys().no_duplicates()
    }

    /// The value stored under `key`, if any.
    pub open spec fn lookup(&self, key: Seq<char>) -> Option<V> {
        match self.keys().index_of_first(key) {
            Some(i) => Some(self.values()[i]),
            None => None,
        }
    }

    /// There are as many values as keys.
    pub proof fn lemma_same_length(&self)
        ensures
            self.keys().len() == self.values().len(),
    {
    }

    /// `lookup` and the view agree.
    pub proof fn lemma_lookup_is_view(&self, key: Seq<char>)
        ensures
            self.lookup(key) is Some <==> self@.dom().contains(key),
            self.lookup(key) is Some ==> self.lookup(key) == Some(self@[key]),
    {
        self.keys().index_of_first_ensures(key);
    }

    /// An empty map.
    pub fn new() -> (m: Self)
        ensures
            m.keys() == Seq::<Seq<char>>::empty(),
            m.values() == Seq::<V>::empty(),
            m.wf(),
    {
        let m = StringMap { entries: Vec::new() };
        assert(m.keys() =~= Seq::<Seq<char>>::empty());
        assert(m.values() =~= Seq::<V>::empty());
        m
    }

    /// The number of keys.
    pub fn len(&self) -> (n: usize)
        ensures
            n == self.keys().len(),
            n == self.values().len(),
    {
        self.entries.len()
    }

    /// The position of `key`, if it is stored.
    pub fn position(&self, key: &str) -> (r: Option<usize>)
        ensures
            match r {
                Some(i) => self.keys().index_of_first(key@) == Some(i as int) && i
                    < self.keys().len(),
                None => self.keys().index_of_first(key@) is None,
            },
    {
        let mut i: usize = 0;
        while i < self.entries.len()
            invariant
                i <= self.entries.len(),
                forall|j: int| 0 <= j < i ==> self.keys()[j] != key@,
            decreases self.entries.len() - i,
        {
            if str_eq(self.entries[i].key.as_str(), key) {
                proof {
                    lemma_first_index(self.keys(), key@, i as int);
                }
                return Some(i);
            }
            i += 1;
        }
        proof {
            lemma_no_index(self.keys(), key@);
        }
        None
    }

    /// The value stored under `key`.
    pub fn get(&self, key: &str) -> (r: Option<&V>)
        ensures
            match r {
                Some(v) => self.lookup(key@) == Some(*v),
                None => self.lookup(key@) is None,
            },
    {
        match self.position(key) {
            Some(i) => Some(&self.entries[i].value),
            None => None,
        }
    }

    /// The key at position `i`.
    pub fn key_at(&self, i: usize) -> (k: &String)
        requires
            i < self.keys().len(),
        ensures
            k@ == self.keys()[i as int],
    {
        &self.entries[i].key
    }

    /// The value at position `i`.
    pub fn value_at(&self, i: usize) -> (v: &V)
        requires
            i < self.keys().len(),
        ensures
            *v == self.values()[i as int],
    {
        &self.entries[i].value
    }

    /// The value at position `i`, for changing it in place.
    pub fn value_mut(&mut self, i: usize) -> (v: &mut V)
        requires
            i < old(self).keys().len(),
        ensures
            *v == old(self).values()[i as int],
            final(self).keys() == old(self).keys(),
            final(self).values() == old(self).values().update(i as int, *final(v)),
    {
        &mut self.entries[i].value
    }

    /// Stores `value` under `key`. A key that is already stored keeps its
    /// position and gives its former value back.
    pub fn insert(&mut self, key: String, value: V) -> (r: Option<V>)
        ensures
            match old(self).keys().index_of_first(key@) {
                Some(i) => {
                    &&& final(self).keys() == old(self).keys()
                    &&& final(self).values() == old(self).values().update(i, value)
                    &&& r == Some(old(self).values()[i])
                },
                None => {
                    &&& final(self).keys() == old(self).keys().push(key@)
                    &&& final(self).values() == old(self).values().push(value)
                    &&& r is None
                },
            },
            final(self).lookup(key@) == Some(value),
            forall|k: Seq<char>| k != key@ ==> final(self).lookup(k) == old(self).lookup(k),
            final(self)@ == old(self)@.insert(key@, value),
            old(self).wf() ==> final(self).wf(),
    {
        let ghost keys0 = self.keys();
        let ghost values0 = self.values();
        let ghost value0 = value;
        let found = self.position(key.as_str());
        let r = match found {
            Some(i) => {
                let mut value = value;
                core::mem::swap(&mut self.entries[i].value, &mut value);
                assert(self.keys() =~= keys0);
                assert(self.values() =~= values0.update(i as int, value0));
                Some(value)
            },
            None => {
                self.entries.push(Entry { key, value });
                assert(self.keys() =~= keys0.push(key@));
                assert(self.values() =~= values0.push(value0));
                None
            },
        };
        proof {
            Self::lemma_after_insert(keys0, values0, self.keys(), self.values(), key@, value0);
            assert(self@ =~= old(self)@.insert(key@, value0)) by {
                assert forall|k: Seq<char>| #[trigger] self@.dom().contains(k) <==> old(
                    self,
                )@.insert(key@, value0).dom().contains(k) by {
                    self.lemma_lookup_is_view(k);
                    old(self).lemma_lookup_is_view(k);
                }
                assert forall|k: Seq<char>| #[trigger] self@.dom().contains(k) implies self@[k]
                    == old(self)@.insert(key@, value0)[k] by {
                    self.lemma_lookup_is_view(k);
                    old(self).lemma_lookup_is_view(k);
                }
            }
        }
        r
    }

    /// What a lookup finds after a key was replaced in place or appended.
    proof fn lemma_after_insert(
        keys0: Seq<Seq<char>>,
        values0: Seq<V>,
        keys1: Seq<Seq<char>>,
        values1: Seq<V>,
        key: Seq<char>,
        value: V,
    )
        requires
            keys0.len() == values0.len(),
            match keys0.index_of_first(key) {
                Some(i) => keys1 == keys0 && values1 == values0.update(i, value),
                None => keys1 == keys0.push(key) && values1 == values0.push(value),
            },
        ensures
            keys1.index_of_first(key) is Some,
            values1[keys1.index_of_first(key).unwrap()] == value,
            forall|k: Seq<char>|
                k != key ==> (#[trigger] keys1.index_of_first(k) == keys0.index_of_first(k)),
            forall|k: Seq<char>|
                k != key && keys0.index_of_first(k) is Some ==> values1[(
                #[trigger] keys1.index_of_first(k)).unwrap()] == values0[keys0.index_of_first(
                    k,
                ).unwrap()],
            keys0.no_duplicates() ==> keys1.no_duplicates(),
    {
        keys0.index_of_first_ensures(key);
        match keys0.index_of_first(key) {
            Some(i) => {
                assert forall|k: Seq<char>|
                    k != key && keys0.index_of_first(k) is Some implies values1[(
                #[trigger] keys1.index_of_first(k)).unwrap()] == values0[keys0.index_of_first(
                    k,
                ).unwrap()] by {
                    keys0.index_of_first_ensures(k);
                }
            },
            None => {
                lemma_first_index(keys1, key, keys0.len() as int);
                assert forall|k: Seq<char>| k != key implies (#[trigger] keys1.index_of_first(k)
                    == keys0.index_of_first(k)) by {
                    keys0.index_of_first_ensures(k);
                    match keys0.index_of_first(k) {
                        Some(j) => {
                            lemma_first_index(keys1, k, j);
                        },
                        None => {
                            lemma_no_index(keys1, k);
                        },
                    }
                }
                assert forall|k: Seq<char>|
                    k != key && keys0.index_of_first(k) is Some implies values1[(
                #[trigger] keys1.index_of_first(k)).unwrap()] == values0[keys0.index_of_first(
                    k,
                ).unwrap()] by {
                    keys0.index_of_first_ensures(k);
                }
            },
        }
    }
}

} // verus!
