//! A small map keyed by strings that keeps its entries in insertion order.

use vstd::prelude::*;
use crate::text::str_equals;

verus! {

/// A map from strings to values.  No key occurs twice; an entry keeps its
/// place when its value is replaced.
pub struct StringMap<V> {
    entries: Vec<(String, V)>,
}

/// The keys of a list of entries, in order.
pub open spec fn entry_keys<V>(entries: Seq<(String, V)>) -> Seq<Seq<char>> {
    Seq::new(entries.len(), |i: int| entries[i].0@)
}

impl<V> View for StringMap<V> {
    type V = Map<Seq<char>, V>;

    closed spec fn view(&self) -> Map<Seq<char>, V> {
        Map::new(
            |k: Seq<char>| self.order().contains(k),
            |k: Seq<char>| self.entries@[self.position(k)].1,
        )
    }
}

impl<V> StringMap<V> {
    #[verifier::type_invariant]
    spec fn inv(self) -> bool {
        entry_keys(self.entries@).no_duplicates()
    }

    /// The keys in the order in which they were first inserted.
    pub closed spec fn order(self) -> Seq<Seq<char>> {
        entry_keys(self.entries@)
    }

    /// The place of a key in [`Self::order`].
    pub closed spec fn position(self, k: Seq<char>) -> int {
        choose|i: int| 0 <= i < self.entries@.len() && self.entries@[i].0@ == k
    }

    pub fn new() -> (m: Self)
        ensures
            m@ == Map::<Seq<char>, V>::empty(),
            m.order() == Seq::<Seq<char>>::empty(),
    {
        let m = StringMap { entries: Vec::new() };
        assert(m@ =~= Map::<Seq<char>, V>::empty());
        assert(m.order() =~= Seq::<Seq<char>>::empty());
        m
    }

    /// The number of entries.
    pub fn len(&self) -> (n: usize)
        ensures
            n == self.order().len(),
            n == self@.dom().len(),
            self.order().no_duplicates(),
            forall|k: Seq<char>| self.order().contains(k) <==> self@.contains_key(k),
    {
        proof {
            use_type_invariant(self);
            let keys = self.order();
            assert(self@.dom() =~= keys.to_set());
            keys.unique_seq_to_set();
        }
        self.entries.len()
    }

    fn find(&self, key: &str) -> (r: Option<usize>)
        ensures
            match r {
                Some(i) => i < self.entries@.len() && self.entries@[i as int].0@ == key@
                    && self.position(key@) == i,
                None => !self.order().contains(key@),
            },
    {
        proof {
            use_type_invariant(self);
        }
        let mut i: usize = 0;
        while i < self.entries.len()
            invariant
                i <= self.entries@.len(),
                entry_keys(self.entries@).no_duplicates(),
                forall|j: int| 0 <= j < i ==> self.entries@[j].0@ != key@,
            decreases self.entries@.len() - i,
        {
            if str_equals(self.entries[i].0.as_str(), key) {
                proof {
                    let keys = entry_keys(self.entries@);
                    assert(0 <= i < self.entries@.len() && self.entries@[i as int].0@ == key@);
                    let p = self.position(key@);
                    assert(keys[i as int] == key@);
                    assert(keys[p] == key@);
                    if p != i {
                        assert(keys[p] != keys[i as int]);
                    }
                }
                return Some(i);
            }
            i += 1;
        }
        proof {
            let keys = self.order();
            assert forall|j: int| 0 <= j < keys.len() implies keys[j] != key@ by {}
        }
        None
    }

    pub fn contains_key(&self, key: &str) -> (b: bool)
        ensures
            b == self@.contains_key(key@),
    {
        let r = self.find(key);
        proof {
            if r is Some {
                assert(self.order()[r.unwrap() as int] == key@);
            }
        }
        r.is_some()
    }

    pub fn get(&self, key: &str) -> (r: Option<&V>)
        ensures
            match r {
                Some(v) => self@.contains_key(key@) && *v == self@[key@],
                None => !self@.contains_key(key@),
            },
    {
        match self.find(key) {
            Some(i) => {
                proof {
                    assert(self.order()[i as int] == key@);
                }
                Some(&self.entries[i].1)
            },
            None => None,
        }
    }

    /// The key at a place in [`Self::order`].
    pub fn key_at(&self, i: usize) -> (k: &String)
        requires
            i < self.order().len(),
        ensures
            k@ == self.order()[i as int],
            self@.contains_key(k@),
    {
        proof {
            assert(self.order()[i as int] == self.entries@[i as int].0@);
            assert(self.order().contains(self.order()[i as int]));
        }
        &self.entries[i].0
    }

    /// The value at a place in [`Self::order`].
    pub fn value_at(&self, i: usize) -> (v: &V)
        requires
            i < self.order().len(),
        ensures
            *v == self@[self.order()[i as int]],
    {
        proof {
            use_type_invariant(self);
            let k = self.order()[i as int];
            let p = self.position(k);
            assert(self.entries@[i as int].0@ == k);
            assert(entry_keys(self.entries@)[p] == k);
            assert(p == i);
        }
        &self.entries[i].1
    }

    /// Sets the value of a key, adding the key at the end where it is new.
    pub fn insert(&mut self, key: String, value: V)
        ensures
            final(self)@ == old(self)@.insert(key@, value),
            final(self).order() == if old(self)@.contains_key(key@) {
                old(self).order()
            } else {
                old(self).order().push(key@)
            },
    {
        proof {
            use_type_invariant(&*self);
        }
        let ghost before = *self;
        let found = self.find(key.as_str());
        match found {
            Some(i) => {
                proof {
                    assert(before.order()[i as int] == key@);
                }
                let ghost k = key@;
                let mut entries: Vec<(String, V)> = Vec::new();
                std::mem::swap(&mut entries, &mut self.entries);
                entries.set(i, (key, value));
                proof {
                    assert(entry_keys(entries@) =~= entry_keys(before.entries@));
                }
                self.entries = entries;
                proof {
                    assert(entry_keys(self.entries@) =~= entry_keys(before.entries@));
                    assert forall|q: Seq<char>| self.order().contains(q) implies self.position(q)
                        == before.position(q) by {
                        let a = self.position(q);
                        let b = before.position(q);
                        assert(entry_keys(before.entries@)[a] == q);
                        assert(entry_keys(before.entries@)[b] == q);
                    }
                    assert(self@ =~= before@.insert(k, value));
                }
            },
            None => {
                let ghost k = key@;
                let mut entries: Vec<(String, V)> = Vec::new();
                std::mem::swap(&mut entries, &mut self.entries);
                entries.push((key, value));
                proof {
                    assert(entry_keys(entries@) =~= entry_keys(before.entries@).push(k));
                    assert(entry_keys(entries@).no_duplicates());
                }
                self.entries = entries;
                proof {
                    let n = before.entries@.len() as int;
                    assert(entry_keys(self.entries@) =~= entry_keys(before.entries@).push(k));
                    assert forall|q: Seq<char>| before.order().contains(q) implies self.position(q)
                        == before.position(q) by {
                        let a = self.position(q);
                        let b = before.position(q);
                        assert(entry_keys(self.entries@)[b] == q);
                        assert(entry_keys(self.entries@)[a] == q);
                    }
                    assert(entry_keys(self.entries@)[n] == k);
                    assert(self.order().contains(k));
                    assert(entry_keys(self.entries@)[self.position(k)] == k);
                    assert(self.position(k) == n);
                    assert forall|q: Seq<char>|
                        self.order().contains(q) <==> (q == k || before.order().contains(q)) by {
                        if self.order().contains(q) {
                            let j = choose|j: int| 0 <= j < self.order().len() && self.order()[j] == q;
                            if j < n {
                                assert(before.order()[j] == q);
                            }
                        }
                        if before.order().contains(q) {
                            let j = choose|j: int|
                                0 <= j < before.order().len() && before.order()[j] == q;
                            assert(self.order()[j] == q);
                        }
                    }
                    assert(self@ =~= before@.insert(k, value));
                }
            },
        }
    }

    /// Removes a key and hands back its value, if it had one.
    pub fn remove(&mut self, key: &str) -> (r: Option<V>)
        ensures
            final(self)@ == old(self)@.remove(key@),
            match r {
                Some(v) => old(self)@.contains_key(key@) && v == old(self)@[key@],
                None => !old(self)@.contains_key(key@),
            },
            final(self).order() == old(self).order().remove_value(key@),
    {
        proof {
            use_type_invariant(&*self);
        }
        let ghost before = *self;
        match self.find(key) {
            Some(i) => {
                proof {
                    assert(before.order()[i as int] == key@);
                }
                let mut entries: Vec<(String, V)> = Vec::new();
                std::mem::swap(&mut entries, &mut self.entries);
                let entry = entries.remove(i);
                proof {
                    let keys = entry_keys(before.entries@);
                    assert(entry_keys(entries@) =~= keys.remove(i as int));
                    assert forall|a: int, b: int|
                        0 <= a < b < entries@.len() implies entry_keys(entries@)[a] != entry_keys(
                        entries@,
                    )[b] by {
                        let a0 = if a < i { a } else { a + 1 };
                        let b0 = if b < i { b } else { b + 1 };
                        assert(keys[a0] != keys[b0]);
                    }
                }
                self.entries = entries;
                proof {
                    let keys = entry_keys(before.entries@);
                    assert(entry_keys(self.entries@) =~= keys.remove(i as int));
                    assert(keys.index_of_first(key@) == Some(i as int)) by {
                        keys.index_of_first_ensures(key@);
                        assert(keys[i as int] == key@);
                        assert(keys.contains(key@));
                    }
                    assert(keys.remove_value(key@) == keys.remove(i as int));
                    assert forall|a: int, b: int|
                        0 <= a < b < self.entries@.len() implies entry_keys(self.entries@)[a]
                        != entry_keys(self.entries@)[b] by {
                        let a0 = if a < i { a } else { a + 1 };
                        let b0 = if b < i { b } else { b + 1 };
                        assert(keys[a0] != keys[b0]);
                    }
                    assert forall|q: Seq<char>|
                        self.order().contains(q) <==> (q != key@ && before.order().contains(q)) by {
                        if self.order().contains(q) {
                            let j = choose|j: int| 0 <= j < self.order().len() && self.order()[j] == q;
                            let j0 = if j < i { j } else { j + 1 };
                            assert(keys[j0] == q);
                            assert(j0 != i);
                        }
                        if q != key@ && before.order().contains(q) {
                            let j = choose|j: int|
                                0 <= j < before.order().len() && before.order()[j] == q;
                            let j1 = if j < i { j } else { j - 1 };
                            assert(self.order()[j1] == q);
                        }
                    }
                    assert forall|q: Seq<char>| self.order().contains(q) implies self.entries@[self.position(
                        q,
                    )].1 == before.entries@[before.position(q)].1 by {
                        let a = self.position(q);
                        let b = before.position(q);
                        let a0 = if a < i { a } else { a + 1 };
                        assert(keys[a0] == q);
                        assert(keys[b] == q);
                        assert(a0 == b);
                    }
                    assert(self@ =~= before@.remove(key@));
                }
                Some(entry.1)
            },
            None => {
                proof {
                    let keys = entry_keys(before.entries@);
                    assert(self@ =~= before@.remove(key@));
                    assert(!keys.contains(key@));
                    keys.index_of_first_ensures(key@);
                }
                None
            },
        }
    }
}

} // verus!
