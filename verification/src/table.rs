//! A table from texts to values.

use crate::text;
use vstd::prelude::*;

verus! {

/// A table in which each key stands once. Its view is the map from the keys to the
/// views of their values.
pub struct Table<V> {
    entries: Vec<(String, V)>,
}

impl<V: View> View for Table<V> {
    type V = Map<Seq<char>, V::V>;

    closed spec fn view(&self) -> Map<Seq<char>, V::V> {
        Map::new(
            |k: Seq<char>| self.keys().contains(k),
            |k: Seq<char>| self.entries@[self.keys().index_of(k)].1@,
        )
    }
}

impl<V: View> Table<V> {
    /// The keys, in the order in which the table holds them.
    pub closed spec fn keys(&self) -> Seq<Seq<char>> {
        Seq::new(self.entries@.len(), |i: int| self.entries@[i].0@)
    }

    /// No key stands twice.
    pub closed spec fn wf(&self) -> bool {
        self.keys().no_duplicates()
    }

    proof fn lemma_entry(&self, i: int)
        requires
            self.wf(),
            0 <= i < self.entries@.len(),
        ensures
            self@.contains_key(self.entries@[i].0@),
            self@[self.entries@[i].0@] == self.entries@[i].1@,
    {
        let k = self.entries@[i].0@;
        assert(self.keys()[i] == k);
        let j = self.keys().index_of(k);
        assert(self.keys().contains(k));
        assert(self.keys()[j] == k);
    }

    /// The keys are each a key of the map, once, and they are all of its keys.
    pub proof fn lemma_keys(&self)
        requires
            self.wf(),
        ensures
            self.keys().no_duplicates(),
            forall|k: Seq<char>| self.keys().contains(k) <==> #[trigger] self@.contains_key(k),
    {
    }

    /// The empty table.
    pub fn new() -> (r: Self)
        ensures
            r.wf(),
            r@ == Map::<Seq<char>, V::V>::empty(),
    {
        let r = Table { entries: Vec::new() };
        assert(r@ =~= Map::<Seq<char>, V::V>::empty());
        r
    }

    fn position(&self, key: &str) -> (r: Option<usize>)
        requires
            self.wf(),
        ensures
            match r {
                Some(i) => i < self.entries@.len() && self.entries@[i as int].0@ == key@,
                None => !self.keys().contains(key@),
            },
    {
        let mut i: usize = 0;
        while i < self.entries.len()
            invariant
                i <= self.entries@.len(),
                forall|j: int| 0 <= j < i ==> #[trigger] self.keys()[j] != key@,
            decreases self.entries@.len() - i,
        {
            if text::same_text(self.entries[i].0.as_str(), key) {
                return Some(i);
            }
            i = i + 1;
        }
        None
    }

    /// The value of the key.
    pub fn get(&self, key: &str) -> (r: Option<&V>)
        requires
            self.wf(),
        ensures
            match r {
                Some(v) => self@.contains_key(key@) && v@ == self@[key@],
                None => !self@.contains_key(key@),
            },
    {
        match self.position(key) {
            Some(i) => {
                proof {
                    self.lemma_entry(i as int);
                }
                Some(&self.entries[i].1)
            },
            None => None,
        }
    }

    /// Gives the key this value, in place of the one it may have.
    pub fn insert(&mut self, key: String, value: V)
        requires
            old(self).wf(),
        ensures
            final(self).wf(),
            final(self)@ == old(self)@.insert(key@, value@),
    {
        let ghost before = *self;
        let ghost k = key@;
        let ghost v = value@;
        match self.position(key.as_str()) {
            Some(i) => {
                self.entries.set(i, (key, value));
                assert(self.keys() =~= before.keys());
                proof {
                    assert forall|j: Seq<char>| #[trigger] self@.contains_key(j) implies self@[j]
                        == before@.insert(k, v)[j] by {
                        let n = self.keys().index_of(j);
                        assert(self.keys()[n] == j);
                        self.lemma_entry(n);
                        assert(before.keys()[i as int] == k);
                        if n != i {
                            assert(before.keys()[n] != before.keys()[i as int]);
                            before.lemma_entry(n);
                        }
                    }
                    before.lemma_entry(i as int);
                }
                assert(self@ =~= before@.insert(k, v));
            },
            None => {
                self.entries.push((key, value));
                assert(self.keys() =~= before.keys().push(k));
                proof {
                    assert(self.wf());
                    assert forall|j: Seq<char>| self@.contains_key(j) <==> before@.insert(
                        k,
                        v,
                    ).contains_key(j) by {
                        if before@.contains_key(j) {
                            let n = before.keys().index_of(j);
                            assert(self.keys()[n] == j);
                        }
                        if j == k {
                            assert(self.keys()[before.keys().len() as int] == k);
                        }
                    }
                    assert forall|j: Seq<char>| #[trigger] self@.contains_key(j) implies self@[j]
                        == before@.insert(k, v)[j] by {
                        let n = self.keys().index_of(j);
                        assert(self.keys()[n] == j);
                        self.lemma_entry(n);
                        if n < before.keys().len() {
                            assert(before.keys()[n] == j);
                            before.lemma_entry(n);
                        }
                    }
                }
                assert(self@ =~= before@.insert(k, v));
            },
        }
    }

    /// Takes the key and its value out, where the table has them.
    pub fn remove(&mut self, key: &str)
        requires
            old(self).wf(),
        ensures
            final(self).wf(),
            final(self)@ == old(self)@.remove(key@),
    {
        let ghost before = *self;
        match self.position(key) {
            Some(i) => {
                self.entries.remove(i);
                proof {
                    assert(self.keys() =~= before.keys().remove(i as int));
                    assert forall|a: int, b: int|
                        0 <= a < self.keys().len() && 0 <= b < self.keys().len() && a
                            != b implies #[trigger] self.keys()[a] != #[trigger] self.keys()[b] by {
                        let a2 = if a < i {
                            a
                        } else {
                            a + 1
                        };
                        let b2 = if b < i {
                            b
                        } else {
                            b + 1
                        };
                        assert(before.keys()[a2] != before.keys()[b2]);
                    }
                    assert(self.wf());
                    assert(before.keys()[i as int] == key@);
                    assert forall|j: Seq<char>| self@.contains_key(j) <==> before@.remove(
                        key@,
                    ).contains_key(j) by {
                        if self@.contains_key(j) {
                            let n = self.keys().index_of(j);
                            let n2 = if n < i {
                                n
                            } else {
                                n + 1
                            };
                            assert(before.keys()[n2] == j);
                            assert(before.keys()[n2] != before.keys()[i as int]);
                        }
                        if before@.contains_key(j) && j != key@ {
                            let n = before.keys().index_of(j);
                            let n2 = if n < i {
                                n
                            } else {
                                n - 1
                            };
                            assert(self.keys()[n2] == j);
                        }
                    }
                    assert forall|j: Seq<char>| #[trigger] self@.contains_key(j) implies self@[j]
                        == before@[j] by {
                        let n = self.keys().index_of(j);
                        assert(self.keys()[n] == j);
                        self.lemma_entry(n);
                        let n2 = if n < i {
                            n
                        } else {
                            n + 1
                        };
                        before.lemma_entry(n2);
                    }
                }
                assert(self@ =~= before@.remove(key@));
            },
            None => {
                assert(self@ =~= before@.remove(key@));
            },
        }
    }

    /// How many keys the table has.
    pub fn len(&self) -> (r: usize)
        ensures
            r == self.keys().len(),
    {
        self.entries.len()
    }

    /// The `i`th key and its value.
    pub fn at(&self, i: usize) -> (r: (&String, &V))
        requires
            self.wf(),
            i < self.keys().len(),
        ensures
            r.0@ == self.keys()[i as int],
            self@.contains_key(r.0@),
            r.1@ == self@[r.0@],
    {
        proof {
            self.lemma_entry(i as int);
        }
        (&self.entries[i].0, &self.entries[i].1)
    }
}

} // verus!
