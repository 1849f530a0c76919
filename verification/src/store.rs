//! An in-memory blob store: a flat namespace of key/bytes pairs, the sole
//! source of truth for the repository built on top of it. It mirrors the
//! capability interface of a remote blob backend — put, get, delete, list —
//! with put taking overwrite semantics.

use vstd::prelude::*;

verus! {

/// A flat key/value blob namespace held in memory. Keys are unique; the
/// abstract value is the map from each key's characters to its bytes.
pub struct BlobStore {
    entries: Vec<(String, Vec<u8>)>,
}

impl View for BlobStore {
    type V = Map<Seq<char>, Seq<u8>>;

    closed spec fn view(&self) -> Map<Seq<char>, Seq<u8>> {
        Map::new(
            |key: Seq<char>| self.key_seq().contains(key),
            |key: Seq<char>| self.entries@[self.entry_index(key)].1@,
        )
    }
}

impl BlobStore {
    /// The keys of the store, in the order a listing enumerates them.
    pub closed spec fn key_seq(&self) -> Seq<Seq<char>> {
        self.entries@.map_values(|e: (String, Vec<u8>)| e.0@)
    }

    /// Well-formedness: no key occurs twice.
    pub closed spec fn inv(&self) -> bool {
        forall|i: int, j: int|
            0 <= i < j < self.entries@.len() ==> self.entries@[i].0@ != self.entries@[j].0@
    }

    spec fn entry_index(&self, key: Seq<char>) -> int {
        choose|i: int| 0 <= i < self.entries@.len() && self.entries@[i].0@ == key
    }

    /// A key is in the abstract map exactly when the listing order holds it,
    /// and the listing order never repeats a key.
    pub proof fn lemma_key_seq(&self)
        requires
            self.inv(),
        ensures
            forall|k: Seq<char>| #[trigger] self@.contains_key(k) <==> self.key_seq().contains(k),
            forall|i: int, j: int|
                0 <= i < j < self.key_seq().len() ==> self.key_seq()[i] != self.key_seq()[j],
    {
    }

    /// Creates an empty store.
    pub fn new() -> (r: BlobStore)
        ensures
            r.inv(),
            r@ == Map::<Seq<char>, Seq<u8>>::empty(),
            r.key_seq() == Seq::<Seq<char>>::empty(),
    {
        let r = BlobStore { entries: Vec::new() };
        proof {
            assert(r.key_seq() =~= Seq::<Seq<char>>::empty());
            assert(r@ =~= Map::<Seq<char>, Seq<u8>>::empty());
        }
        r
    }

    fn find(&self, key: &str) -> (r: Option<usize>)
        requires
            self.inv(),
        ensures
            match r {
                Some(i) => i < self.key_seq().len() && self.key_seq()[i as int] == key@,
                None => !self.key_seq().contains(key@),
            },
    {
        let n = self.entries.len();
        let mut i: usize = 0;
        while i < n
            invariant
                n == self.entries@.len(),
                i <= n,
                forall|j: int| 0 <= j < i ==> self.entries@[j].0@ != key@,
            decreases n - i,
        {
            if crate::keys::str_eq(self.entries[i].0.as_str(), key) {
                return Some(i);
            }
            i = i + 1;
        }
        None
    }

    /// Retrieves the bytes stored under `key`, if any.
    pub fn get(&self, key: &str) -> (r: Option<&Vec<u8>>)
        requires
            self.inv(),
        ensures
            r is Some <==> self@.contains_key(key@),
            r matches Some(v) ==> self@[key@] == v@,
    {
        proof {
            self.lemma_key_seq();
        }
        match self.find(key) {
            Some(i) => {
                let v = &self.entries[i].1;
                proof {
                    let w = self.entry_index(key@);
                    assert(self.entries@[w].0@ == key@);
                    assert(w == i as int);
                }
                Some(v)
            },
            None => None,
        }
    }

    /// Tests whether the store holds a blob under `key`.
    pub fn contains(&self, key: &str) -> (r: bool)
        requires
            self.inv(),
        ensures
            r == self@.contains_key(key@),
    {
        proof {
            self.lemma_key_seq();
        }
        self.find(key).is_some()
    }

    /// Stores `value` under `key`, overwriting any previous blob there. A new
    /// key is appended to the listing order; an overwritten key keeps its
    /// place.
    pub fn put(&mut self, key: &str, value: Vec<u8>)
        requires
            old(self).inv(),
        ensures
            final(self).inv(),
            final(self)@ == old(self)@.insert(key@, value@),
            old(self)@.contains_key(key@) ==> final(self).key_seq() == old(self).key_seq(),
            !old(self)@.contains_key(key@) ==> final(self).key_seq() == old(self).key_seq().push(
                key@,
            ),
    {
        proof {
            old(self).lemma_key_seq();
        }
        match self.find(key) {
            Some(i) => {
                self.entries[i] = (key.to_owned(), value);
                proof {
                    assert(self.key_seq() =~= old(self).key_seq());
                    assert(self.inv());
                    self.lemma_key_seq();
                    assert forall|k: Seq<char>| self@.contains_key(k) implies old(self)@.insert(
                        key@,
                        value@,
                    ).contains_key(k) by {}
                    assert(self@ =~= old(self)@.insert(key@, value@)) by {
                        assert forall|k: Seq<char>| #[trigger] self@.contains_key(k) implies self@[k]
                            == old(self)@.insert(key@, value@)[k] by {
                            let w = self.entry_index(k);
                            assert(self.entries@[w].0@ == k);
                            if k == key@ {
                                assert(w == i as int);
                            } else {
                                let w0 = old(self).entry_index(k);
                                assert(old(self).entries@[w0].0@ == k);
                                assert(w0 == w);
                            }
                        }
                    }
                }
            },
            None => {
                self.entries.push((key.to_owned(), value));
                proof {
                    assert(self.key_seq() =~= old(self).key_seq().push(key@));
                    assert forall|i: int, j: int|
                        0 <= i < j < self.entries@.len() implies self.entries@[i].0@
                        != self.entries@[j].0@ by {
                        if j == self.entries@.len() - 1 {
                            assert(old(self).key_seq()[i] == old(self).entries@[i].0@);
                            assert(old(self).key_seq().contains(old(self).entries@[i].0@));
                        }
                    }
                    self.lemma_key_seq();
                    assert(self@ =~= old(self)@.insert(key@, value@)) by {
                        assert forall|k: Seq<char>| #[trigger] self@.contains_key(k) implies self@[k]
                            == old(self)@.insert(key@, value@)[k] by {
                            let w = self.entry_index(k);
                            assert(self.entries@[w].0@ == k);
                            if k == key@ {
                                assert(w == self.entries@.len() - 1);
                            } else {
                                assert(w < self.entries@.len() - 1);
                                let w0 = old(self).entry_index(k);
                                assert(old(self).key_seq().contains(k)) by {
                                    assert(self.key_seq()[w] == k);
                                    assert(old(self).key_seq()[w] == k);
                                }
                                assert(old(self).entries@[w0].0@ == k);
                                assert(w0 == w);
                            }
                        }
                        assert forall|k: Seq<char>|
                            old(self)@.insert(key@, value@).contains_key(k) implies self@.contains_key(
                            k,
                        ) by {
                            if k == key@ {
                                assert(self.key_seq()[self.entries@.len() - 1] == key@);
                            } else {
                                let w0 = old(self).entry_index(k);
                                assert(old(self).key_seq()[w0] == k);
                                assert(self.key_seq()[w0] == k);
                            }
                        }
                    }
                }
            },
        }
    }

    /// Removes the blob stored under `key`. Returns whether one was there;
    /// the store is unchanged when it was not.
    pub fn delete(&mut self, key: &str) -> (r: bool)
        requires
            old(self).inv(),
        ensures
            final(self).inv(),
            r == old(self)@.contains_key(key@),
            final(self)@ == old(self)@.remove(key@),
            final(self).key_seq() == old(self).key_seq().remove_value(key@),
    {
        proof {
            old(self).lemma_key_seq();
        }
        match self.find(key) {
            Some(i) => {
                self.entries.remove(i);
                proof {
                    assert(self.key_seq() =~= old(self).key_seq().remove(i as int));
                    old(self).key_seq().index_of_first_ensures(key@);
                    assert(old(self).key_seq().index_of_first(key@) == Some(i as int)) by {
                        let f = old(self).key_seq().index_of_first(key@);
                        assert(old(self).key_seq().contains(key@));
                        let fi = f.unwrap();
                        assert(old(self).key_seq()[fi] == key@);
                        if fi < i as int {
                            assert(old(self).entries@[fi].0@ == key@);
                        } else if fi > i as int {
                            assert(old(self).entries@[fi].0@ == key@);
                        }
                    }
                    assert(self.inv()) by {
                        assert forall|a: int, b: int|
                            0 <= a < b < self.entries@.len() implies self.entries@[a].0@
                            != self.entries@[b].0@ by {
                            let oa = if a < i as int { a } else { a + 1 };
                            let ob = if b < i as int { b } else { b + 1 };
                            assert(self.entries@[a] == old(self).entries@[oa]);
                            assert(self.entries@[b] == old(self).entries@[ob]);
                        }
                    }
                    self.lemma_key_seq();
                    assert(self@ =~= old(self)@.remove(key@)) by {
                        assert forall|k: Seq<char>| #[trigger] self@.contains_key(k) implies old(
                            self,
                        )@.remove(key@).contains_key(k) && self@[k] == old(self)@.remove(key@)[k] by {
                            let w = self.entry_index(k);
                            assert(self.entries@[w].0@ == k);
                            let ow = if w < i as int { w } else { w + 1 };
                            assert(old(self).entries@[ow].0@ == k);
                            assert(old(self).key_seq()[ow] == k);
                            assert(k != key@) by {
                                if ow != i as int {
                                    assert(old(self).key_seq()[i as int] == key@);
                                }
                            }
                            let w0 = old(self).entry_index(k);
                            assert(old(self).entries@[w0].0@ == k);
                            assert(w0 == ow);
                        }
                        assert forall|k: Seq<char>|
                            old(self)@.remove(key@).contains_key(k) implies self@.contains_key(
                            k,
                        ) by {
                            let w0 = old(self).entry_index(k);
                            assert(old(self).entries@[w0].0@ == k);
                            assert(w0 != i as int);
                            let w = if w0 < i as int { w0 } else { w0 - 1 };
                            assert(self.entries@[w].0@ == k);
                            assert(self.key_seq()[w] == k);
                        }
                    }
                }
                true
            },
            None => {
                proof {
                    assert(final(self)@ =~= old(self)@.remove(key@));
                    assert(old(self).key_seq().remove_value(key@) == old(self).key_seq()) by {
                        old(self).key_seq().index_of_first_ensures(key@);
                    }
                }
                false
            },
        }
    }

    /// Lists every key in the store, in listing order.
    pub fn list(&self) -> (r: Vec<String>)
        requires
            self.inv(),
        ensures
            r@.map_values(|s: String| s@) == self.key_seq(),
    {
        let n = self.entries.len();
        let mut r: Vec<String> = Vec::new();
        let mut i: usize = 0;
        while i < n
            invariant
                n == self.entries@.len(),
                i <= n,
                r@.len() == i,
                forall|j: int| 0 <= j < i ==> #[trigger] r@[j]@ == self.key_seq()[j],
            decreases n - i,
        {
            r.push(self.entries[i].0.clone());
            i = i + 1;
        }
        proof {
            assert(r@.map_values(|s: String| s@) =~= self.key_seq());
        }
        r
    }
}

} // verus!
