//! A map from strings to values that remembers the order in which its keys
//! were first inserted.

use vstd::prelude::*;

verus! {

/// A finite map keyed by strings. `keys` lists the keys in the order of their
/// first insertion and `values` the value held under each; the view is the
/// map they spell.
#[derive(Debug)]
pub struct StringMap<V> {
    entries: Vec<(String, V)>,
}

impl<V> View for StringMap<V> {
    type V = Map<Seq<char>, V>;

    open spec fn view(&self) -> Map<Seq<char>, V> {
        Map::new(
            |k: Seq<char>| self.keys().contains(k),
            |k: Seq<char>| self.values()[self.keys().index_of(k)],
        )
    }
}

impl<V> StringMap<V> {
    /// No key is held twice, and every key has its value.
    #[verifier::type_invariant]
    pub open spec fn inv(&self) -> bool {
        self.keys().no_duplicates() && self.keys().len() == self.values().len()
    }

    /// The keys, in the order of their first insertion.
    pub closed spec fn keys(&self) -> Seq<Seq<char>> {
        Seq::new(self.entries@.len(), |i: int| self.entries@[i].0@)
    }

    /// The values, each at the position of its key.
    pub closed spec fn values(&self) -> Seq<V> {
        Seq::new(self.entries@.len(), |i: int| self.entries@[i].1)
    }

    /// In a valid map the entry at each position is found under its key.
    pub proof fn lemma_entry(&self, i: int)
        requires
            self.inv(),
            0 <= i < self.keys().len(),
        ensures
            self@.contains_key(self.keys()[i]),
            self@[self.keys()[i]] == self.values()[i],
            self.keys().index_of(self.keys()[i]) == i,
    {
        let k = self.keys()[i];
        assert(self.keys().contains(k));
        let j = self.keys().index_of(k);
        assert(self.keys()[j] == k);
    }

    /// The domain of a valid map is finite and as large as the key list.
    pub proof fn lemma_len(&self)
        requires
            self.inv(),
        ensures
            self@.dom().finite(),
            self@.dom().len() == self.keys().len(),
            self@.dom() == self.keys().to_set(),
    {
        assert(self@.dom() =~= self.keys().to_set());
        self.keys().unique_seq_to_set();
    }

    /// The empty map.
    pub fn new() -> (map: Self)
        ensures
            map.keys() == Seq::<Seq<char>>::empty(),
            map.values() == Seq::<V>::empty(),
            map@ == Map::<Seq<char>, V>::empty(),
            map.inv(),
    {
        let map = StringMap { entries: Vec::new() };
        assert(map.keys() =~= Seq::<Seq<char>>::empty());
        assert(map.values() =~= Seq::<V>::empty());
        assert(map@ =~= Map::<Seq<char>, V>::empty());
        map
    }

    /// The number of keys.
    pub fn len(&self) -> (n: usize)
        ensures
            n == self.keys().len(),
            n == self.values().len(),
            n == self@.dom().len(),
            self.inv(),
    {
        proof {
            use_type_invariant(self);
            self.lemma_len();
        }
        self.entries.len()
    }

    /// Whether the map has no key.
    pub fn is_empty(&self) -> (empty: bool)
        ensures
            empty == (self.keys().len() == 0),
            empty == (self@ == Map::<Seq<char>, V>::empty()),
    {
        proof {
            if self.keys().len() > 0 {
                assert(self.keys().contains(self.keys()[0]));
                assert(self@.contains_key(self.keys()[0]));
            } else {
                assert(self@ =~= Map::<Seq<char>, V>::empty());
            }
        }
        self.entries.len() == 0
    }

    /// The position of `key` in the key order, if the map has it.
    pub fn position(&self, key: &str) -> (found: Option<usize>)
        ensures
            self.inv(),
            match found {
                Some(i) => i < self.keys().len() && self.keys()[i as int] == key@
                    && self@.contains_key(key@) && self@[key@] == self.values()[i as int],
                None => !self@.contains_key(key@) && !self.keys().contains(key@),
            },
    {
        proof {
            use_type_invariant(self);
        }
        let mut i: usize = 0;
        while i < self.entries.len()
            invariant
                self.inv(),
                i <= self.entries.len(),
                forall|j: int| 0 <= j < i ==> self.keys()[j] != key@,
            decreases self.entries.len() - i,
        {
            if crate::text::same_text(self.entries[i].0.as_str(), key) {
                proof {
                    self.lemma_entry(i as int);
                }
                return Some(i);
            }
            i = i + 1;
        }
        None
    }

    /// Whether the map has `key`.
    pub fn contains_key(&self, key: &str) -> (yes: bool)
        ensures
            yes == self@.contains_key(key@),
    {
        self.position(key).is_some()
    }

    /// The value under `key`, if the map has it.
    pub fn get(&self, key: &str) -> (found: Option<&V>)
        ensures
            match found {
                Some(v) => self@.contains_key(key@) && *v == self@[key@],
                None => !self@.contains_key(key@),
            },
    {
        match self.position(key) {
            Some(i) => Some(&self.entries[i].1),
            None => None,
        }
    }

    /// The key at position `i` of the key order.
    pub fn key_at(&self, i: usize) -> (key: &String)
        requires
            i < self.keys().len(),
        ensures
            key@ == self.keys()[i as int],
    {
        &self.entries[i].0
    }

    /// The value at position `i`, which is the value under the key there.
    pub fn value_at(&self, i: usize) -> (value: &V)
        requires
            i < self.keys().len(),
        ensures
            *value == self.values()[i as int],
            self.inv() ==> self@[self.keys()[i as int]] == *value,
    {
        proof {
            if self.inv() {
                self.lemma_entry(i as int);
            }
        }
        &self.entries[i].1
    }

    /// Puts `value` under `key`. A new key goes to the end of the key order;
    /// a known key keeps its position and gets the new value.
    pub fn insert(&mut self, key: String, value: V)
        ensures
            final(self).inv(),
            final(self)@ == old(self)@.insert(key@, value),
            match old(self).keys().index_of_first(key@) {
                Some(i) => final(self).keys() == old(self).keys() && final(self).values() == old(
                    self,
                ).values().update(i, value),
                None => final(self).keys() == old(self).keys().push(key@) && final(self).values()
                    == old(self).values().push(value),
            },
    {
        proof {
            use_type_invariant(&*self);
            old(self).keys().index_of_first_ensures(key@);
        }
        let ghost old_keys = self.keys();
        let ghost old_values = self.values();
        let ghost old_view = self@;
        let found = self.position(key.as_str());
        let mut entries: Vec<(String, V)> = Vec::new();
        core::mem::swap(&mut self.entries, &mut entries);
        match found {
            Some(i) => {
                entries.push((key, value));
                // The new entry takes the place of the old one.
                entries.swap_remove(i);
                proof {
                    let new_keys = Seq::new(entries@.len(), |j: int| entries@[j].0@);
                    let new_values = Seq::new(entries@.len(), |j: int| entries@[j].1);
                    assert(new_keys =~= old_keys);
                    assert(new_values =~= old_values.update(i as int, value));
                }
            },
            None => {
                entries.push((key, value));
                proof {
                    let new_keys = Seq::new(entries@.len(), |j: int| entries@[j].0@);
                    let new_values = Seq::new(entries@.len(), |j: int| entries@[j].1);
                    assert(new_keys =~= old_keys.push(key@));
                    assert(new_values =~= old_values.push(value));
                }
            },
        }
        core::mem::swap(&mut self.entries, &mut entries);
        proof {
            assert(self@ =~= old_view.insert(key@, value)) by {
                assert forall|k: Seq<char>| self@.contains_key(k) <==> old_view.insert(
                    key@,
                    value,
                ).contains_key(k) by {
                    if self.keys().contains(k) {
                        let j = self.keys().index_of(k);
                        if j < old_keys.len() {
                            assert(old_keys[j] == k);
                        }
                    }
                    if old_keys.contains(k) {
                        let j = old_keys.index_of(k);
                        assert(self.keys()[j] == k);
                    }
                    if k == key@ && found is None {
                        assert(self.keys()[old_keys.len() as int] == k);
                    }
                }
                assert forall|k: Seq<char>| self@.contains_key(k) implies self@[k]
                    == old_view.insert(key@, value)[k] by {
                    let j = self.keys().index_of(k);
                    assert(self.keys()[j] == k);
                    if k != key@ {
                        assert(old_keys[j] == k);
                        let j2 = old_keys.index_of(k);
                        assert(old_keys[j2] == k);
                    } else {
                        match found {
                            Some(i) => {
                                assert(self.keys()[i as int] == k);
                            },
                            None => {
                                assert(self.keys()[old_keys.len() as int] == k);
                            },
                        }
                    }
                }
            }
        }
    }

    /// Puts `value` at position `i`, under the key there, and hands out the
    /// value that was there.
    pub fn replace_at(&mut self, i: usize, value: V) -> (previous: V)
        requires
            i < old(self).keys().len(),
        ensures
            final(self).inv(),
            previous == old(self).values()[i as int],
            final(self).keys() == old(self).keys(),
            final(self).values() == old(self).values().update(i as int, value),
            final(self)@ == old(self)@.insert(old(self).keys()[i as int], value),
    {
        proof {
            use_type_invariant(&*self);
        }
        let ghost old_keys = self.keys();
        let ghost old_values = self.values();
        let ghost old_view = self@;
        let mut entries: Vec<(String, V)> = Vec::new();
        core::mem::swap(&mut self.entries, &mut entries);
        let mut slot = value;
        core::mem::swap(&mut entries[i].1, &mut slot);
        proof {
            let new_keys = Seq::new(entries@.len(), |j: int| entries@[j].0@);
            let new_values = Seq::new(entries@.len(), |j: int| entries@[j].1);
            assert(new_keys =~= old_keys);
            assert(new_values =~= old_values.update(i as int, value));
        }
        core::mem::swap(&mut self.entries, &mut entries);
        proof {
            let key = old_keys[i as int];
            assert(self@ =~= old_view.insert(key, value)) by {
                assert(self.keys().contains(key));
                assert forall|k: Seq<char>| self@.contains_key(k) implies self@[k]
                    == old_view.insert(key, value)[k] by {
                    let j = self.keys().index_of(k);
                    assert(self.keys()[j] == k);
                }
            }
        }
        slot
    }
}

} // verus!
