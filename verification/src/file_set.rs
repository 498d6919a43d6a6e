//! A set of file paths that remembers the order in which they were added.

use vstd::prelude::*;
use crate::text::{lemma_texts_push, texts};

verus! {

/// A finite set of paths. Its view is the set; `order` lists the members in
/// the order of their first insertion.
#[derive(Debug)]
pub struct FileSet {
    items: Vec<String>,
}

impl View for FileSet {
    type V = Set<Seq<char>>;

    open spec fn view(&self) -> Set<Seq<char>> {
        self.order().to_set()
    }
}

impl FileSet {
    /// No path is held twice.
    #[verifier::type_invariant]
    pub open spec fn inv(&self) -> bool {
        self.order().no_duplicates()
    }

    /// The members, in the order of their insertion.
    pub closed spec fn order(&self) -> Seq<Seq<char>> {
        texts(self.items@)
    }

    /// The empty set.
    pub fn new() -> (set: Self)
        ensures
            set.order() == Seq::<Seq<char>>::empty(),
            set@ == Set::<Seq<char>>::empty(),
            set.inv(),
    {
        let set = FileSet { items: Vec::new() };
        assert(set.order() =~= Seq::<Seq<char>>::empty());
        assert(set@ =~= Set::<Seq<char>>::empty());
        set
    }

    /// The number of members.
    pub fn len(&self) -> (n: usize)
        ensures
            n == self.order().len(),
            n == self@.len(),
            self@.finite(),
    {
        proof {
            use_type_invariant(self);
            self.order().unique_seq_to_set();
        }
        self.items.len()
    }

    /// Whether the set has no member.
    pub fn is_empty(&self) -> (empty: bool)
        ensures
            empty == (self.order().len() == 0),
            empty == (self@ == Set::<Seq<char>>::empty()),
    {
        proof {
            if self.order().len() > 0 {
                assert(self@.contains(self.order()[0]));
            } else {
                assert(self@ =~= Set::<Seq<char>>::empty());
            }
        }
        self.items.len() == 0
    }

    /// The position of `path` in the insertion order, if it is a member.
    pub fn position(&self, path: &str) -> (found: Option<usize>)
        ensures
            match found {
                Some(i) => i < self.order().len() && self.order()[i as int] == path@,
                None => !self@.contains(path@),
            },
    {
        let mut i: usize = 0;
        while i < self.items.len()
            invariant
                i <= self.items.len(),
                forall|j: int| 0 <= j < i ==> self.order()[j] != path@,
            decreases self.items.len() - i,
        {
            if crate::text::same_text(self.items[i].as_str(), path) {
                return Some(i);
            }
            i = i + 1;
        }
        None
    }

    /// Whether `path` is a member.
    pub fn contains(&self, path: &str) -> (yes: bool)
        ensures
            yes == self@.contains(path@),
    {
        self.position(path).is_some()
    }

    /// The member at position `i` of the insertion order.
    pub fn get(&self, i: usize) -> (path: &String)
        requires
            i < self.order().len(),
        ensures
            path@ == self.order()[i as int],
    {
        &self.items[i]
    }

    /// Adds `path`; says whether it was new. A new member goes to the end of
    /// the order, a known one leaves the set as it was.
    pub fn insert(&mut self, path: String) -> (added: bool)
        ensures
            added == !old(self)@.contains(path@),
            final(self).order() == if added {
                old(self).order().push(path@)
            } else {
                old(self).order()
            },
            final(self)@ == old(self)@.insert(path@),
            final(self).inv(),
    {
        proof {
            use_type_invariant(&*self);
        }
        if self.contains(path.as_str()) {
            assert(self@ =~= self@.insert(path@));
            false
        } else {
            let ghost before = self.order();
            let mut items: Vec<String> = Vec::new();
            core::mem::swap(&mut self.items, &mut items);
            proof {
                lemma_texts_push(items@, path);
            }
            items.push(path);
            core::mem::swap(&mut self.items, &mut items);
            assert(self.order() == before.push(path@));
            assert(self.order().to_set() =~= before.to_set().insert(path@)) by {
                assert forall|p: Seq<char>| self.order().contains(p) implies before.to_set().insert(
                    path@,
                ).contains(p) by {
                    let k = choose|k: int| 0 <= k < self.order().len() && self.order()[k] == p;
                    if k < before.len() {
                        assert(before[k] == p);
                    }
                }
                assert forall|p: Seq<char>|
                    before.to_set().insert(path@).contains(p) implies self.order().contains(p) by {
                    if p == path@ {
                        assert(self.order()[before.len() as int] == p);
                    } else {
                        let k = choose|k: int| 0 <= k < before.len() && before[k] == p;
                        assert(self.order()[k] == p);
                    }
                }
            }
            true
        }
    }

    /// The set of the given paths, each once, in the order of their first
    /// listing.
    pub fn from_paths(paths: &[String]) -> (set: Self)
        ensures
            set@ == texts(paths@).to_set(),
    {
        let mut set = FileSet::new();
        let mut i: usize = 0;
        assert(texts(paths@).take(0).to_set() =~= Set::<Seq<char>>::empty());
        while i < paths.len()
            invariant
                i <= paths.len(),
                set@ == texts(paths@).take(i as int).to_set(),
            decreases paths.len() - i,
        {
            let ghost earlier = texts(paths@).take(i as int);
            let ghost now = texts(paths@).take(i + 1);
            set.insert(paths[i].clone());
            proof {
                assert(now =~= earlier.push(paths@[i as int]@));
                assert forall|p: Seq<char>| now.contains(p) <==> earlier.contains(p) || p
                    == paths@[i as int]@ by {
                    if earlier.contains(p) {
                        let k = choose|k: int| 0 <= k < earlier.len() && earlier[k] == p;
                        assert(now[k] == p);
                    }
                    if p == paths@[i as int]@ {
                        assert(now[i as int] == p);
                    }
                }
                assert(set@ =~= now.to_set());
            }
            i = i + 1;
        }
        assert(texts(paths@).take(i as int) =~= texts(paths@));
        set
    }

    /// A copy of the members, in the order of their insertion.
    pub fn to_vec(&self) -> (paths: Vec<String>)
        ensures
            texts(paths@) == self.order(),
    {
        let mut paths: Vec<String> = Vec::new();
        let mut i: usize = 0;
        while i < self.items.len()
            invariant
                i <= self.items.len(),
                texts(paths@) == self.order().take(i as int),
            decreases self.items.len() - i,
        {
            proof {
                lemma_texts_push(paths@, self.items@[i as int]);
            }
            paths.push(self.items[i].clone());
            assert(texts(paths@) =~= self.order().take(i + 1));
            i = i + 1;
        }
        assert(self.order().take(i as int) =~= self.order());
        paths
    }
}

} // verus!
