//! A set of names that hands its members out in the listing order.

use crate::text::{lemma_push_to_set, lists, sorted_seq, texts};
use crate::text_map::TextMap;
use vstd::prelude::*;

verus! {

/// A finite set of names. It only grows; its members come out sorted,
/// whatever the order in which they went in.
#[derive(Debug)]
pub struct NameSet {
    members: TextMap<()>,
}

impl Clone for NameSet {
    /// A set with the same members.
    fn clone(&self) -> (s: Self)
        ensures
            s@ == self@,
    {
        NameSet { members: self.members.clone() }
    }
}

impl View for NameSet {
    type V = Set<Seq<char>>;

    closed spec fn view(&self) -> Set<Seq<char>> {
        self.members@.dom()
    }
}

impl NameSet {
    /// The members in the order in which `name_at` hands them out.
    pub open spec fn listing(&self) -> Seq<Seq<char>> {
        sorted_seq(self@)
    }

    /// An empty set.
    pub fn new() -> (s: Self)
        ensures
            s@ == Set::<Seq<char>>::empty(),
    {
        let s = NameSet { members: TextMap::new() };
        assert(s@ =~= Set::<Seq<char>>::empty());
        s
    }

    /// The number of members. They are finitely many, and the listing
    /// holds each of them once.
    pub fn len(&self) -> (n: usize)
        ensures
            n == self@.len(),
            n == self.listing().len(),
            self@.finite(),
            lists(self.listing(), self@),
    {
        self.members.len()
    }

    /// Whether the set has no member.
    pub fn is_empty(&self) -> (b: bool)
        ensures
            b == (self@ == Set::<Seq<char>>::empty()),
    {
        let b = self.members.is_empty();
        proof {
            if b {
                assert(self@ =~= Set::<Seq<char>>::empty());
            } else {
                if self@ == Set::<Seq<char>>::empty() {
                    assert(self.members@ =~= Map::<Seq<char>, ()>::empty());
                }
            }
        }
        b
    }

    /// Whether a name is a member.
    pub fn contains(&self, name: &str) -> (b: bool)
        ensures
            b == self@.contains(name@),
    {
        self.members.contains_key(name)
    }

    /// The member at a position of the listing.
    pub fn name_at(&self, i: usize) -> (name: &String)
        requires
            i < self.listing().len(),
        ensures
            name@ == self.listing()[i as int],
            self@.contains(name@),
    {
        self.members.key_at(i)
    }

    /// Adds a name; says whether it was new.
    pub fn insert(&mut self, name: String) -> (fresh: bool)
        ensures
            final(self)@ == old(self)@.insert(name@),
            fresh == !old(self)@.contains(name@),
    {
        let fresh = !self.members.contains_key(name.as_str());
        self.members.insert(name, ());
        assert(self@ =~= old(self)@.insert(name@));
        fresh
    }

    /// Adds every member of another set.
    pub fn extend(&mut self, other: &NameSet)
        ensures
            final(self)@ == old(self)@.union(other@),
    {
        let n = other.len();
        let mut i: usize = 0;
        while i < n
            invariant
                i <= n,
                n == other.listing().len(),
                lists(other.listing(), other@),
                self@ == old(self)@.union(other.listing().take(i as int).to_set()),
            decreases n - i,
        {
            let name = other.name_at(i).clone();
            self.insert(name);
            proof {
                let q = other.listing();
                assert(q.take(i + 1) =~= q.take(i as int).push(q[i as int]));
                lemma_push_to_set(q.take(i as int), q[i as int]);
                assert(self@ =~= old(self)@.union(q.take(i + 1).to_set()));
            }
            i = i + 1;
        }
        proof {
            let q = other.listing();
            assert(q.take(n as int) =~= q);
            assert(self@ =~= old(self)@.union(other@));
        }
    }

    /// The set of the names that a vector holds.
    pub fn from_vec(names: Vec<String>) -> (s: Self)
        ensures
            s@ == texts(names@).to_set(),
    {
        let mut s = NameSet::new();
        let n = names.len();
        let mut i: usize = 0;
        while i < n
            invariant
                i <= n,
                n == names.len(),
                s@ == texts(names@).take(i as int).to_set(),
            decreases n - i,
        {
            let name = names[i].clone();
            s.insert(name);
            proof {
                let q = texts(names@);
                assert(q.take(i + 1) =~= q.take(i as int).push(q[i as int]));
                lemma_push_to_set(q.take(i as int), q[i as int]);
            }
            i = i + 1;
        }
        proof {
            assert(texts(names@).take(n as int) =~= texts(names@));
        }
        s
    }

    /// The members as strings, in the listing order.
    pub fn to_vec(&self) -> (names: Vec<String>)
        ensures
            texts(names@) == self.listing(),
            lists(self.listing(), self@),
    {
        let n = self.len();
        let mut names: Vec<String> = Vec::new();
        let mut i: usize = 0;
        while i < n
            invariant
                i <= n,
                n == self.listing().len(),
                names.len() == i,
                texts(names@) == self.listing().take(i as int),
            decreases n - i,
        {
            let name = self.name_at(i).clone();
            let ghost before = names@;
            names.push(name);
            proof {
                let q = self.listing();
                assert forall|j: int| 0 <= j < i + 1 implies texts(names@)[j] == q[j] by {
                    if j < i {
                        assert(texts(before)[j] == q.take(i as int)[j]);
                    }
                }
                assert(texts(names@) =~= q.take(i + 1));
            }
            i = i + 1;
        }
        proof {
            assert(self.listing().take(n as int) =~= self.listing());
        }
        names
    }
}

} // verus!
