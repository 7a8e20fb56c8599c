//! A map keyed by text whose entries are kept in the listing order.

use crate::text::{
    compare_text, lemma_listing_unique, lemma_push_to_set, lemma_sorted_no_duplicates, lemma_text_lt_irreflexive,
    lemma_sorted_insert, lemma_text_lt_transitive, lists, sorted_seq, strictly_sorted, text_lt,
    Rank,
};
use vstd::prelude::*;

verus! {

/// A finite map from texts to values. Iteration by index goes through the
/// keys in the listing order, whatever the order of insertion was.
#[derive(Debug)]
pub struct TextMap<V: View> {
    entries: Vec<(String, V)>,
}

/// The keys of a sequence of entries, in the same order.
spec fn entry_keys<V>(es: Seq<(String, V)>) -> Seq<Seq<char>> {
    Seq::new(es.len(), |i: int| es[i].0@)
}

/// The map that a sequence of entries stands for.
spec fn entries_map<V: View>(es: Seq<(String, V)>) -> Map<Seq<char>, V::V> {
    Map::new(
        |k: Seq<char>| entry_keys(es).contains(k),
        |k: Seq<char>| es[entry_keys(es).index_of(k)].1@,
    )
}

proof fn lemma_entry<V: View>(es: Seq<(String, V)>, i: int)
    requires
        strictly_sorted(entry_keys(es)),
        0 <= i < es.len(),
    ensures
        entry_keys(es).index_of(es[i].0@) == i,
        entries_map(es).contains_key(es[i].0@),
        entries_map(es)[es[i].0@] == es[i].1@,
{
    let ks = entry_keys(es);
    assert(ks[i] == es[i].0@);
    assert(ks.contains(ks[i]));
    lemma_sorted_no_duplicates(ks);
}

proof fn lemma_entries_listing<V: View>(es: Seq<(String, V)>)
    requires
        strictly_sorted(entry_keys(es)),
    ensures
        entries_map(es).dom() =~= entry_keys(es).to_set(),
        sorted_seq(entries_map(es).dom()) == entry_keys(es),
        lists(entry_keys(es), entries_map(es).dom()),
        entries_map(es).dom().finite(),
        entries_map(es).dom().len() == es.len(),
{
    let ks = entry_keys(es);
    assert(entries_map(es).dom() =~= ks.to_set());
    assert(lists(ks, entries_map(es).dom()));
    lemma_listing_unique(sorted_seq(entries_map(es).dom()), ks);
    vstd::seq_lib::seq_to_set_is_finite(ks);
    lemma_sorted_no_duplicates(ks);
    ks.unique_seq_to_set();
}

proof fn lemma_insert_at<V: View>(es: Seq<(String, V)>, pos: int, e: (String, V))
    requires
        strictly_sorted(entry_keys(es)),
        0 <= pos <= es.len(),
        forall|i: int| 0 <= i < pos ==> text_lt(#[trigger] entry_keys(es)[i], e.0@),
        forall|i: int| pos <= i < es.len() ==> text_lt(e.0@, #[trigger] entry_keys(es)[i]),
    ensures
        strictly_sorted(entry_keys(es.insert(pos, e))),
        entries_map(es.insert(pos, e)) =~= entries_map(es).insert(e.0@, e.1@),
{
    let es2 = es.insert(pos, e);
    let ks = entry_keys(es);
    let ks2 = entry_keys(es2);
    assert(es2.len() == es.len() + 1);
    assert(forall|i: int| 0 <= i < pos ==> es2[i] == es[i]);
    assert(es2[pos] == e);
    assert(forall|i: int| pos < i < es2.len() ==> es2[i] == es[i - 1]);
    lemma_sorted_insert(ks, pos, e.0@);
    assert(ks2 =~= ks.insert(pos, e.0@));
    let m = entries_map(es);
    let m2 = entries_map(es2);
    assert forall|k: Seq<char>| m2.contains_key(k) <==> m.insert(e.0@, e.1@).contains_key(
        k,
    ) by {
        if ks2.contains(k) {
            let i = choose|i: int| 0 <= i < ks2.len() && ks2[i] == k;
            if i < pos {
                assert(ks[i] == k);
            } else if i > pos {
                assert(ks[i - 1] == k);
            }
        }
        if ks.contains(k) {
            let i = choose|i: int| 0 <= i < ks.len() && ks[i] == k;
            if i < pos {
                assert(ks2[i] == k);
            } else {
                assert(ks2[i + 1] == k);
            }
        }
        if k == e.0@ {
            assert(ks2[pos] == k);
        }
    }
    assert forall|k: Seq<char>| m2.contains_key(k) implies m2[k] == m.insert(e.0@, e.1@)[k] by {
        let i = choose|i: int| 0 <= i < ks2.len() && ks2[i] == k;
        lemma_entry(es2, i);
        if i < pos {
            lemma_entry(es, i);
            lemma_text_lt_irreflexive(k);
        } else if i > pos {
            lemma_entry(es, i - 1);
            lemma_text_lt_irreflexive(k);
        }
    }
}

proof fn lemma_update_at<V: View>(es: Seq<(String, V)>, pos: int, e: (String, V))
    requires
        strictly_sorted(entry_keys(es)),
        0 <= pos < es.len(),
        es[pos].0@ == e.0@,
    ensures
        strictly_sorted(entry_keys(es.update(pos, e))),
        entries_map(es.update(pos, e)) =~= entries_map(es).insert(e.0@, e.1@),
{
    let es2 = es.update(pos, e);
    assert(entry_keys(es2) =~= entry_keys(es));
    let m = entries_map(es);
    let m2 = entries_map(es2);
    lemma_entry(es, pos);
    assert forall|k: Seq<char>| m2.contains_key(k) implies m2[k] == m.insert(e.0@, e.1@)[k] by {
        let i = choose|i: int| 0 <= i < es2.len() && entry_keys(es2)[i] == k;
        lemma_entry(es2, i);
        lemma_entry(es, i);
    }
}

/// Searches sorted entries for a key: the index at which it stands or
/// would have to stand, and whether it is there.
fn find_slot<V: View>(entries: &Vec<(String, V)>, key: &str) -> (r: (usize, bool))
    requires
        strictly_sorted(entry_keys(entries@)),
    ensures
        r.0 <= entries.len(),
        r.1 ==> r.0 < entries.len() && entries[r.0 as int].0@ == key@,
        !r.1 ==> !entry_keys(entries@).contains(key@),
        forall|i: int| 0 <= i < r.0 ==> text_lt(#[trigger] entry_keys(entries@)[i], key@),
        !r.1 ==> forall|i: int|
            r.0 <= i < entries.len() ==> text_lt(key@, #[trigger] entry_keys(entries@)[i]),
{
    let ghost ks = entry_keys(entries@);
    let mut lo: usize = 0;
    let mut hi: usize = entries.len();
    while lo < hi
        invariant
            lo <= hi <= entries.len(),
            ks == entry_keys(entries@),
            strictly_sorted(ks),
            forall|i: int| 0 <= i < lo ==> text_lt(#[trigger] ks[i], key@),
            forall|i: int| hi <= i < entries.len() ==> text_lt(key@, #[trigger] ks[i]),
        decreases hi - lo,
    {
        let mid: usize = lo + (hi - lo) / 2;
        match compare_text(entries[mid].0.as_str(), key) {
            Rank::Before => {
                proof {
                    assert(ks[mid as int] == entries@[mid as int].0@);
                    assert forall|i: int| 0 <= i < mid + 1 implies text_lt(
                        #[trigger] ks[i],
                        key@,
                    ) by {
                        if i < mid {
                            assert(text_lt(ks[i], ks[mid as int]));
                            lemma_text_lt_transitive(ks[i], ks[mid as int], key@);
                        }
                    }
                }
                lo = mid + 1;
            },
            Rank::Same => {
                proof {
                    assert(ks[mid as int] == key@);
                    assert forall|i: int| 0 <= i < mid implies text_lt(#[trigger] ks[i], key@) by {
                        assert(text_lt(ks[i], ks[mid as int]));
                    }
                }
                return (mid, true);
            },
            Rank::After => {
                proof {
                    assert(ks[mid as int] == entries@[mid as int].0@);
                    assert forall|i: int| mid <= i < entries.len() implies text_lt(
                        key@,
                        #[trigger] ks[i],
                    ) by {
                        if i > mid {
                            assert(text_lt(ks[mid as int], ks[i]));
                            lemma_text_lt_transitive(key@, ks[mid as int], ks[i]);
                        }
                    }
                }
                hi = mid;
            },
        }
    }
    proof {
        lemma_text_lt_irreflexive(key@);
        assert forall|i: int| 0 <= i < ks.len() implies ks[i] != key@ by {
            if i < lo {
                assert(text_lt(ks[i], key@));
            } else {
                assert(text_lt(key@, ks[i]));
            }
        }
    }
    (lo, false)
}

/// Values that can be copied with what they stand for kept.
pub trait ViewClone: View + Sized {
    /// A copy that stands for the same as `self`.
    fn view_clone(&self) -> (copy: Self)
        ensures
            copy@ == self@,
    ;
}

impl ViewClone for String {
    fn view_clone(&self) -> (copy: Self) {
        self.clone()
    }
}

impl ViewClone for () {
    fn view_clone(&self) -> (copy: Self) {
        ()
    }
}

impl<V: ViewClone> Clone for TextMap<V> {
    /// A map with the same keys and, under each, a copy of its value.
    fn clone(&self) -> (m: Self)
        ensures
            m@ == self@,
    {
        proof {
            use_type_invariant(self);
        }
        let n = self.entries.len();
        let mut entries: Vec<(String, V)> = Vec::new();
        let mut i: usize = 0;
        while i < n
            invariant
                i <= n,
                n == self.entries.len(),
                entries.len() == i,
                forall|j: int|
                    0 <= j < i ==> entries@[j].0@ == self.entries@[j].0@ && entries@[j].1@
                        == self.entries@[j].1@,
            decreases n - i,
        {
            let key = self.entries[i].0.clone();
            let value = self.entries[i].1.view_clone();
            entries.push((key, value));
            i = i + 1;
        }
        proof {
            let ks = entry_keys(self.entries@);
            assert(entry_keys(entries@) =~= ks);
            assert forall|k: Seq<char>| entries_map(entries@).contains_key(k) implies entries_map(
                entries@,
            )[k] == entries_map(self.entries@)[k] by {
                let j = choose|j: int| 0 <= j < ks.len() && ks[j] == k;
                lemma_entry(entries@, j);
                lemma_entry(self.entries@, j);
            }
            assert(entries_map(entries@) =~= entries_map(self.entries@));
        }
        TextMap { entries }
    }
}

impl<V: View> View for TextMap<V> {
    type V = Map<Seq<char>, V::V>;

    closed spec fn view(&self) -> Map<Seq<char>, V::V> {
        entries_map(self.entries@)
    }
}

impl<V: View> TextMap<V> {
    #[verifier::type_invariant]
    spec fn well_formed(&self) -> bool {
        strictly_sorted(entry_keys(self.entries@))
    }

    /// The keys in the order in which `key_at` hands them out.
    pub open spec fn listing(&self) -> Seq<Seq<char>> {
        sorted_seq(self@.dom())
    }

    /// An empty map.
    pub fn new() -> (m: Self)
        ensures
            m@ == Map::<Seq<char>, V::V>::empty(),
    {
        let m = TextMap { entries: Vec::new() };
        assert(m@ =~= Map::<Seq<char>, V::V>::empty());
        m
    }

    /// The number of entries. The keys are finitely many, and their
    /// listing holds each of them once.
    pub fn len(&self) -> (n: usize)
        ensures
            n == self@.dom().len(),
            n == self.listing().len(),
            self@.dom().finite(),
            lists(self.listing(), self@.dom()),
    {
        proof {
            use_type_invariant(self);
            lemma_entries_listing(self.entries@);
        }
        self.entries.len()
    }

    /// Whether the map has no entry.
    pub fn is_empty(&self) -> (b: bool)
        ensures
            b == (self@ == Map::<Seq<char>, V::V>::empty()),
    {
        proof {
            use_type_invariant(self);
            lemma_entries_listing(self.entries@);
            if self.entries.len() > 0 {
                lemma_entry(self.entries@, 0);
            } else {
                assert(self@ =~= Map::<Seq<char>, V::V>::empty());
            }
        }
        self.entries.len() == 0
    }

    /// The key at a position of the listing.
    pub fn key_at(&self, i: usize) -> (k: &String)
        requires
            i < self.listing().len(),
        ensures
            k@ == self.listing()[i as int],
            self@.contains_key(k@),
    {
        proof {
            use_type_invariant(self);
            lemma_entries_listing(self.entries@);
            lemma_entry(self.entries@, i as int);
        }
        &self.entries[i].0
    }

    /// The value under the key at a position of the listing.
    pub fn value_at(&self, i: usize) -> (v: &V)
        requires
            i < self.listing().len(),
        ensures
            v@ == self@[self.listing()[i as int]],
    {
        proof {
            use_type_invariant(self);
            lemma_entries_listing(self.entries@);
            lemma_entry(self.entries@, i as int);
        }
        &self.entries[i].1
    }

    /// The value under a key, if the map has that key.
    pub fn get(&self, key: &str) -> (r: Option<&V>)
        ensures
            match r {
                Some(v) => self@.contains_key(key@) && self@[key@] == v@,
                None => !self@.contains_key(key@),
            },
    {
        proof {
            use_type_invariant(self);
        }
        let (pos, found) = find_slot(&self.entries, key);
        if found {
            proof {
                lemma_entry(self.entries@, pos as int);
            }
            Some(&self.entries[pos].1)
        } else {
            None
        }
    }

    /// Whether the map has a key.
    pub fn contains_key(&self, key: &str) -> (b: bool)
        ensures
            b == self@.contains_key(key@),
    {
        self.get(key).is_some()
    }

    /// Puts a value under a key, in place of the value that the key had.
    pub fn insert(&mut self, key: String, value: V)
        ensures
            final(self)@ == old(self)@.insert(key@, value@),
    {
        proof {
            use_type_invariant(&*self);
        }
        let mut entries: Vec<(String, V)> = Vec::new();
        std::mem::swap(&mut entries, &mut self.entries);
        let (pos, found) = find_slot(&entries, key.as_str());
        let ghost before = entries@;
        let ghost entry = (key, value);
        if found {
            proof {
                lemma_update_at(before, pos as int, entry);
            }
            entries.set(pos, (key, value));
        } else {
            proof {
                lemma_insert_at(before, pos as int, entry);
            }
            entries.insert(pos, (key, value));
        }
        self.entries = entries;
    }
}

/// The texts that a sequence of pairs of strings holds.
pub open spec fn pair_texts(pairs: Seq<(String, String)>) -> Seq<(Seq<char>, Seq<char>)> {
    Seq::new(pairs.len(), |i: int| (pairs[i].0@, pairs[i].1@))
}

/// A map after a sequence of insertions, each in place of what its key
/// had before: of two pairs with one key the later one stays.
pub open spec fn upserts(
    m: Map<Seq<char>, Seq<char>>,
    pairs: Seq<(Seq<char>, Seq<char>)>,
) -> Map<Seq<char>, Seq<char>>
    decreases pairs.len(),
{
    if pairs.len() == 0 {
        m
    } else {
        upserts(m, pairs.drop_last()).insert(pairs.last().0, pairs.last().1)
    }
}

impl TextMap<String> {
    /// The map that a vector of pairs gives when they are inserted in
    /// order.
    pub fn from_vec(pairs: Vec<(String, String)>) -> (m: Self)
        ensures
            m@ == upserts(Map::empty(), pair_texts(pairs@)),
    {
        let mut m: TextMap<String> = TextMap::new();
        let n = pairs.len();
        let mut i: usize = 0;
        while i < n
            invariant
                i <= n,
                n == pairs.len(),
                m@ == upserts(Map::empty(), pair_texts(pairs@).take(i as int)),
            decreases n - i,
        {
            let key = pairs[i].0.clone();
            let value = pairs[i].1.clone();
            m.insert(key, value);
            proof {
                let q = pair_texts(pairs@);
                assert(q.take(i + 1).drop_last() =~= q.take(i as int));
                assert(q.take(i + 1).last() == q[i as int]);
            }
            i = i + 1;
        }
        proof {
            assert(pair_texts(pairs@).take(n as int) =~= pair_texts(pairs@));
        }
        m
    }

    /// Inserts every entry of another map, in place of what its key had
    /// here.
    pub fn extend(&mut self, other: &TextMap<String>)
        ensures
            final(self)@ == old(self)@.union_prefer_right(other@),
    {
        let n = other.len();
        let mut i: usize = 0;
        proof {
            assert(other.listing().take(0).to_set() =~= Set::<Seq<char>>::empty());
            assert(self@ =~= old(self)@.union_prefer_right(
                other@.restrict(other.listing().take(0).to_set()),
            ));
        }
        while i < n
            invariant
                i <= n,
                n == other.listing().len(),
                lists(other.listing(), other@.dom()),
                self@ == old(self)@.union_prefer_right(
                    other@.restrict(other.listing().take(i as int).to_set()),
                ),
            decreases n - i,
        {
            let key = other.key_at(i).clone();
            let value = other.value_at(i).clone();
            self.insert(key, value);
            proof {
                let q = other.listing();
                assert(q.take(i + 1) =~= q.take(i as int).push(q[i as int]));
                lemma_push_to_set(q.take(i as int), q[i as int]);
                assert(self@ =~= old(self)@.union_prefer_right(
                    other@.restrict(q.take(i + 1).to_set()),
                ));
            }
            i = i + 1;
        }
        proof {
            let q = other.listing();
            assert(q.take(n as int) =~= q);
            assert(other@.restrict(q.to_set()) =~= other@);
        }
    }
}

} // verus!
