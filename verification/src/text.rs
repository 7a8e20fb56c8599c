//! Text as sequences of characters: the order in which names are listed,
//! the listing of a set of names, and joining and decoding text.

use itertools::Itertools;
use vstd::prelude::*;
use vstd::std_specs::iter::IteratorSpec;
use vstd::utf8::{encode_utf8, valid_utf8};

verus! {

/// How one text stands to another in the listing order.
#[derive(Debug, Clone, Copy, PartialEq, Eq, Structural)]
pub enum Rank {
    Before,
    Same,
    After,
}

/// The strict listing order: lexicographic by code point, a proper prefix
/// standing before every text that extends it.
pub open spec fn text_lt(a: Seq<char>, b: Seq<char>) -> bool
    decreases a.len(),
{
    if b.len() == 0 {
        false
    } else if a.len() == 0 {
        true
    } else if a[0] != b[0] {
        (a[0] as int) < (b[0] as int)
    } else {
        text_lt(a.drop_first(), b.drop_first())
    }
}

/// No text stands before itself.
pub proof fn lemma_text_lt_irreflexive(a: Seq<char>)
    ensures
        !text_lt(a, a),
    decreases a.len(),
{
    if a.len() > 0 {
        lemma_text_lt_irreflexive(a.drop_first());
    }
}

/// Of two different texts exactly one stands before the other.
pub proof fn lemma_text_lt_total(a: Seq<char>, b: Seq<char>)
    ensures
        a != b ==> (text_lt(a, b) <==> !text_lt(b, a)),
        a == b ==> !text_lt(a, b) && !text_lt(b, a),
    decreases a.len(),
{
    if a == b {
        lemma_text_lt_irreflexive(a);
    } else if a.len() == 0 || b.len() == 0 {
        if a.len() == 0 && b.len() == 0 {
            assert(a =~= b);
        }
    } else if a[0] != b[0] {
    } else {
        lemma_text_lt_total(a.drop_first(), b.drop_first());
        if a.drop_first() == b.drop_first() {
            assert(a =~= seq![a[0]] + a.drop_first());
            assert(b =~= seq![b[0]] + b.drop_first());
        }
    }
}

/// The listing order is transitive.
pub proof fn lemma_text_lt_transitive(a: Seq<char>, b: Seq<char>, c: Seq<char>)
    requires
        text_lt(a, b),
        text_lt(b, c),
    ensures
        text_lt(a, c),
    decreases a.len(),
{
    if a.len() > 0 && a[0] == b[0] && b[0] == c[0] {
        lemma_text_lt_transitive(a.drop_first(), b.drop_first(), c.drop_first());
    }
}

/// Dropping a shared prefix changes neither the order nor equality.
pub proof fn lemma_text_lt_skip(a: Seq<char>, b: Seq<char>, k: int)
    requires
        0 <= k <= a.len(),
        k <= b.len(),
        a.take(k) == b.take(k),
    ensures
        text_lt(a, b) == text_lt(a.skip(k), b.skip(k)),
        (a == b) == (a.skip(k) == b.skip(k)),
    decreases k,
{
    if k == 0 {
        assert(a.skip(0) =~= a);
        assert(b.skip(0) =~= b);
    } else {
        assert(a[0] == a.take(k)[0]);
        assert(b[0] == b.take(k)[0]);
        let a_rest = a.drop_first();
        let b_rest = b.drop_first();
        assert(a_rest.take(k - 1) =~= a.take(k).drop_first());
        assert(b_rest.take(k - 1) =~= b.take(k).drop_first());
        lemma_text_lt_skip(a_rest, b_rest, k - 1);
        assert(a_rest.skip(k - 1) =~= a.skip(k));
        assert(b_rest.skip(k - 1) =~= b.skip(k));
        assert(a =~= seq![a[0]] + a_rest);
        assert(b =~= seq![b[0]] + b_rest);
    }
}

/// Compares two texts in the listing order.
pub fn compare_text(a: &str, b: &str) -> (r: Rank)
    ensures
        r is Before <==> text_lt(a@, b@),
        r is Same <==> a@ == b@,
        r is After <==> text_lt(b@, a@),
{
    let mut ia = a.chars();
    let mut ib = b.chars();
    let ghost mut k: int = 0;
    proof {
        assert(a@.skip(0) =~= a@);
        assert(b@.skip(0) =~= b@);
        assert(a@.take(0) =~= b@.take(0));
    }
    loop
        invariant
            0 <= k <= a@.len(),
            k <= b@.len(),
            a@.take(k) == b@.take(k),
            ia.remaining() == a@.skip(k),
            ib.remaining() == b@.skip(k),
            ia.obeys_prophetic_iter_laws(),
            ib.obeys_prophetic_iter_laws(),
        decreases a@.len() - k,
    {
        let ca = ia.next();
        let cb = ib.next();
        proof {
            lemma_text_lt_skip(a@, b@, k);
            lemma_text_lt_skip(b@, a@, k);
            lemma_text_lt_total(a@.skip(k), b@.skip(k));
        }
        match (ca, cb) {
            (None, None) => {
                assert(a@.skip(k) =~= b@.skip(k));
                return Rank::Same;
            },
            (None, Some(_)) => {
                return Rank::Before;
            },
            (Some(_), None) => {
                return Rank::After;
            },
            (Some(x), Some(y)) => {
                if x != y {
                    if x < y {
                        return Rank::Before;
                    } else {
                        return Rank::After;
                    }
                }
                proof {
                    assert(a@.take(k + 1) =~= a@.take(k).push(x));
                    assert(b@.take(k + 1) =~= b@.take(k).push(y));
                    assert(a@.skip(k).drop_first() =~= a@.skip(k + 1));
                    assert(b@.skip(k).drop_first() =~= b@.skip(k + 1));
                    k = k + 1;
                }
            },
        }
    }
}

/// The texts that a sequence of strings holds, in the same order.
pub open spec fn texts(items: Seq<String>) -> Seq<Seq<char>> {
    Seq::new(items.len(), |i: int| items[i]@)
}

/// Whether each text of a sequence stands before all that follow it.
pub open spec fn strictly_sorted(q: Seq<Seq<char>>) -> bool {
    forall|i: int, j: int| 0 <= i < j < q.len() ==> text_lt(#[trigger] q[i], #[trigger] q[j])
}

/// Whether a sequence is the listing of a set: its members, each once, in
/// the listing order.
pub open spec fn lists(q: Seq<Seq<char>>, s: Set<Seq<char>>) -> bool {
    strictly_sorted(q) && q.to_set() =~= s
}

/// The listing of a set of texts.
pub open spec fn sorted_seq(s: Set<Seq<char>>) -> Seq<Seq<char>> {
    choose|q: Seq<Seq<char>>| lists(q, s)
}

/// A strictly sorted sequence holds no text twice.
pub proof fn lemma_sorted_no_duplicates(q: Seq<Seq<char>>)
    requires
        strictly_sorted(q),
    ensures
        q.no_duplicates(),
{
    assert forall|i: int, j: int| 0 <= i < q.len() && 0 <= j < q.len() && i != j implies q[i]
        != q[j] by {
        lemma_text_lt_irreflexive(q[i]);
        if i < j {
            assert(text_lt(q[i], q[j]));
        } else {
            assert(text_lt(q[j], q[i]));
        }
    }
}

/// Two strictly sorted sequences with the same members are the same
/// sequence.
pub proof fn lemma_listing_unique(p: Seq<Seq<char>>, q: Seq<Seq<char>>)
    requires
        strictly_sorted(p),
        strictly_sorted(q),
        p.to_set() =~= q.to_set(),
    ensures
        p == q,
    decreases p.len(),
{
    if p.len() == 0 {
        if q.len() > 0 {
            assert(q.contains(q[0]));
            assert(p.to_set().contains(q[0]));
        }
        assert(p =~= q);
    } else {
        assert(p.contains(p[0]));
        assert(q.to_set().contains(p[0]));
        let j = choose|j: int| 0 <= j < q.len() && q[j] == p[0];
        assert(q.contains(q[0]));
        assert(p.to_set().contains(q[0]));
        let i = choose|i: int| 0 <= i < p.len() && p[i] == q[0];
        lemma_text_lt_irreflexive(p[0]);
        lemma_text_lt_total(p[0], q[0]);
        if i > 0 {
            assert(text_lt(p[0], p[i]));
        }
        if j > 0 {
            assert(text_lt(q[0], q[j]));
        }
        assert(p[0] == q[0]);
        let p_rest = p.drop_first();
        let q_rest = q.drop_first();
        assert(strictly_sorted(p_rest)) by {
            assert forall|a: int, b: int| 0 <= a < b < p_rest.len() implies text_lt(
                #[trigger] p_rest[a],
                #[trigger] p_rest[b],
            ) by {
                assert(text_lt(p[a + 1], p[b + 1]));
            }
        }
        assert(strictly_sorted(q_rest)) by {
            assert forall|a: int, b: int| 0 <= a < b < q_rest.len() implies text_lt(
                #[trigger] q_rest[a],
                #[trigger] q_rest[b],
            ) by {
                assert(text_lt(q[a + 1], q[b + 1]));
            }
        }
        assert(p_rest.to_set() =~= q_rest.to_set()) by {
            assert forall|x: Seq<char>| p_rest.to_set().contains(x) <==> q_rest.to_set().contains(
                x,
            ) by {
                if p_rest.contains(x) {
                    let a = choose|a: int| 0 <= a < p_rest.len() && p_rest[a] == x;
                    assert(text_lt(p[0], p[a + 1]));
                    assert(p.contains(x));
                    assert(q.to_set().contains(x));
                    let b = choose|b: int| 0 <= b < q.len() && q[b] == x;
                    assert(b > 0);
                    assert(q_rest[b - 1] == x);
                }
                if q_rest.contains(x) {
                    let b = choose|b: int| 0 <= b < q_rest.len() && q_rest[b] == x;
                    assert(text_lt(q[0], q[b + 1]));
                    assert(q.contains(x));
                    assert(p.to_set().contains(x));
                    let a = choose|a: int| 0 <= a < p.len() && p[a] == x;
                    assert(a > 0);
                    assert(p_rest[a - 1] == x);
                }
            }
        }
        lemma_listing_unique(p_rest, q_rest);
        assert(p =~= seq![p[0]] + p_rest);
        assert(q =~= seq![q[0]] + q_rest);
    }
}

/// The members of a sequence with one more text at its end.
pub proof fn lemma_push_to_set(q: Seq<Seq<char>>, x: Seq<char>)
    ensures
        q.push(x).to_set() =~= q.to_set().insert(x),
{
    let p = q.push(x);
    assert forall|y: Seq<char>| p.to_set().contains(y) <==> q.to_set().insert(x).contains(y) by {
        if p.contains(y) {
            let j = choose|j: int| 0 <= j < p.len() && p[j] == y;
            if j < q.len() {
                assert(q[j] == y);
            }
        }
        if q.contains(y) {
            let j = choose|j: int| 0 <= j < q.len() && q[j] == y;
            assert(p[j] == y);
        }
        if y == x {
            assert(p[q.len() as int] == y);
        }
    }
}

/// A text put into a strictly sorted sequence where it belongs: the
/// sequence stays sorted and gains the text as a member.
pub proof fn lemma_sorted_insert(q: Seq<Seq<char>>, pos: int, x: Seq<char>)
    requires
        strictly_sorted(q),
        0 <= pos <= q.len(),
        forall|i: int| 0 <= i < pos ==> text_lt(#[trigger] q[i], x),
        forall|i: int| pos <= i < q.len() ==> text_lt(x, #[trigger] q[i]),
    ensures
        strictly_sorted(q.insert(pos, x)),
        q.insert(pos, x).to_set() =~= q.to_set().insert(x),
        q.insert(pos, x).len() == q.len() + 1,
{
    let p = q.insert(pos, x);
    assert(p.len() == q.len() + 1);
    assert(forall|i: int| 0 <= i < pos ==> p[i] == q[i]);
    assert(p[pos] == x);
    assert(forall|i: int| pos < i < p.len() ==> p[i] == q[i - 1]);
    assert forall|i: int, j: int| 0 <= i < j < p.len() implies text_lt(
        #[trigger] p[i],
        #[trigger] p[j],
    ) by {
        if j < pos {
            assert(text_lt(q[i], q[j]));
        } else if j == pos {
            assert(text_lt(q[i], x));
        } else if i < pos {
            assert(text_lt(q[i], q[j - 1]));
        } else if i == pos {
            assert(text_lt(x, q[j - 1]));
        } else {
            assert(text_lt(q[i - 1], q[j - 1]));
        }
    }
    assert forall|y: Seq<char>| p.to_set().contains(y) <==> q.to_set().insert(x).contains(y) by {
        if p.contains(y) {
            let i = choose|i: int| 0 <= i < p.len() && p[i] == y;
            if i < pos {
                assert(q[i] == y);
            } else if i > pos {
                assert(q[i - 1] == y);
            }
        }
        if q.contains(y) {
            let i = choose|i: int| 0 <= i < q.len() && q[i] == y;
            if i < pos {
                assert(p[i] == y);
            } else {
                assert(p[i + 1] == y);
            }
        }
        if y == x {
            assert(p[pos] == y);
        }
    }
}

/// Where a text belongs in a strictly sorted sequence: behind the last
/// member that stands before it.
pub open spec fn slot(q: Seq<Seq<char>>, x: Seq<char>) -> int
    decreases q.len(),
{
    if q.len() == 0 {
        0
    } else if text_lt(q.last(), x) {
        q.len() as int
    } else {
        slot(q.drop_last(), x)
    }
}

/// The slot of a text that is no member parts the sequence into what
/// stands before the text and what stands behind it.
pub proof fn lemma_slot(q: Seq<Seq<char>>, x: Seq<char>)
    requires
        strictly_sorted(q),
        !q.contains(x),
    ensures
        0 <= slot(q, x) <= q.len(),
        forall|i: int| 0 <= i < slot(q, x) ==> text_lt(#[trigger] q[i], x),
        forall|i: int| slot(q, x) <= i < q.len() ==> text_lt(x, #[trigger] q[i]),
    decreases q.len(),
{
    if q.len() == 0 {
    } else if text_lt(q.last(), x) {
        assert forall|i: int| 0 <= i < q.len() implies text_lt(#[trigger] q[i], x) by {
            if i < q.len() - 1 {
                assert(text_lt(q[i], q[q.len() - 1]));
                lemma_text_lt_transitive(q[i], q.last(), x);
            }
        }
    } else {
        let r = q.drop_last();
        assert(strictly_sorted(r)) by {
            assert forall|i: int, j: int| 0 <= i < j < r.len() implies text_lt(
                #[trigger] r[i],
                #[trigger] r[j],
            ) by {
                assert(text_lt(q[i], q[j]));
            }
        }
        assert(!r.contains(x)) by {
            if r.contains(x) {
                let i = choose|i: int| 0 <= i < r.len() && r[i] == x;
                assert(q[i] == x);
            }
        }
        lemma_slot(r, x);
        assert(q[q.len() - 1] != x);
        lemma_text_lt_total(q.last(), x);
        assert forall|i: int| slot(q, x) <= i < q.len() implies text_lt(x, #[trigger] q[i]) by {
            if i < q.len() - 1 {
                assert(text_lt(x, r[i]));
            }
        }
        assert forall|i: int| 0 <= i < slot(q, x) implies text_lt(#[trigger] q[i], x) by {
            assert(text_lt(r[i], x));
        }
    }
}

/// Every finite set of texts has a listing: `sorted_seq` holds each member
/// once, in the listing order, and nothing else.
pub proof fn lemma_listing_exists(s: Set<Seq<char>>)
    requires
        s.finite(),
    ensures
        lists(sorted_seq(s), s),
        sorted_seq(s).no_duplicates(),
        sorted_seq(s).len() == s.len(),
    decreases s.len(),
{
    if s.len() == 0 {
        assert(s =~= Set::<Seq<char>>::empty());
        let q = Seq::<Seq<char>>::empty();
        assert(q.to_set() =~= s);
        assert(lists(q, s));
    } else {
        let x = s.choose();
        let rest = s.remove(x);
        lemma_listing_exists(rest);
        let q = sorted_seq(rest);
        assert(!q.contains(x)) by {
            if q.contains(x) {
                assert(q.to_set().contains(x));
            }
        }
        lemma_slot(q, x);
        lemma_sorted_insert(q, slot(q, x), x);
        let p = q.insert(slot(q, x), x);
        assert(rest.insert(x) =~= s);
        assert(lists(p, s));
    }
    lemma_sorted_no_duplicates(sorted_seq(s));
    sorted_seq(s).unique_seq_to_set();
}

/// Texts strung together with a separator between neighbours.
pub open spec fn join_text(items: Seq<Seq<char>>, sep: Seq<char>) -> Seq<char>
    decreases items.len(),
{
    if items.len() == 0 {
        Seq::empty()
    } else if items.len() == 1 {
        items[0]
    } else {
        join_text(items.drop_last(), sep) + sep + items.last()
    }
}

/// `Itertools::join` on the strings of a vector. It writes the first
/// string, then for each later one the separator and the string; an empty
/// vector gives the empty string. The contract believes this of it.
#[verifier::external_body]
pub(crate) fn join(items: &Vec<String>, sep: &str) -> (out: String)
    ensures
        out@ == join_text(texts(items@), sep@),
{
    items.iter().join(sep)
}

/// `std::str::from_utf8`: the text that the bytes encode, where they are
/// well-formed UTF-8, and nothing where they are not.
#[verifier::external_body]
pub(crate) fn utf8_text(bytes: &[u8]) -> (text: Option<&str>)
    ensures
        text is Some <==> valid_utf8(bytes@),
        text matches Some(s) ==> encode_utf8(s@) == bytes@,
{
    match std::str::from_utf8(bytes) {
        Ok(text) => Some(text),
        Err(_) => None,
    }
}

} // verus!
