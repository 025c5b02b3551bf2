//! Order: texts by their characters, and the stable sort by insertion that
//! the layout uses for sessions and for windows.

use vstd::prelude::*;
use vstd::std_specs::iter::IteratorSpec;
use vstd::string::*;

verus! {

/// Whether `a` comes before `b` or equals it, character by character; a
/// proper prefix comes first. Characters compare by code point, which is the
/// order of the encoded bytes.
pub open spec fn text_le(a: Seq<char>, b: Seq<char>) -> bool
    decreases a.len(),
{
    if a.len() == 0 {
        true
    } else if b.len() == 0 {
        false
    } else if a[0] != b[0] {
        (a[0] as int) < (b[0] as int)
    } else {
        text_le(a.skip(1), b.skip(1))
    }
}

/// Of two texts one comes first.
pub proof fn lemma_text_le_total(a: Seq<char>, b: Seq<char>)
    ensures
        text_le(a, b) || text_le(b, a),
    decreases a.len(),
{
    if a.len() > 0 && b.len() > 0 {
        if a[0] == b[0] {
            lemma_text_le_total(a.skip(1), b.skip(1));
        }
    }
}

/// Texts that come before each other are the same text.
pub proof fn lemma_text_le_antisymmetric(a: Seq<char>, b: Seq<char>)
    requires
        text_le(a, b),
        text_le(b, a),
    ensures
        a == b,
    decreases a.len(),
{
    if a.len() > 0 && b.len() > 0 {
        lemma_text_le_antisymmetric(a.skip(1), b.skip(1));
        assert(b =~= seq![b[0]] + b.skip(1));
    }
}

/// What comes before something that comes before a third comes before the third.
pub proof fn lemma_text_le_transitive(a: Seq<char>, b: Seq<char>, c: Seq<char>)
    requires
        text_le(a, b),
        text_le(b, c),
    ensures
        text_le(a, c),
    decreases a.len(),
{
    if a.len() > 0 && b.len() > 0 && c.len() > 0 && a[0] == b[0] && b[0] == c[0] {
        lemma_text_le_transitive(a.skip(1), b.skip(1), c.skip(1));
    }
}

/// Whether `a` comes before `b` or equals it.
pub fn text_before(a: &str, b: &str) -> (r: bool)
    ensures
        r == text_le(a@, b@),
{
    let mut rest_a = a.chars();
    let mut rest_b = b.chars();
    let ghost mut at: int = 0;
    loop
        invariant
            0 <= at <= a@.len(),
            at <= b@.len(),
            rest_a.remaining() == a@.skip(at),
            rest_b.remaining() == b@.skip(at),
            text_le(a@, b@) == text_le(a@.skip(at), b@.skip(at)),
        decreases a@.len() - at,
    {
        let ghost tail_a = a@.skip(at);
        let ghost tail_b = b@.skip(at);
        let next_a = rest_a.next();
        let next_b = rest_b.next();
        match (next_a, next_b) {
            (None, _) => {
                return true;
            },
            (Some(_), None) => {
                return false;
            },
            (Some(x), Some(y)) => {
                if x != y {
                    return x < y;
                }
                proof {
                    assert(tail_a.skip(1) == a@.skip(at + 1));
                    assert(tail_b.skip(1) == b@.skip(at + 1));
                    at = at + 1;
                }
            },
        }
    }
}

/// Whether an order relates any two values one way or the other.
pub open spec fn total<T>(le: spec_fn(T, T) -> bool) -> bool {
    forall|a: T, b: T| #[trigger] le(a, b) || #[trigger] le(b, a)
}

/// Whether an order passes through a value in the middle.
pub open spec fn transitive<T>(le: spec_fn(T, T) -> bool) -> bool {
    forall|a: T, b: T, c: T| #[trigger] le(a, b) && #[trigger] le(b, c) ==> le(a, c)
}

/// Whether each element comes before all later ones.
pub open spec fn ascending<T>(s: Seq<T>, le: spec_fn(T, T) -> bool) -> bool {
    forall|i: int, j: int| 0 <= i < j < s.len() ==> le(#[trigger] s[i], #[trigger] s[j])
}

/// Where `x` goes into the sorted sequence `s`: behind the last element that
/// comes before it or ties with it.
pub open spec fn slot<T>(s: Seq<T>, x: T, le: spec_fn(T, T) -> bool) -> int
    decreases s.len(),
{
    if s.len() == 0 {
        0
    } else if le(s.last(), x) {
        s.len() as int
    } else {
        slot(s.drop_last(), x, le)
    }
}

/// The elements of `s` in ascending order; elements that tie keep the order
/// they have in `s`.
pub open spec fn sorted_by<T>(s: Seq<T>, le: spec_fn(T, T) -> bool) -> Seq<T>
    decreases s.len(),
{
    if s.len() == 0 {
        Seq::empty()
    } else {
        let rest = sorted_by(s.drop_last(), le);
        rest.insert(slot(rest, s.last(), le), s.last())
    }
}

/// The slot is a position of the sequence; everything before it comes before
/// `x` or ties with it, nothing from it on does.
pub proof fn lemma_slot<T>(s: Seq<T>, x: T, le: spec_fn(T, T) -> bool)
    requires
        ascending(s, le),
        transitive(le),
    ensures
        0 <= slot(s, x, le) <= s.len(),
        forall|i: int| 0 <= i < slot(s, x, le) ==> le(#[trigger] s[i], x),
        forall|i: int| slot(s, x, le) <= i < s.len() ==> !le(#[trigger] s[i], x),
    decreases s.len(),
{
    if s.len() > 0 {
        if le(s.last(), x) {
            assert forall|i: int| 0 <= i < s.len() implies le(#[trigger] s[i], x) by {}
        } else {
            let t = s.drop_last();
            assert forall|i: int, j: int| 0 <= i < j < t.len() implies le(
                #[trigger] t[i],
                #[trigger] t[j],
            ) by {}
            lemma_slot(t, x, le);
            assert forall|i: int| 0 <= i < slot(s, x, le) implies le(#[trigger] s[i], x) by {
                assert(s[i] == t[i]);
            }
            assert forall|i: int| slot(s, x, le) <= i < s.len() implies !le(#[trigger] s[i], x) by {
                if i < t.len() {
                    assert(s[i] == t[i]);
                }
            }
        }
    }
}

/// Sorting keeps every element, as often as it occurs, and puts the elements
/// in ascending order.
pub proof fn lemma_sorted_by<T>(s: Seq<T>, le: spec_fn(T, T) -> bool)
    requires
        total(le),
        transitive(le),
    ensures
        sorted_by(s, le).len() == s.len(),
        sorted_by(s, le).to_multiset() == s.to_multiset(),
        ascending(sorted_by(s, le), le),
    decreases s.len(),
{
    broadcast use vstd::seq_lib::group_to_multiset_ensures;

    if s.len() > 0 {
        let x = s.last();
        let rest = sorted_by(s.drop_last(), le);
        lemma_sorted_by(s.drop_last(), le);
        lemma_slot(rest, x, le);
        let at = slot(rest, x, le);
        let out = rest.insert(at, x);
        assert(s =~= s.drop_last().push(x));
        assert(out.to_multiset() == rest.to_multiset().insert(x)) by {
            vstd::seq_lib::to_multiset_insert(rest, at, x);
        }
        assert forall|i: int, j: int| 0 <= i < j < out.len() implies le(
            #[trigger] out[i],
            #[trigger] out[j],
        ) by {}
    }
}


/// Whether elements of `s` that tie are the same element.
pub open spec fn ties_are_equal<T>(s: Seq<T>, le: spec_fn(T, T) -> bool) -> bool {
    forall|i: int, j: int|
        0 <= i < s.len() && 0 <= j < s.len() && le(#[trigger] s[i], #[trigger] s[j]) && le(s[j], s[i])
            ==> s[i] == s[j]
}

/// Two ascending sequences of the same elements are the same sequence,
/// where elements that tie are equal.
pub proof fn lemma_ascending_unique<T>(a: Seq<T>, b: Seq<T>, le: spec_fn(T, T) -> bool)
    requires
        ascending(a, le),
        ascending(b, le),
        total(le),
        ties_are_equal(a, le),
        a.to_multiset() == b.to_multiset(),
    ensures
        a == b,
    decreases a.len(),
{
    broadcast use vstd::seq_lib::group_to_multiset_ensures;

    assert(b.len() == b.to_multiset().len());
    if a.len() > 0 {
        let x = a.last();
        let y = b.last();
        let n = a.len() as int;
        assert(b.to_multiset().count(x) > 0);
        assert(a.to_multiset().count(y) > 0);
        assert(le(x, y));
        assert(le(y, x));
        let a1 = a.drop_last();
        let b1 = b.drop_last();
        assert(a1 =~= a.remove(n - 1));
        assert(b1 =~= b.remove(n - 1));
        assert forall|p: int, q: int| 0 <= p < q < a1.len() implies le(
            #[trigger] a1[p],
            #[trigger] a1[q],
        ) by {}
        assert forall|p: int, q: int| 0 <= p < q < b1.len() implies le(
            #[trigger] b1[p],
            #[trigger] b1[q],
        ) by {}
        assert forall|p: int, q: int|
            0 <= p < a1.len() && 0 <= q < a1.len() && le(#[trigger] a1[p], #[trigger] a1[q]) && le(
                a1[q],
                a1[p],
            ) implies a1[p] == a1[q] by {}
        lemma_ascending_unique(a1, b1, le);
        assert(b =~= b1.push(y));
    }
}

} // verus!
