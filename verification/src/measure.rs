//! Sums and maxima over sequences of natural numbers, and the widths of texts.

use vstd::prelude::*;
use vstd::string::*;

verus! {

/// The larger of two numbers.
pub open spec fn larger(a: nat, b: nat) -> nat {
    if a >= b {
        a
    } else {
        b
    }
}

/// The sum of all elements.
pub open spec fn sum(s: Seq<nat>) -> nat
    decreases s.len(),
{
    if s.len() == 0 {
        0
    } else {
        sum(s.drop_last()) + s.last()
    }
}

/// The largest element; 0 for the empty sequence.
pub open spec fn max_of(s: Seq<nat>) -> nat
    decreases s.len(),
{
    if s.len() == 0 {
        0
    } else {
        larger(max_of(s.drop_last()), s.last())
    }
}

/// The lengths of a sequence of texts.
pub open spec fn lengths(names: Seq<Seq<char>>) -> Seq<nat> {
    names.map_values(|n: Seq<char>| n.len())
}

/// The length of the longest text; 0 when there is none.
pub open spec fn widest(names: Seq<Seq<char>>) -> nat {
    max_of(lengths(names))
}

/// Appending an element adds it to the sum.
pub proof fn lemma_sum_push(s: Seq<nat>, x: nat)
    ensures
        sum(s.push(x)) == sum(s) + x,
{
    assert(s.push(x).drop_last() == s);
}

/// Replacing an element changes the sum by the difference.
pub proof fn lemma_sum_update(s: Seq<nat>, i: int, y: nat)
    requires
        0 <= i < s.len(),
    ensures
        sum(s.update(i, y)) + s[i] == sum(s) + y,
    decreases s.len(),
{
    let u = s.update(i, y);
    if i == s.len() - 1 {
        assert(u.drop_last() == s.drop_last());
    } else {
        lemma_sum_update(s.drop_last(), i, y);
        assert(u.drop_last() == s.drop_last().update(i, y));
    }
}

/// Inserting an element adds it to the sum.
pub proof fn lemma_sum_insert(s: Seq<nat>, i: int, y: nat)
    requires
        0 <= i <= s.len(),
    ensures
        sum(s.insert(i, y)) == sum(s) + y,
    decreases s.len(),
{
    let u = s.insert(i, y);
    if i == s.len() {
        assert(u.drop_last() =~= s);
    } else {
        lemma_sum_insert(s.drop_last(), i, y);
        assert(u.drop_last() =~= s.drop_last().insert(i, y));
    }
}

/// Appending an element raises the maximum to it, if it is larger.
pub proof fn lemma_max_push(s: Seq<nat>, x: nat)
    ensures
        max_of(s.push(x)) == larger(max_of(s), x),
{
    assert(s.push(x).drop_last() == s);
}

/// Raising an element raises the maximum to it, if it is larger.
pub proof fn lemma_max_update(s: Seq<nat>, i: int, y: nat)
    requires
        0 <= i < s.len(),
        s[i] <= y,
    ensures
        max_of(s.update(i, y)) == larger(max_of(s), y),
    decreases s.len(),
{
    let u = s.update(i, y);
    if i == s.len() - 1 {
        assert(u.drop_last() == s.drop_last());
    } else {
        lemma_max_update(s.drop_last(), i, y);
        assert(u.drop_last() == s.drop_last().update(i, y));
    }
}

/// `max_of` is an upper bound that some element reaches.
pub proof fn lemma_max_of(s: Seq<nat>)
    ensures
        forall|i: int| 0 <= i < s.len() ==> s[i] <= max_of(s),
        s.len() > 0 ==> exists|i: int| 0 <= i < s.len() && s[i] == max_of(s),
        s.len() == 0 ==> max_of(s) == 0,
    decreases s.len(),
{
    if s.len() > 0 {
        let t = s.drop_last();
        lemma_max_of(t);
        assert forall|i: int| 0 <= i < s.len() implies s[i] <= max_of(s) by {
            if i < t.len() {
                assert(s[i] == t[i]);
            }
        }
        if max_of(s) == s.last() {
            assert(s[s.len() - 1] == max_of(s));
        } else {
            let i = choose|i: int| 0 <= i < t.len() && t[i] == max_of(t);
            assert(s[i] == max_of(s));
        }
    }
}

/// `widest` is the length of a longest text: no text is longer, and one is
/// that long unless there is none.
pub proof fn lemma_widest(names: Seq<Seq<char>>)
    ensures
        forall|i: int| 0 <= i < names.len() ==> names[i].len() <= widest(names),
        names.len() > 0 ==> exists|i: int| 0 <= i < names.len() && names[i].len() == widest(names),
        names.len() == 0 ==> widest(names) == 0,
{
    let l = lengths(names);
    lemma_max_of(l);
    assert forall|i: int| 0 <= i < names.len() implies names[i].len() <= widest(names) by {
        assert(l[i] == names[i].len());
    }
    if names.len() > 0 {
        let i = choose|i: int| 0 <= i < l.len() && l[i] == max_of(l);
        assert(names[i].len() == widest(names));
    }
}

/// Appending a text raises `widest` to its length, if it is longer.
pub proof fn lemma_widest_push(names: Seq<Seq<char>>, name: Seq<char>)
    ensures
        widest(names.push(name)) == larger(widest(names), name.len()),
{
    assert(lengths(names.push(name)) == lengths(names).push(name.len()));
    lemma_max_push(lengths(names), name.len());
}

/// The number of characters of `s`.
pub fn width_of(s: &str) -> (w: usize)
    ensures
        w == s@.len(),
{
    s.unicode_len()
}

} // verus!
