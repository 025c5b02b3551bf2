//! Text primitives shared by the parsers and the layout engine.
//!
//! Every string is modelled by its view, the sequence of its characters.
//! Widths and positions count characters, never bytes.

use vstd::prelude::*;
use vstd::string::*;
use vstd::utf8::{decode_utf8, valid_utf8};

verus! {

/// The views of a sequence of owned strings.
pub open spec fn texts(v: Seq<String>) -> Seq<Seq<char>> {
    v.map_values(|s: String| s@)
}

/// The characters of a string slice, in order.
pub fn chars_of(s: &str) -> (v: Vec<char>)
    ensures
        v@ == s@,
{
    let mut v: Vec<char> = Vec::new();
    for c in it: s.chars()
        invariant
            v@ == it.seq().take(it.index() as int),
            it.seq() == s@,
    {
        v.push(c);
    }
    v
}

/// Position of the first `x` in `s`, or `s.len()` when `s` holds none.
pub open spec fn index_of<T>(s: Seq<T>, x: T) -> int
    decreases s.len(),
{
    if s.len() == 0 || s[0] == x {
        0
    } else {
        1 + index_of(s.skip(1), x)
    }
}

/// `index_of` is in range, points at `x` when in range, and nothing before it is `x`.
pub proof fn lemma_index_of<T>(s: Seq<T>, x: T)
    ensures
        0 <= index_of(s, x) <= s.len(),
        forall|j: int| 0 <= j < index_of(s, x) ==> s[j] != x,
        index_of(s, x) < s.len() ==> s[index_of(s, x)] == x,
    decreases s.len(),
{
    if s.len() > 0 && s[0] != x {
        let t = s.skip(1);
        lemma_index_of(t, x);
        assert forall|j: int| 0 <= j < index_of(s, x) implies s[j] != x by {
            if j > 0 {
                assert(s[j] == t[j - 1]);
            }
        }
    }
}

/// Any position that satisfies the description of `index_of` is `index_of`.
pub proof fn lemma_index_of_unique<T>(s: Seq<T>, x: T, k: int)
    requires
        0 <= k <= s.len(),
        forall|j: int| 0 <= j < k ==> s[j] != x,
        k < s.len() ==> s[k] == x,
    ensures
        index_of(s, x) == k,
{
    lemma_index_of(s, x);
}

/// Appending an element leaves the first position of everything that was
/// there, and gives the new element the last position if it is new.
pub proof fn lemma_index_of_push<T>(s: Seq<T>, y: T, x: T)
    ensures
        index_of(s, x) < s.len() ==> index_of(s.push(y), x) == index_of(s, x),
        index_of(s, x) >= s.len() && y == x ==> index_of(s.push(y), x) == s.len(),
        index_of(s, x) >= s.len() && y != x ==> index_of(s.push(y), x) == s.len() + 1,
{
    lemma_index_of(s, x);
    let t = s.push(y);
    if index_of(s, x) < s.len() {
        lemma_index_of_unique(t, x, index_of(s, x));
    } else if y == x {
        lemma_index_of_unique(t, x, s.len() as int);
    } else {
        lemma_index_of_unique(t, x, (s.len() + 1) as int);
    }
}

/// Whether `c` occurs in `s`.
pub open spec fn has_char(s: Seq<char>, c: char) -> bool {
    index_of(s, c) < s.len()
}

/// The part of `s` before its first `sep`; all of `s` when it holds none.
pub open spec fn first_field(s: Seq<char>, sep: char) -> Seq<char> {
    s.take(index_of(s, sep))
}

/// The pieces of `s` between occurrences of `sep`. There is always at least
/// one piece; adjacent separators give an empty piece.
pub open spec fn split_on(s: Seq<char>, sep: char) -> Seq<Seq<char>>
    decreases s.len(),
{
    let i = index_of(s, sep);
    if 0 <= i < s.len() {
        seq![s.take(i)] + split_on(s.skip(i + 1), sep)
    } else {
        seq![s]
    }
}

/// No piece of a split holds the separator, and the first piece is `first_field`.
pub proof fn lemma_split_on(s: Seq<char>, sep: char)
    ensures
        split_on(s, sep).len() >= 1,
        split_on(s, sep)[0] == first_field(s, sep),
        forall|k: int| 0 <= k < split_on(s, sep).len() ==> !has_char(#[trigger] split_on(s, sep)[k], sep),
    decreases s.len(),
{
    lemma_index_of(s, sep);
    let i = index_of(s, sep);
    if 0 <= i < s.len() {
        let head = s.take(i);
        lemma_split_on(s.skip(i + 1), sep);
        lemma_index_of_unique(head, sep, head.len() as int);
        assert forall|k: int| 0 <= k < split_on(s, sep).len() implies !has_char(
            #[trigger] split_on(s, sep)[k],
            sep,
        ) by {}
    }
}

/// Position of the first `c` at or after `from`, or the length when there is none.
pub fn find_char(chars: &Vec<char>, c: char, from: usize) -> (at: usize)
    requires
        from <= chars@.len(),
    ensures
        from <= at <= chars@.len(),
        at == from + index_of(chars@.skip(from as int), c),
{
    let n: usize = chars.len();
    let mut at: usize = from;
    while at < n && chars[at] != c
        invariant
            from <= at <= n,
            n == chars@.len(),
            forall|j: int| from <= j < at ==> chars@[j] != c,
        decreases n - at,
    {
        at += 1;
    }
    proof {
        lemma_index_of_unique(chars@.skip(from as int), c, at - from);
    }
    at
}

/// An owned copy of the characters `from..to` of `s`.
pub fn slice_of(s: &str, from: usize, to: usize) -> (r: String)
    requires
        from <= to <= s@.len(),
    ensures
        r@ == s@.subrange(from as int, to as int),
{
    String::from_str(s.substring_char(from, to))
}

/// Splits `s` at every `sep`.
pub fn split(s: &str, sep: char) -> (parts: Vec<String>)
    ensures
        texts(parts@) == split_on(s@, sep),
{
    let chars = chars_of(s);
    let n: usize = chars.len();
    let mut parts: Vec<String> = Vec::new();
    let mut start: usize = 0;
    let mut end: usize = find_char(&chars, sep, 0);
    proof {
        assert(s@.skip(0) == s@);
    }
    while end < n
        invariant
            chars@ == s@,
            n == chars@.len(),
            start <= end <= n,
            end == start + index_of(s@.skip(start as int), sep),
            split_on(s@, sep) == texts(parts@) + split_on(s@.skip(start as int), sep),
        decreases n - start,
    {
        let piece = slice_of(s, start, end);
        proof {
            let rest = s@.skip(start as int);
            let i = index_of(rest, sep);
            assert(rest.take(i) == s@.subrange(start as int, end as int));
            assert(rest.skip(i + 1) == s@.skip(end + 1));
        }
        parts.push(piece);
        start = end + 1;
        end = find_char(&chars, sep, start);
    }
    let piece = slice_of(s, start, n);
    parts.push(piece);
    parts
}

/// Calls `std::str::from_utf8`.
///
/// Trusted: there is a text exactly when the bytes are valid UTF-8, and it
/// is the text that they encode.
#[verifier::external_body]
pub(crate) fn utf8_text(bytes: &[u8]) -> (r: Option<&str>)
    ensures
        match r {
            Some(s) => valid_utf8(bytes@) && s@ == decode_utf8(bytes@),
            None => !valid_utf8(bytes@),
        },
{
    std::str::from_utf8(bytes).ok()
}

/// Whether `s` begins with `prefix`.
pub open spec fn starts_with(s: Seq<char>, prefix: Seq<char>) -> bool {
    prefix.len() <= s.len() && s.take(prefix.len() as int) == prefix
}

/// Whether `s` ends with `suffix`.
pub open spec fn ends_with(s: Seq<char>, suffix: Seq<char>) -> bool {
    suffix.len() <= s.len() && s.skip(s.len() - suffix.len()) == suffix
}

/// Whether `chars` has `part` at position `at`.
pub fn has_at(chars: &Vec<char>, part: &Vec<char>, at: usize) -> (r: bool)
    ensures
        r == (at + part@.len() <= chars@.len() && chars@.subrange(
            at as int,
            at + part@.len(),
        ) == part@),
{
    let n: usize = chars.len();
    let m: usize = part.len();
    if at > n || m > n - at {
        return false;
    }
    let mut i: usize = 0;
    while i < m
        invariant
            i <= m,
            m == part@.len(),
            n == chars@.len(),
            at + m <= n,
            forall|j: int| 0 <= j < i ==> chars@[at + j] == part@[j],
        decreases m - i,
    {
        if chars[at + i] != part[i] {
            return false;
        }
        i += 1;
    }
    proof {
        assert(chars@.subrange(at as int, at + m) =~= part@);
    }
    true
}

/// Whether `s` begins with `prefix`.
pub fn begins_with(s: &str, prefix: &str) -> (r: bool)
    ensures
        r == starts_with(s@, prefix@),
{
    let chars = chars_of(s);
    let part = chars_of(prefix);
    has_at(&chars, &part, 0)
}

/// The lines of `lines`, each followed by `sep` except the last.
pub open spec fn joined(lines: Seq<Seq<char>>, sep: Seq<char>) -> Seq<char>
    decreases lines.len(),
{
    if lines.len() == 0 {
        Seq::empty()
    } else if lines.len() == 1 {
        lines[0]
    } else {
        joined(lines.drop_last(), sep) + sep + lines.last()
    }
}

/// Joins `lines` with `sep` between them.
pub fn join(lines: &Vec<String>, sep: &str) -> (r: String)
    ensures
        r@ == joined(texts(lines@), sep@),
{
    let n: usize = lines.len();
    let ghost all = texts(lines@);
    let mut r = String::new();
    let mut k: usize = 0;
    while k < n
        invariant
            k <= n,
            n == lines@.len(),
            all == texts(lines@),
            r@ == joined(all.take(k as int), sep@),
        decreases n - k,
    {
        proof {
            assert(all.take(k + 1).drop_last() =~= all.take(k as int));
        }
        if k > 0 {
            r.append(sep);
        }
        r.append(lines[k].as_str());
        k += 1;
    }
    proof {
        assert(all.take(n as int) =~= all);
    }
    r
}

/// Whether two string slices spell the same text.
pub fn same_text(a: &str, b: &str) -> (r: bool)
    ensures
        r == (a@ == b@),
{
    let left = chars_of(a);
    let right = chars_of(b);
    if left.len() != right.len() {
        return false;
    }
    proof {
        assert(left@.subrange(0, right@.len() as int) =~= left@);
    }
    has_at(&left, &right, 0)
}

/// The text of a string slice that may be missing.
pub open spec fn text_of(s: Option<&str>) -> Option<Seq<char>> {
    match s {
        Some(s) => Some(s@),
        None => None,
    }
}

} // verus!
