//! Byte scanning helpers: first-occurrence searches for one byte or a
//! two-byte pair, slicing, comparison, and splitting on a pair, each with
//! an exact specification. The classifier is built from these.

use vstd::prelude::*;
use vstd::slice::{slice_subrange, slice_to_vec};

verus! {

/// The pair `a b` stands at position `i` of `s`.
pub open spec fn pair_at(s: Seq<u8>, a: u8, b: u8, i: int) -> bool {
    0 <= i && i + 1 < s.len() && s[i] == a && s[i + 1] == b
}

/// Position of the first occurrence of the pair `a b` in `s`, or the
/// length of `s` when the pair does not occur.
pub open spec fn find2(s: Seq<u8>, a: u8, b: u8) -> int
    decreases s.len(),
{
    if s.len() < 2 {
        s.len() as int
    } else if s[0] == a && s[1] == b {
        0
    } else {
        1 + find2(s.skip(1), a, b)
    }
}

/// What [`find2`] returns: a position within the sequence bearing the
/// pair and preceded by no occurrence of it, or the length.
pub proof fn lemma_find2(s: Seq<u8>, a: u8, b: u8)
    ensures
        0 <= find2(s, a, b) <= s.len(),
        find2(s, a, b) < s.len() ==> pair_at(s, a, b, find2(s, a, b)),
        forall|i: int| 0 <= i < find2(s, a, b) ==> !pair_at(s, a, b, i),
    decreases s.len(),
{
    if s.len() < 2 {
    } else if s[0] == a && s[1] == b {
    } else {
        let t = s.skip(1);
        lemma_find2(t, a, b);
        let f = find2(t, a, b);
        assert forall|k: int| 0 <= k < t.len() implies t[k] == s[k + 1] by {}
        if f < t.len() {
            assert(pair_at(s, a, b, 1 + f));
        }
        assert forall|i: int| 0 <= i < 1 + f implies !pair_at(s, a, b, i) by {
            if i == 0 {
            } else {
                assert(!pair_at(t, a, b, i - 1));
                if pair_at(s, a, b, i) {
                    assert(t[i - 1] == s[i]);
                    assert(t[i] == s[i + 1]);
                    assert(pair_at(t, a, b, i - 1));
                }
            }
        }
    }
}

/// Position of the first occurrence of byte `b` in `s`, or the length of
/// `s` when `b` does not occur.
pub open spec fn find1(s: Seq<u8>, b: u8) -> int
    decreases s.len(),
{
    if s.len() == 0 {
        0
    } else if s[0] == b {
        0
    } else {
        1 + find1(s.skip(1), b)
    }
}

/// What [`find1`] returns: a position within the sequence bearing the
/// byte and preceded by no occurrence of it, or the length.
pub proof fn lemma_find1(s: Seq<u8>, b: u8)
    ensures
        0 <= find1(s, b) <= s.len(),
        find1(s, b) < s.len() ==> s[find1(s, b)] == b,
        forall|i: int| 0 <= i < find1(s, b) && i < s.len() ==> s[i] != b,
    decreases s.len(),
{
    if s.len() == 0 {
    } else if s[0] == b {
    } else {
        let t = s.skip(1);
        lemma_find1(t, b);
        assert forall|k: int| 0 <= k < t.len() implies t[k] == s[k + 1] by {}
        let f = find1(t, b);
        assert forall|i: int| 0 <= i < 1 + f && i < s.len() implies s[i] != b by {
            if i > 0 {
                assert(t[i - 1] == s[i]);
            }
        }
    }
}

/// Finds the first occurrence of the pair `a b` at or after `from`,
/// returning its absolute position, or the length of `s` when the pair
/// does not occur there.
pub fn find2_from(s: &Vec<u8>, from: usize, a: u8, b: u8) -> (r: usize)
    requires
        from <= s@.len(),
    ensures
        from <= r <= s@.len(),
        r - from == find2(s@.skip(from as int), a, b),
{
    let ghost t = s@.skip(from as int);
    proof {
        lemma_find2(t, a, b);
        assert forall|k: int| 0 <= k < t.len() implies t[k] == s@[from + k] by {}
    }
    let n = s.len();
    if n == 0 {
        return s.len();
    }
    let mut i = from;
    while i < n - 1
        invariant
            from <= i,
            i <= s@.len(),
            n == s@.len(),
            1 <= n,
            t == s@.skip(from as int),
            t.len() == s@.len() - from,
            forall|k: int| 0 <= k < t.len() ==> t[k] == s@[from + k],
            forall|k: int| 0 <= k < i - from ==> !pair_at(t, a, b, k),
        decreases s@.len() - i,
    {
        if s[i] == a && s[i + 1] == b {
            proof {
                lemma_find2(t, a, b);
                assert(pair_at(t, a, b, i - from));
                let f = find2(t, a, b);
                if f < i - from {
                    assert(!pair_at(t, a, b, f));
                }
                if f > i - from {
                    assert(!pair_at(t, a, b, i - from));
                }
            }
            return i;
        }
        i = i + 1;
    }
    proof {
        lemma_find2(t, a, b);
        let f = find2(t, a, b);
        if f < t.len() {
            assert(pair_at(t, a, b, f));
            assert(f < i - from || !pair_at(t, a, b, f));
        }
    }
    s.len()
}

/// Finds the first occurrence of byte `b` at or after `from`, returning
/// its absolute position, or the length of `s` when `b` does not occur
/// there.
pub fn find1_from(s: &Vec<u8>, from: usize, b: u8) -> (r: usize)
    requires
        from <= s@.len(),
    ensures
        from <= r <= s@.len(),
        r - from == find1(s@.skip(from as int), b),
{
    let ghost t = s@.skip(from as int);
    proof {
        lemma_find1(t, b);
        assert forall|k: int| 0 <= k < t.len() implies t[k] == s@[from + k] by {}
    }
    let mut i = from;
    while i < s.len()
        invariant
            from <= i,
            i <= s@.len(),
            t == s@.skip(from as int),
            t.len() == s@.len() - from,
            forall|k: int| 0 <= k < t.len() ==> t[k] == s@[from + k],
            forall|k: int| 0 <= k < i - from ==> t[k] != b,
        decreases s@.len() - i,
    {
        if s[i] == b {
            proof {
                lemma_find1(t, b);
                let f = find1(t, b);
                assert(t[i - from] == b);
                if f < i - from {
                    assert(t[f] != b);
                }
            }
            return i;
        }
        i = i + 1;
    }
    proof {
        lemma_find1(t, b);
        let f = find1(t, b);
        if f < t.len() {
            assert(t[f] != b);
        }
    }
    s.len()
}

/// Copies the bytes of `s` from `a` (inclusive) to `b` (exclusive).
pub fn subvec(s: &Vec<u8>, a: usize, b: usize) -> (v: Vec<u8>)
    requires
        a <= b && b <= s@.len(),
    ensures
        v@ == s@.subrange(a as int, b as int),
{
    slice_to_vec(slice_subrange(s.as_slice(), a, b))
}

/// Whether two byte vectors hold the same bytes.
pub fn bytes_eq(x: &Vec<u8>, y: &Vec<u8>) -> (r: bool)
    ensures
        r == (x@ == y@),
{
    if x.len() != y.len() {
        return false;
    }
    let mut i: usize = 0;
    while i < x.len()
        invariant
            i <= x@.len(),
            x@.len() == y@.len(),
            forall|j: int| 0 <= j < i ==> x@[j] == y@[j],
        decreases x@.len() - i,
    {
        if x[i] != y[i] {
            return false;
        }
        i = i + 1;
    }
    proof {
        assert(x@ =~= y@);
    }
    true
}

/// The views of the elements of a sequence of byte vectors.
pub open spec fn views_of(l: Seq<Vec<u8>>) -> Seq<Seq<u8>> {
    Seq::new(l.len(), |i: int| l[i]@)
}

/// The pieces of `s` between the occurrences of the pair `a b`, in
/// order; the pair itself is dropped. A sequence without the pair is one
/// piece, so the result is never empty, and a sequence ending with the
/// pair ends with an empty piece.
pub open spec fn split2(s: Seq<u8>, a: u8, b: u8) -> Seq<Seq<u8>>
    decreases s.len(),
{
    let i = find2(s, a, b);
    if 0 <= i && i + 2 <= s.len() {
        seq![s.take(i)] + split2(s.skip(i + 2), a, b)
    } else {
        seq![s]
    }
}

/// Splits `s` on every occurrence of the pair `a b`.
pub fn split2_exec(s: &Vec<u8>, a: u8, b: u8) -> (lines: Vec<Vec<u8>>)
    ensures
        views_of(lines@) == split2(s@, a, b),
        lines@.len() >= 1,
{
    let mut lines: Vec<Vec<u8>> = Vec::new();
    let mut start: usize = 0;
    proof {
        assert(s@.skip(0) =~= s@);
        assert(views_of(lines@) + split2(s@, a, b) =~= split2(s@, a, b));
    }
    loop
        invariant
            start <= s@.len(),
            split2(s@, a, b) == views_of(lines@) + split2(s@.skip(start as int), a, b),
        decreases s@.len() - start,
    {
        let ghost t = s@.skip(start as int);
        let ghost done = views_of(lines@);
        let r = find2_from(s, start, a, b);
        proof {
            lemma_find2(t, a, b);
        }
        if s.len() >= 2 && r <= s.len() - 2 {
            let line = subvec(s, start, r);
            lines.push(line);
            proof {
                let f = r - start;
                assert(split2(t, a, b) == seq![t.take(f)] + split2(t.skip(f + 2), a, b));
                assert(t.take(f) =~= line@);
                assert(t.skip(f + 2) =~= s@.skip(r + 2));
                assert(views_of(lines@) =~= done + seq![line@]);
                assert(views_of(lines@) + split2(s@.skip(r + 2), a, b) =~= split2(s@, a, b));
            }
            start = r + 2;
        } else {
            let line = subvec(s, start, s.len());
            lines.push(line);
            proof {
                let f = r - start;
                assert(f + 2 > t.len());
                assert(split2(t, a, b) == seq![t]);
                assert(t =~= line@);
                assert(views_of(lines@) =~= done + seq![line@]);
                assert(views_of(lines@) =~= split2(s@, a, b));
            }
            return lines;
        }
    }
}

} // verus!
