//! Ordering the window so that its middle-ranked element can be read off.
//!
//! The median filter needs the rank `k / 2` element of each window. The
//! window is ordered by insertion sort, whose specification [`sort_seq`]
//! doubles as the definition of "the sorted window": a nondecreasing
//! rearrangement with the same multiset of samples, which every sorting
//! method agrees on.

use vstd::prelude::*;

verus! {

/// Nondecreasing order.
pub open spec fn sorted(s: Seq<i32>) -> bool {
    forall|i: int, j: int| 0 <= i < j < s.len() ==> s[i] <= s[j]
}

/// `x` placed just before the first element of `s` that is at least `x`.
pub open spec fn insert_sorted(x: i32, s: Seq<i32>) -> Seq<i32>
    decreases s.len(),
{
    if s.len() == 0 {
        seq![x]
    } else if x <= s[0] {
        seq![x] + s
    } else {
        seq![s[0]] + insert_sorted(x, s.drop_first())
    }
}

/// Insertion sort as a specification: the nondecreasing rearrangement of
/// `s`.
pub open spec fn sort_seq(s: Seq<i32>) -> Seq<i32>
    decreases s.len(),
{
    if s.len() == 0 {
        Seq::empty()
    } else {
        insert_sorted(s[0], sort_seq(s.drop_first()))
    }
}

/// Putting one sample in front adds exactly it to the sequence's
/// multiset.
proof fn lemma_to_multiset_prepend(s: Seq<i32>, x: i32)
    ensures
        (seq![x] + s).to_multiset() == s.to_multiset().insert(x),
{
    broadcast use vstd::seq_lib::group_to_multiset_ensures;
    broadcast use vstd::multiset::group_multiset_axioms;

    let t = seq![x] + s;
    assert(t.remove(0) =~= s);
    assert(t[0] == x);
    assert(t.contains(x));
    assert(t.to_multiset() =~= s.to_multiset().insert(x));
}

proof fn lemma_insert_sorted_props(x: i32, s: Seq<i32>)
    ensures
        insert_sorted(x, s).len() == s.len() + 1,
        insert_sorted(x, s).to_multiset() == s.to_multiset().insert(x),
        sorted(s) ==> sorted(insert_sorted(x, s)),
    decreases s.len(),
{
    broadcast use vstd::seq_lib::group_to_multiset_ensures;
    broadcast use vstd::multiset::group_multiset_axioms;

    if s.len() == 0 {
        assert(insert_sorted(x, s) =~= (seq![x] + s));
        lemma_to_multiset_prepend(s, x);
    } else if x <= s[0] {
        lemma_to_multiset_prepend(s, x);
    } else {
        lemma_insert_sorted_props(x, s.drop_first());
        let rest = insert_sorted(x, s.drop_first());
        lemma_to_multiset_prepend(rest, s[0]);
        lemma_to_multiset_prepend(s.drop_first(), s[0]);
        assert(s =~= (seq![s[0]] + s.drop_first()));
        assert(rest.to_multiset().insert(s[0]) =~= s.to_multiset().insert(x));
        if sorted(s) {
            assert(sorted(s.drop_first()));
            let combined = seq![s[0]] + rest;
            assert(insert_sorted(x, s) == combined);
            // The head stays the least element: everything in the tail is
            // either the freshly inserted x (above s[0] in this branch) or
            // came from the tail of the sorted s.
            assert forall|i: int, j: int|
                0 <= i < j < combined.len() implies combined[i] <= combined[j] by {
                if i == 0 {
                    if rest[j - 1] != x {
                        assert(rest.to_multiset().contains(rest[j - 1]));
                        assert(s.drop_first().to_multiset().contains(rest[j - 1]));
                        let m = choose|m: int|
                            0 <= m < s.drop_first().len() && s.drop_first()[m] == rest[j - 1];
                        assert(s[0] <= s.drop_first()[m]);
                    }
                }
            }
        }
    }
}

/// What makes [`sort_seq`] the sorted window: it is nondecreasing and
/// holds exactly the samples of its argument, multiplicity included.
pub proof fn lemma_sort_seq_props(s: Seq<i32>)
    ensures
        sort_seq(s).len() == s.len(),
        sort_seq(s).to_multiset() == s.to_multiset(),
        sorted(sort_seq(s)),
    decreases s.len(),
{
    broadcast use vstd::seq_lib::group_to_multiset_ensures;

    if s.len() > 0 {
        lemma_sort_seq_props(s.drop_first());
        lemma_insert_sorted_props(s[0], sort_seq(s.drop_first()));
        lemma_to_multiset_prepend(s.drop_first(), s[0]);
        assert(s =~= (seq![s[0]] + s.drop_first()));
    }
}

/// A sequence of equal samples is its own sorted order.
pub proof fn lemma_sort_seq_constant(s: Seq<i32>, v: i32)
    requires
        forall|i: int| 0 <= i < s.len() ==> s[i] == v,
    ensures
        sort_seq(s) == s,
    decreases s.len(),
{
    if s.len() == 0 {
        assert(sort_seq(s) =~= s);
    } else {
        assert(forall|i: int| 0 <= i < s.drop_first().len() ==> s.drop_first()[i] == v);
        lemma_sort_seq_constant(s.drop_first(), v);
        if s.len() == 1 {
            assert(sort_seq(s) =~= s);
        } else {
            assert(s.drop_first()[0] == v);
            assert(sort_seq(s) == (seq![v] + s.drop_first()));
            assert((seq![v] + s.drop_first()) =~= s);
        }
    }
}

/// Where the scan of [`insert_in_order`] stops is where [`insert_sorted`]
/// puts the new sample.
proof fn lemma_insert_sorted_at(s: Seq<i32>, x: i32, j: int)
    requires
        0 <= j <= s.len(),
        forall|m: int| 0 <= m < j ==> s[m] < x,
        j < s.len() ==> x <= s[j],
    ensures
        insert_sorted(x, s) == s.insert(j, x),
    decreases j,
{
    if j == 0 {
        assert(insert_sorted(x, s) =~= s.insert(0, x));
    } else {
        lemma_insert_sorted_at(s.drop_first(), x, j - 1);
        assert(insert_sorted(x, s) == (seq![s[0]] + s.drop_first().insert(j - 1, x)));
        assert((seq![s[0]] + s.drop_first().insert(j - 1, x)) =~= s.insert(j, x));
    }
}

/// Inserts `x` into the nondecreasing vector `v`, keeping it
/// nondecreasing: a scan finds the first element at least `x` and `x`
/// goes just before it.
fn insert_in_order(v: &mut Vec<i32>, x: i32)
    ensures
        final (v)@ == insert_sorted(x, old(v)@),
{
    let n = v.len();
    let mut j: usize = 0;
    while j < n && v[j] < x
        invariant
            j <= n,
            n == v@.len(),
            forall|m: int| 0 <= m < j ==> v@[m] < x,
        decreases n - j,
    {
        j += 1;
    }
    proof {
        lemma_insert_sorted_at(v@, x, j as int);
    }
    v.insert(j, x);
}

/// Copies the window and orders it, returning exactly [`sort_seq`] of the
/// window.
pub(crate) fn sort_window(w: &Vec<i32>) -> (out: Vec<i32>)
    ensures
        out@ == sort_seq(w@),
        out@.len() == w@.len(),
{
    proof {
        lemma_sort_seq_props(w@);
    }
    let mut out: Vec<i32> = Vec::new();
    let mut i: usize = w.len();
    while i > 0
        invariant
            i <= w@.len(),
            out@ == sort_seq(w@.subrange(i as int, w@.len() as int)),
        decreases i,
    {
        i -= 1;
        proof {
            lemma_sort_seq_props(w@.subrange(i + 1, w@.len() as int));
            assert(w@.subrange(i as int, w@.len() as int).drop_first() =~= w@.subrange(
                i + 1,
                w@.len() as int,
            ));
            assert(w@.subrange(i as int, w@.len() as int)[0] == w@[i as int]);
        }
        insert_in_order(&mut out, w[i]);
    }
    proof {
        assert(w@.subrange(0, w@.len() as int) =~= w@);
    }
    out
}

} // verus!
