//! Counting the elements of a sequence that satisfy a predicate.

use vstd::prelude::*;

verus! {

/// How many elements of `s` satisfy `p`.
pub open spec fn tally<T>(s: Seq<T>, p: spec_fn(T) -> bool) -> nat
    decreases s.len(),
{
    if s.len() == 0 {
        0
    } else {
        tally(s.drop_last(), p) + if p(s.last()) {
            1nat
        } else {
            0nat
        }
    }
}

/// One more element of the prefix adds at most one to the count.
pub proof fn lemma_tally_step<T>(s: Seq<T>, p: spec_fn(T) -> bool, i: int)
    requires
        0 <= i < s.len(),
    ensures
        tally(s.take(i + 1), p) == tally(s.take(i), p) + if p(s[i]) {
            1nat
        } else {
            0nat
        },
{
    assert(s.take(i + 1).drop_last() =~= s.take(i));
}

/// A count never exceeds the length.
pub proof fn lemma_tally_bound<T>(s: Seq<T>, p: spec_fn(T) -> bool)
    ensures
        tally(s, p) <= s.len(),
    decreases s.len(),
{
    if s.len() > 0 {
        lemma_tally_bound(s.drop_last(), p);
    }
}

/// A count is positive exactly when some element satisfies the predicate.
pub proof fn lemma_tally_positive<T>(s: Seq<T>, p: spec_fn(T) -> bool)
    ensures
        tally(s, p) > 0 <==> exists|i: int| 0 <= i < s.len() && p(#[trigger] s[i]),
    decreases s.len(),
{
    if s.len() > 0 {
        let front = s.drop_last();
        lemma_tally_positive(front, p);
        if p(s.last()) {
            assert(p(s[s.len() - 1]));
        } else if exists|i: int| 0 <= i < s.len() && p(#[trigger] s[i]) {
            let i = choose|i: int| 0 <= i < s.len() && p(#[trigger] s[i]);
            assert(front[i] == s[i]);
        }
        if tally(front, p) > 0 {
            let i = choose|i: int| 0 <= i < front.len() && p(#[trigger] front[i]);
            assert(s[i] == front[i]);
        }
    }
}

/// An element taken out leaves the count of the others.
pub proof fn lemma_tally_remove<T>(s: Seq<T>, p: spec_fn(T) -> bool, i: int)
    requires
        0 <= i < s.len(),
    ensures
        tally(s, p) == tally(s.remove(i), p) + if p(s[i]) {
            1nat
        } else {
            0nat
        },
    decreases s.len(),
{
    if i == s.len() - 1 {
        assert(s.remove(i) =~= s.drop_last());
    } else {
        lemma_tally_remove(s.drop_last(), p, i);
        assert(s.remove(i).drop_last() =~= s.drop_last().remove(i));
        assert(s.remove(i).last() == s.last());
    }
}

/// A count does not depend on the order.
pub proof fn lemma_tally_order<T>(a: Seq<T>, b: Seq<T>, p: spec_fn(T) -> bool)
    requires
        a.to_multiset() == b.to_multiset(),
    ensures
        tally(a, p) == tally(b, p),
    decreases a.len(),
{
    broadcast use vstd::seq_lib::group_to_multiset_ensures;

    assert(a.len() == a.to_multiset().len());
    assert(b.len() == b.to_multiset().len());
    if a.len() > 0 {
        let x = a.last();
        assert(a.contains(a[a.len() - 1]));
        assert(b.to_multiset().count(x) > 0);
        let j = b.index_of(x);
        assert(b.contains(x));
        assert(a.drop_last() =~= a.remove(a.len() - 1));
        lemma_tally_order(a.drop_last(), b.remove(j), p);
        lemma_tally_remove(b, p, j);
    }
}

/// Copies a slice.
pub fn copy_all<T: Copy>(v: &[T]) -> (copy: Vec<T>)
    ensures
        copy@ == v@,
{
    let mut out: Vec<T> = Vec::new();
    for i in 0..v.len()
        invariant
            out@ =~= v@.take(i as int),
    {
        out.push(v[i]);
    }
    assert(out@ =~= v@);
    out
}

/// Counts the elements of `v` that satisfy `f`.
pub fn count_where<T: Copy, F: Fn(T) -> bool>(v: &[T], f: F, Ghost(p): Ghost<spec_fn(T) -> bool>) -> (n:
    usize)
    requires
        forall|x: T| #[trigger] f.requires((x,)),
        forall|x: T, b: bool| #[trigger] f.ensures((x,), b) ==> b == p(x),
    ensures
        n == tally(v@, p),
        n <= v@.len(),
{
    let mut n: usize = 0;
    for i in 0..v.len()
        invariant
            n == tally(v@.take(i as int), p),
            n <= i,
            forall|x: T| #[trigger] f.requires((x,)),
            forall|x: T, b: bool| #[trigger] f.ensures((x,), b) ==> b == p(x),
    {
        proof {
            lemma_tally_step(v@, p, i as int);
        }
        if f(v[i]) {
            n = n + 1;
        }
    }
    assert(v@.take(v@.len() as int) =~= v@);
    n
}

} // verus!
