//! Subsequence reasoning for result sets: filtering a candidate
//! enumeration must preserve its relative order and introduce no new
//! elements.

use vstd::prelude::*;

verus! {

/// Whether `a` is a subsequence of `b`: `a` can be obtained from `b` by
/// deleting elements, keeping the relative order of the rest.
pub open spec fn is_subseq<T>(a: Seq<T>, b: Seq<T>) -> bool
    decreases a.len() + b.len(),
{
    if a.len() == 0 {
        true
    } else if b.len() == 0 {
        false
    } else {
        (a.last() == b.last() && is_subseq(a.drop_last(), b.drop_last())) || is_subseq(
            a,
            b.drop_last(),
        )
    }
}

/// Whatever a filter keeps is a subsequence of what it was given.
pub proof fn lemma_filter_is_subseq<T>(s: Seq<T>, pred: spec_fn(T) -> bool)
    ensures
        is_subseq(s.filter(pred), s),
    decreases s.len(),
{
    reveal(Seq::filter);
    if s.len() > 0 {
        lemma_filter_is_subseq(s.drop_last(), pred);
        if pred(s.last()) {
            assert(s.drop_last().filter(pred).push(s.last()).drop_last() =~= s.drop_last().filter(
                pred,
            ));
        } else {
            lemma_subseq_longer(s.drop_last().filter(pred), s.drop_last(), s.last());
        }
    }
}

/// A subsequence of `b` is also a subsequence of `b` with one more
/// element appended.
proof fn lemma_subseq_longer<T>(a: Seq<T>, b: Seq<T>, x: T)
    requires
        is_subseq(a, b),
    ensures
        is_subseq(a, b.push(x)),
{
    if a.len() > 0 {
        assert(b.push(x).drop_last() =~= b);
    }
}

/// Subsequences compose: if `a` is a subsequence of `b` and `b` one of
/// `c`, then `a` is a subsequence of `c`.
pub proof fn lemma_subseq_trans<T>(a: Seq<T>, b: Seq<T>, c: Seq<T>)
    requires
        is_subseq(a, b),
        is_subseq(b, c),
    ensures
        is_subseq(a, c),
    decreases a.len() + b.len() + c.len(),
{
    if a.len() == 0 || b.len() == 0 {
    } else if c.len() == 0 {
    } else {
        if b.last() == c.last() && is_subseq(b.drop_last(), c.drop_last()) {
            if a.last() == b.last() && is_subseq(a.drop_last(), b.drop_last()) {
                lemma_subseq_trans(a.drop_last(), b.drop_last(), c.drop_last());
            } else {
                assert(is_subseq(a, b.drop_last()));
                lemma_subseq_trans(a, b.drop_last(), c.drop_last());
            }
        } else {
            assert(is_subseq(b, c.drop_last()));
            lemma_subseq_trans(a, b, c.drop_last());
        }
    }
}

} // verus!
