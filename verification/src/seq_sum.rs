//! Sums of sequences of counters.

use vstd::prelude::*;

verus! {

/// The sum of all elements of `s`.
pub open spec fn sum(s: Seq<u64>) -> int
    decreases s.len(),
{
    if s.len() == 0 {
        0
    } else {
        sum(s.drop_last()) + s.last()
    }
}

/// A sum is never negative.
pub proof fn lemma_sum_nonneg(s: Seq<u64>)
    ensures
        sum(s) >= 0,
    decreases s.len(),
{
    if s.len() > 0 {
        lemma_sum_nonneg(s.drop_last());
    }
}

/// The sum of a concatenation is the sum of its parts.
pub proof fn lemma_sum_concat(a: Seq<u64>, b: Seq<u64>)
    ensures
        sum(a + b) == sum(a) + sum(b),
    decreases b.len(),
{
    if b.len() == 0 {
        assert(a + b =~= a);
    } else {
        lemma_sum_concat(a, b.drop_last());
        assert((a + b).drop_last() =~= a + b.drop_last());
    }
}

/// A prefix sums to no more than the whole sequence.
pub proof fn lemma_sum_take_le(s: Seq<u64>, i: int)
    requires
        0 <= i <= s.len(),
    ensures
        sum(s.take(i)) <= sum(s),
{
    lemma_sum_concat(s.take(i), s.skip(i));
    assert(s.take(i) + s.skip(i) =~= s);
    lemma_sum_nonneg(s.skip(i));
}

/// Extending a prefix by one element adds that element to the sum.
pub proof fn lemma_sum_take_step(s: Seq<u64>, i: int)
    requires
        0 <= i < s.len(),
    ensures
        sum(s.take(i + 1)) == sum(s.take(i)) + s[i],
{
    assert(s.take(i + 1).drop_last() =~= s.take(i));
}

/// Every element is at most the sum.
pub proof fn lemma_elem_le_sum(s: Seq<u64>, i: int)
    requires
        0 <= i < s.len(),
    ensures
        s[i] <= sum(s),
{
    lemma_sum_take_step(s, i);
    lemma_sum_take_le(s, i + 1);
    lemma_sum_nonneg(s.take(i));
}

/// Replacing one element changes the sum by the difference.
pub proof fn lemma_sum_update(s: Seq<u64>, i: int, v: u64)
    requires
        0 <= i < s.len(),
    ensures
        sum(s.update(i, v)) == sum(s) - s[i] + v,
{
    let t = s.update(i, v);
    assert(s =~= s.take(i) + seq![s[i]] + s.skip(i + 1));
    assert(t =~= s.take(i) + seq![v] + s.skip(i + 1));
    lemma_sum_concat(s.take(i) + seq![s[i]], s.skip(i + 1));
    lemma_sum_concat(s.take(i), seq![s[i]]);
    lemma_sum_concat(s.take(i) + seq![v], s.skip(i + 1));
    lemma_sum_concat(s.take(i), seq![v]);
    assert(seq![s[i]].drop_last() =~= Seq::<u64>::empty());
    assert(seq![v].drop_last() =~= Seq::<u64>::empty());
}

/// A sequence of zeros sums to zero.
pub proof fn lemma_sum_zeros(s: Seq<u64>)
    requires
        forall|i: int| 0 <= i < s.len() ==> s[i] == 0,
    ensures
        sum(s) == 0,
    decreases s.len(),
{
    if s.len() > 0 {
        lemma_sum_zeros(s.drop_last());
    }
}

} // verus!
