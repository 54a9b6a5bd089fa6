//! Sums of amounts and the facts about them that the wallet logic relies on.
use vstd::prelude::*;

verus! {

/// The sum of a sequence of amounts, added from the front.
pub open spec fn sum_u64(s: Seq<u64>) -> nat
    decreases s.len(),
{
    if s.len() == 0 {
        0
    } else {
        sum_u64(s.drop_last()) + s.last() as nat
    }
}

/// Taking one more element adds that element to the sum.
pub proof fn lemma_sum_take_succ(s: Seq<u64>, i: int)
    requires
        0 <= i < s.len(),
    ensures
        sum_u64(s.take(i + 1)) == sum_u64(s.take(i)) + s[i],
{
    assert(s.take(i + 1).drop_last() =~= s.take(i));
}

/// A longer prefix has a sum at least as large.
proof fn lemma_prefix_sum_mono(s: Seq<u64>, i: int, j: int)
    requires
        0 <= i <= j <= s.len(),
    ensures
        sum_u64(s.take(i)) <= sum_u64(s.take(j)),
    decreases j - i,
{
    if i < j {
        lemma_sum_take_succ(s, j - 1);
        lemma_prefix_sum_mono(s, i, j - 1);
    }
}

/// Prefix sums never decrease and never exceed the whole sum.
pub proof fn lemma_sum_take_mono(s: Seq<u64>, i: int, j: int)
    requires
        0 <= i <= j <= s.len(),
    ensures
        sum_u64(s.take(i)) <= sum_u64(s.take(j)),
        sum_u64(s.take(j)) <= sum_u64(s),
{
    lemma_prefix_sum_mono(s, i, j);
    lemma_prefix_sum_mono(s, j, s.len() as int);
    assert(s.take(s.len() as int) =~= s);
}

/// The sum of a concatenation is the sum of its parts.
pub proof fn lemma_sum_concat(a: Seq<u64>, b: Seq<u64>)
    ensures
        sum_u64(a + b) == sum_u64(a) + sum_u64(b),
    decreases b.len(),
{
    if b.len() == 0 {
        assert(a + b =~= a);
    } else {
        assert((a + b).drop_last() =~= a + b.drop_last());
        lemma_sum_concat(a, b.drop_last());
    }
}

/// Removing one element removes its amount from the sum.
pub proof fn lemma_sum_remove(s: Seq<u64>, p: int)
    requires
        0 <= p < s.len(),
    ensures
        sum_u64(s) == sum_u64(s.remove(p)) + s[p],
    decreases s.len(),
{
    if p == s.len() - 1 {
        assert(s.remove(p) =~= s.drop_last());
    } else {
        assert(s.remove(p).drop_last() =~= s.drop_last().remove(p));
        assert(s.remove(p).last() == s.last());
        lemma_sum_remove(s.drop_last(), p);
    }
}

/// A sum is bounded by any of its terms from below.
pub proof fn lemma_sum_ge_elem(s: Seq<u64>, i: int)
    requires
        0 <= i < s.len(),
    ensures
        s[i] <= sum_u64(s),
{
    lemma_sum_take_succ(s, i);
    lemma_sum_take_mono(s, i + 1, s.len() as int);
}

/// `k` is the length of the shortest prefix of `vals` whose sum reaches `amount`.
pub open spec fn is_covering_prefix(vals: Seq<u64>, amount: nat, k: nat) -> bool {
    &&& k <= vals.len()
    &&& sum_u64(vals.take(k as int)) >= amount
    &&& (k > 0 ==> sum_u64(vals.take(k - 1)) < amount)
}

/// The covering prefix, where it exists, has a single length.
pub proof fn lemma_covering_prefix_unique(vals: Seq<u64>, amount: nat, k1: nat, k2: nat)
    requires
        is_covering_prefix(vals, amount, k1),
        is_covering_prefix(vals, amount, k2),
    ensures
        k1 == k2,
{
    if k1 < k2 {
        lemma_sum_take_mono(vals, k1 as int, k2 - 1);
    } else if k2 < k1 {
        lemma_sum_take_mono(vals, k2 as int, k1 - 1);
    }
}

} // verus!
