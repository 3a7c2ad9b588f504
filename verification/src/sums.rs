//! Sums of sequences of counts, and the binomial row sum.
use vstd::prelude::*;
use vstd::arithmetic::power2::{pow2, lemma_pow2_unfold};
use crate::pascal::{binom, lemma_binom_above};

verus! {

/// The sum of a sequence of counts.
pub open spec fn seq_sum(s: Seq<usize>) -> nat
    decreases s.len(),
{
    if s.len() == 0 {
        0
    } else {
        seq_sum(s.drop_last()) + s.last() as nat
    }
}

/// Extending a prefix by one entry adds that entry to the sum.
pub proof fn lemma_seq_sum_take_step(s: Seq<usize>, j: int)
    requires
        0 <= j < s.len(),
    ensures
        seq_sum(s.take(j + 1)) == seq_sum(s.take(j)) + s[j],
{
    assert(s.take(j + 1).drop_last() =~= s.take(j));
}

/// The full prefix is the sequence itself.
pub proof fn lemma_seq_sum_take_all(s: Seq<usize>)
    ensures
        seq_sum(s.take(s.len() as int)) == seq_sum(s),
{
    assert(s.take(s.len() as int) =~= s);
}

/// A prefix sums to no more than the whole sequence.
pub proof fn lemma_seq_sum_prefix_le(s: Seq<usize>, j: int)
    requires
        0 <= j <= s.len(),
    ensures
        seq_sum(s.take(j)) <= seq_sum(s),
    decreases s.len() - j,
{
    if j == s.len() {
        lemma_seq_sum_take_all(s);
    } else {
        lemma_seq_sum_take_step(s, j);
        lemma_seq_sum_prefix_le(s, j + 1);
    }
}

/// The sum of C(m, k) over k < j.
pub open spec fn binom_prefix(m: nat, j: nat) -> nat
    decreases j,
{
    if j == 0 {
        0
    } else {
        binom_prefix(m, (j - 1) as nat) + binom(m, (j - 1) as nat)
    }
}

/// Pascal's rule, summed: the prefix of row m + 1 is the sum of two prefixes of row m.
pub proof fn lemma_binom_prefix_pascal(m: nat, j: nat)
    ensures
        binom_prefix(m + 1, j + 1) == binom_prefix(m, j + 1) + binom_prefix(m, j),
    decreases j,
{
    if j > 0 {
        lemma_binom_prefix_pascal(m, (j - 1) as nat);
        assert(binom(m + 1, j) == binom(m, (j - 1) as nat) + binom(m, j));
        assert(binom_prefix(m + 1, j + 1) == binom_prefix(m + 1, j) + binom(m + 1, j));
        assert(binom_prefix(m, j + 1) == binom_prefix(m, j) + binom(m, j));
        assert(binom_prefix(m, j) == binom_prefix(m, (j - 1) as nat) + binom(m, (j - 1) as nat));
    } else {
        assert(binom_prefix(m + 1, 1) == binom_prefix(m + 1, 0) + binom(m + 1, 0));
        assert(binom_prefix(m, 1) == binom_prefix(m, 0) + binom(m, 0));
    }
}

/// Binomial theorem at x = y = 1: the entries of row m sum to 2^m.
pub proof fn lemma_binom_row_sum(m: nat)
    ensures
        binom_prefix(m, m + 1) == pow2(m),
    decreases m,
{
    if m == 0 {
        vstd::arithmetic::power2::lemma2_to64();
        assert(binom_prefix(0, 1) == binom_prefix(0, 0) + binom(0, 0));
    } else {
        let m1 = (m - 1) as nat;
        lemma_binom_row_sum(m1);
        lemma_binom_prefix_pascal(m1, m);
        lemma_binom_above(m1, m);
        assert(binom_prefix(m1, m + 1) == binom_prefix(m1, m) + binom(m1, m));
        lemma_pow2_unfold(m);
    }
}

/// A sequence whose entries are the row m of Pascal's triangle sums to 2^m.
pub proof fn lemma_seq_sum_binom_row(s: Seq<usize>, m: nat)
    requires
        s.len() == m + 1,
        forall|k: int| 0 <= k < s.len() ==> s[k] == binom(m, k as nat),
    ensures
        seq_sum(s) == pow2(m),
{
    lemma_seq_sum_binom_prefix(s, m, s.len() as int);
    lemma_seq_sum_take_all(s);
    lemma_binom_row_sum(m);
}

proof fn lemma_seq_sum_binom_prefix(s: Seq<usize>, m: nat, j: int)
    requires
        0 <= j <= s.len(),
        forall|k: int| 0 <= k < s.len() ==> s[k] == binom(m, k as nat),
    ensures
        seq_sum(s.take(j)) == binom_prefix(m, j as nat),
    decreases j,
{
    if j == 0 {
        assert(s.take(0) =~= Seq::<usize>::empty());
    } else {
        lemma_seq_sum_binom_prefix(s, m, j - 1);
        lemma_seq_sum_take_step(s, j - 1);
    }
}

} // verus!
