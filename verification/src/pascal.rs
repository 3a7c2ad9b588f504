//! Binomial coefficients, defined by Pascal's rule, and the identities
//! the Betti-number computations rest on.
use vstd::prelude::*;

verus! {

/// The binomial coefficient C(n, k), by Pascal's rule; C(n, k) = 0 for k > n.
pub open spec fn binom(n: nat, k: nat) -> nat
    decreases n,
{
    if k == 0 {
        1
    } else if n == 0 {
        0
    } else {
        binom((n - 1) as nat, (k - 1) as nat) + binom((n - 1) as nat, k)
    }
}

/// C(n, k) vanishes above the diagonal.
pub proof fn lemma_binom_above(n: nat, k: nat)
    requires
        k > n,
    ensures
        binom(n, k) == 0,
    decreases n,
{
    if n > 0 {
        lemma_binom_above((n - 1) as nat, (k - 1) as nat);
        lemma_binom_above((n - 1) as nat, k);
    }
}

/// C(n, n) = 1.
pub proof fn lemma_binom_diagonal(n: nat)
    ensures
        binom(n, n) == 1,
    decreases n,
{
    if n > 0 {
        lemma_binom_diagonal((n - 1) as nat);
        lemma_binom_above((n - 1) as nat, n);
    }
}

/// Symmetry: C(n, k) = C(n, n - k) for k <= n.
pub proof fn lemma_binom_symmetric(n: nat, k: nat)
    requires
        k <= n,
    ensures
        binom(n, k) == binom(n, (n - k) as nat),
    decreases n,
{
    if k == 0 {
        lemma_binom_diagonal(n);
    } else if k == n {
        lemma_binom_diagonal(n);
    } else {
        // 0 < k < n
        lemma_binom_symmetric((n - 1) as nat, (k - 1) as nat);
        lemma_binom_symmetric((n - 1) as nat, k);
        assert(binom(n, (n - k) as nat) == binom((n - 1) as nat, (n - k - 1) as nat) + binom(
            (n - 1) as nat,
            (n - k) as nat,
        ));
    }
}

/// Absorption: k C(n, k) = n C(n - 1, k - 1) for n, k >= 1.
pub proof fn lemma_binom_absorb(n: nat, k: nat)
    requires
        n >= 1,
        k >= 1,
    ensures
        k * binom(n, k) == n * binom((n - 1) as nat, (k - 1) as nat),
    decreases n,
{
    let n1 = (n - 1) as nat;
    let k1 = (k - 1) as nat;
    if n == 1 {
        if k > 1 {
            lemma_binom_above(1, k);
            lemma_binom_above(0, k1);
            assert(k * binom(n, k) == n * binom(n1, k1)) by (nonlinear_arith)
                requires
                    binom(n, k) == 0,
                    binom(n1, k1) == 0,
            ;
        } else {
            lemma_binom_diagonal(1);
            assert(k * binom(n, k) == n * binom(n1, k1)) by (nonlinear_arith)
                requires
                    binom(n, k) == 1,
                    binom(n1, k1) == 1,
                    k == 1,
                    n == 1,
            ;
        }
    } else {
        // k C(n, k) = k C(n-1, k-1) + k C(n-1, k)
        //           = (k-1) C(n-1, k-1) + C(n-1, k-1) + k C(n-1, k)
        assert(k * binom(n, k) == k1 * binom(n1, k1) + binom(n1, k1) + k * binom(n1, k))
            by (nonlinear_arith)
            requires
                binom(n, k) == binom(n1, k1) + binom(n1, k),
                k1 + 1 == k,
        ;
        lemma_binom_absorb(n1, k);
        let b = binom((n1 - 1) as nat, k1);
        if k1 >= 1 {
            lemma_binom_absorb(n1, k1);
            let a = binom((n1 - 1) as nat, (k1 - 1) as nat);
            assert(binom(n1, k1) == a + b);
            assert(k * binom(n, k) == n * binom(n1, k1)) by (nonlinear_arith)
                requires
                    k * binom(n, k) == k1 * binom(n1, k1) + binom(n1, k1) + k * binom(n1, k),
                    k1 * binom(n1, k1) == n1 * a,
                    k * binom(n1, k) == n1 * b,
                    binom(n1, k1) == a + b,
                    n1 + 1 == n,
            ;
        } else {
            assert(binom(n1, k1) == 1);
            assert(b == 1);
            assert(k * binom(n, k) == n * binom(n1, k1)) by (nonlinear_arith)
                requires
                    k * binom(n, k) == k1 * binom(n1, k1) + binom(n1, k1) + k * binom(n1, k),
                    k1 == 0,
                    k == 1,
                    k * binom(n1, k) == n1 * b,
                    b == 1,
                    binom(n1, k1) == 1,
                    n1 + 1 == n,
            ;
        }
    }
}

/// The multiplicative step: C(n, i) (n - i) = C(n, i + 1) (i + 1) for i < n.
pub proof fn lemma_binom_step(n: nat, i: nat)
    requires
        i < n,
    ensures
        binom(n, i) * ((n - i) as nat) == binom(n, i + 1) * (i + 1),
{
    let n1 = (n - 1) as nat;
    // (i + 1) C(n, i + 1) = n C(n - 1, i)
    lemma_binom_absorb(n, i + 1);
    // (n - i) C(n, i) = n C(n, i) - i C(n, i) = n C(n - 1, i)
    if i == 0 {
        assert(binom(n, 0) * ((n - 0) as nat) == n * binom(n1, 0)) by (nonlinear_arith)
            requires
                binom(n, 0) == 1,
                binom(n1, 0) == 1,
        ;
    } else {
        lemma_binom_absorb(n, i);
        let x = binom(n1, (i - 1) as nat);
        let y = binom(n1, i);
        assert(binom(n, i) == x + y);
        assert(binom(n, i) * ((n - i) as nat) == n * y) by (nonlinear_arith)
            requires
                binom(n, i) == x + y,
                i * binom(n, i) == n * x,
                i < n,
        ;
    }
    assert(binom(n, i + 1) * (i + 1) == (i + 1) * binom(n, i + 1)) by (nonlinear_arith);
}

} // verus!
