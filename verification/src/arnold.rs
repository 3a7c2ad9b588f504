//! Arnold's conjecture on fixed points of Hamiltonian symplectomorphisms.
//!
//! A Hamiltonian symplectomorphism on a compact symplectic manifold M has at least
//! as many fixed points as a function on M with the minimum number of critical points.
//! - Weak form: #Fix(phi) >= dim H*(M; Q), the sum of the Betti numbers.
//! - Strong form: #Fix(phi) >= #Crit(f) for any Morse function f on M.
use vstd::prelude::*;
use vstd::arithmetic::power2::pow2;
use crate::pascal::{binom, lemma_binom_above, lemma_binom_diagonal, lemma_binom_step, lemma_binom_symmetric};
use crate::sums::{seq_sum, lemma_seq_sum_take_step, lemma_seq_sum_take_all, lemma_seq_sum_prefix_le, lemma_seq_sum_binom_row};

verus! {

/// Types of manifolds for Arnold's conjecture: CP^n, S^{2n} and T^{2n}.
#[derive(Debug, Clone, Copy, PartialEq, Eq, Structural)]
pub enum ArnoldManifold {
    CPn(usize),
    Sphere(usize),
    Torus(usize),
}

/// Result of applying Arnold's conjecture.
#[derive(Debug, Clone, Copy, PartialEq, Eq, Structural)]
pub struct ArnoldConjectureResult {
    pub manifold: ArnoldManifold,
    pub sum_betti_numbers: usize,
    pub min_morse_criticals: usize,
    pub guaranteed_fixed_points: usize,
}

// ---------------------------------------------------------------------------
// Betti numbers
// ---------------------------------------------------------------------------

/// The k-th Betti number of CP^n: 1 in the even degrees 0, 2, ..., 2n, else 0.
pub open spec fn cp_n_betti(n: nat, k: nat) -> nat {
    if k <= 2 * n && k % 2 == 0 { 1 } else { 0 }
}

/// The k-th Betti number of S^{2n}: 1 in degrees 0 and 2n, else 0.
pub open spec fn sphere_betti(n: nat, k: nat) -> nat {
    if k == 0 || k == 2 * n { 1 } else { 0 }
}

/// The k-th Betti number of T^{2n}: C(2n, k).
pub open spec fn torus_betti(n: nat, k: nat) -> nat {
    binom(2 * n, k)
}

/// The parameter n of the manifold: CP^n, S^{2n} or T^{2n} are of real dimension 2n.
pub open spec fn half_dim(m: ArnoldManifold) -> nat {
    match m {
        ArnoldManifold::CPn(n) => n as nat,
        ArnoldManifold::Sphere(n) => n as nat,
        ArnoldManifold::Torus(n) => n as nat,
    }
}

/// The k-th Betti number of the manifold.
pub open spec fn betti_number(m: ArnoldManifold, k: nat) -> nat {
    match m {
        ArnoldManifold::CPn(n) => cp_n_betti(n as nat, k),
        ArnoldManifold::Sphere(n) => sphere_betti(n as nat, k),
        ArnoldManifold::Torus(n) => torus_betti(n as nat, k),
    }
}

/// The sum of the Betti numbers listed by the Betti functions: n + 1 for CP^n, 2 for
/// S^{2n} with n >= 1, 2^{2n} for T^{2n}. For n = 0 the sphere's list has a single entry,
/// since degrees 0 and 2n coincide, so the listed sum is 1 (a convention of this list, not
/// the dimension of H*(S^0; Q), which is 2).
pub open spec fn betti_total(m: ArnoldManifold) -> nat {
    match m {
        ArnoldManifold::CPn(n) => (n + 1) as nat,
        ArnoldManifold::Sphere(n) => if n == 0 { 1 } else { 2 },
        ArnoldManifold::Torus(n) => pow2(2 * n as nat),
    }
}

/// The minimum number of critical points of a Morse function on M:
/// n + 1 for CP^n, 2 for S^{2n}, 2^{2n} for T^{2n}.
pub open spec fn morse_count(m: ArnoldManifold) -> nat {
    match m {
        ArnoldManifold::CPn(n) => (n + 1) as nat,
        ArnoldManifold::Sphere(n) => 2,
        ArnoldManifold::Torus(n) => pow2(2 * n as nat),
    }
}

// ---------------------------------------------------------------------------
// Machine limits
// ---------------------------------------------------------------------------

/// The largest number of loop steps `binomial` takes on (n, k).
pub open spec fn binomial_steps(n: nat, k: nat) -> nat {
    if k > n || k == 0 || k == n {
        0
    } else if k <= n - k {
        k
    } else {
        (n - k) as nat
    }
}

/// Every intermediate product C(n, i) (n - i) that `binomial` forms fits in a usize.
pub open spec fn binomial_fits(n: nat, k: nat) -> bool {
    forall|i: nat| i < binomial_steps(n, k) ==> #[trigger] binom(n, i) * ((n - i) as nat)
        <= usize::MAX
}

/// The Betti numbers of T^{2n} can be computed in usize arithmetic.
pub open spec fn torus_betti_fits(n: nat) -> bool {
    &&& 2 * n + 1 <= usize::MAX
    &&& forall|k: nat| k <= 2 * n ==> #[trigger] binomial_fits(2 * n, k)
}

/// The Morse count of the manifold can be computed in usize arithmetic.
pub open spec fn morse_fits(m: ArnoldManifold) -> bool {
    match m {
        ArnoldManifold::CPn(n) => n < usize::MAX,
        ArnoldManifold::Sphere(n) => true,
        ArnoldManifold::Torus(n) => 2 * n < usize::BITS,
    }
}

/// All the quantities of `arnold_conjecture` can be computed in usize arithmetic.
pub open spec fn arnold_fits(m: ArnoldManifold) -> bool {
    match m {
        ArnoldManifold::CPn(n) => 2 * n + 1 <= usize::MAX,
        ArnoldManifold::Sphere(n) => 2 * n + 1 <= usize::MAX,
        ArnoldManifold::Torus(n) => torus_betti_fits(n as nat) && 2 * n < usize::BITS,
    }
}

// ---------------------------------------------------------------------------
// Executable functions
// ---------------------------------------------------------------------------

/// Betti numbers of CP^n: 1, 0, 1, 0, ..., 1 in degrees 0, 1, ..., 2n.
pub fn betti_numbers_cp_n(n: usize) -> (betti: Vec<usize>)
    requires
        2 * n + 1 <= usize::MAX,
    ensures
        betti@.len() == 2 * n + 1,
        forall|k: int| 0 <= k < betti@.len() ==> betti@[k] == cp_n_betti(n as nat, k as nat),
{
    let len = 2 * n + 1;
    let mut betti: Vec<usize> = vec![0; len];
    let mut i: usize = 0;
    while i <= n
        invariant
            len == 2 * n + 1,
            i <= n + 1,
            betti@.len() == len,
            forall|k: int|
                0 <= k < len ==> betti@[k] == (if k % 2 == 0 && k < 2 * i { 1int } else { 0int }),
        decreases n + 1 - i,
    {
        betti.set(2 * i, 1);
        i = i + 1;
    }
    betti
}

/// Betti numbers of T^{2n}: the binomial coefficients C(2n, k), k = 0, ..., 2n.
pub fn betti_numbers_torus(n: usize) -> (betti: Vec<usize>)
    requires
        torus_betti_fits(n as nat),
    ensures
        betti@.len() == 2 * n + 1,
        forall|k: int| 0 <= k < betti@.len() ==> betti@[k] == torus_betti(n as nat, k as nat),
{
    let len = 2 * n + 1;
    let mut betti: Vec<usize> = vec![0; len];
    for k in 0..len
        invariant
            len == 2 * n + 1,
            torus_betti_fits(n as nat),
            betti@.len() == len,
            forall|j: int| 0 <= j < k ==> betti@[j] == torus_betti(n as nat, j as nat),
    {
        assert(binomial_fits(2 * n as nat, k as nat));
        let b = binomial(2 * n, k);
        betti.set(k, b);
    }
    betti
}

/// Betti numbers of S^{2n}: 1, 0, ..., 0, 1 in degrees 0, 1, ..., 2n.
pub fn betti_numbers_sphere(n: usize) -> (betti: Vec<usize>)
    requires
        2 * n + 1 <= usize::MAX,
    ensures
        betti@.len() == 2 * n + 1,
        forall|k: int| 0 <= k < betti@.len() ==> betti@[k] == sphere_betti(n as nat, k as nat),
{
    let len = 2 * n + 1;
    let mut betti: Vec<usize> = vec![0; len];
    betti.set(0, 1);
    betti.set(2 * n, 1);
    betti
}

/// The binomial coefficient C(n, k), computed multiplicatively on min(k, n - k) steps.
pub fn binomial(n: usize, k: usize) -> (c: usize)
    requires
        binomial_fits(n as nat, k as nat),
    ensures
        c == binom(n as nat, k as nat),
{
    if k > n {
        proof {
            lemma_binom_above(n as nat, k as nat);
        }
        return 0;
    }
    if k == 0 || k == n {
        proof {
            lemma_binom_diagonal(n as nat);
        }
        return 1;
    }
    let m = if k <= n - k { k } else { n - k };
    proof {
        lemma_binom_symmetric(n as nat, k as nat);
    }
    let mut result: usize = 1;
    let mut i: usize = 0;
    while i < m
        invariant
            0 < k < n,
            m == binomial_steps(n as nat, k as nat),
            binomial_fits(n as nat, k as nat),
            i <= m,
            m <= n,
            result == binom(n as nat, i as nat),
        decreases m - i,
    {
        assert(binom(n as nat, i as nat) * ((n - i) as nat) <= usize::MAX);
        proof {
            lemma_binom_step(n as nat, i as nat);
        }
        let p = result * (n - i);
        assert(p == binom(n as nat, (i + 1) as nat) * (i + 1));
        let d = i + 1;
        assert(p / d == binom(n as nat, d as nat)) by (nonlinear_arith)
            requires
                p == binom(n as nat, d as nat) * d,
                d > 0,
        ;
        result = p / d;
        i = i + 1;
    }
    result
}

/// Sum of Betti numbers (lower bound from the weak Arnold conjecture).
pub fn sum_betti(betti: &[usize]) -> (total: usize)
    requires
        seq_sum(betti@) <= usize::MAX,
    ensures
        total == seq_sum(betti@),
{
    let mut total: usize = 0;
    for i in 0..betti.len()
        invariant
            seq_sum(betti@) <= usize::MAX,
            total == seq_sum(betti@.take(i as int)),
    {
        proof {
            lemma_seq_sum_take_step(betti@, i as int);
            lemma_seq_sum_prefix_le(betti@, i + 1);
        }
        total = total + betti[i];
    }
    proof {
        lemma_seq_sum_take_all(betti@);
    }
    total
}

/// Minimum number of critical points of a Morse function on M:
/// n + 1 for CP^n, 2 for S^{2n}, 2^{2n} for T^{2n}.
pub fn min_morse_critical_points(manifold: ArnoldManifold) -> (count: usize)
    requires
        morse_fits(manifold),
    ensures
        count == morse_count(manifold),
{
    match manifold {
        ArnoldManifold::CPn(n) => n + 1,
        ArnoldManifold::Sphere(_n) => 2,
        ArnoldManifold::Torus(n) => {
            let shift = 2 * n;
            proof {
                vstd::bits::lemma_usize_pow2_no_overflow(shift as nat);
                vstd::bits::lemma_usize_shl_is_mul(1, shift);
            }
            1usize << shift
        },
    }
}

/// Apply Arnold's conjecture (strong form) to a manifold: the guaranteed number of
/// fixed points is the minimum number of critical points of a Morse function.
pub fn arnold_conjecture(manifold: ArnoldManifold) -> (result: ArnoldConjectureResult)
    requires
        arnold_fits(manifold),
    ensures
        result.manifold == manifold,
        result.sum_betti_numbers == betti_total(manifold),
        result.min_morse_criticals == morse_count(manifold),
        result.guaranteed_fixed_points == morse_count(manifold),
{
    let betti = match manifold {
        ArnoldManifold::CPn(n) => betti_numbers_cp_n(n),
        ArnoldManifold::Sphere(n) => betti_numbers_sphere(n),
        ArnoldManifold::Torus(n) => betti_numbers_torus(n),
    };
    proof {
        lemma_betti_numbers_sum(manifold, betti@);
        if let ArnoldManifold::Torus(n) = manifold {
            vstd::bits::lemma_usize_pow2_no_overflow(2 * n as nat);
        }
    }
    let sum_b = sum_betti(betti.as_slice());
    let morse = min_morse_critical_points(manifold);
    ArnoldConjectureResult {
        manifold,
        sum_betti_numbers: sum_b,
        min_morse_criticals: morse,
        guaranteed_fixed_points: morse,
    }
}

// ---------------------------------------------------------------------------
// Laws
// ---------------------------------------------------------------------------

/// The Betti numbers of M, listed in degrees 0, ..., 2n, sum to dim H*(M; Q):
/// n + 1 for CP^n, 2 for S^{2n} with n >= 1 (1 for n = 0, where the list has one entry),
/// and 2^{2n} for T^{2n}.
pub proof fn lemma_betti_numbers_sum(m: ArnoldManifold, betti: Seq<usize>)
    requires
        betti.len() == 2 * half_dim(m) + 1,
        forall|k: int| 0 <= k < betti.len() ==> betti[k] == betti_number(m, k as nat),
    ensures
        seq_sum(betti) == betti_total(m),
{
    match m {
        ArnoldManifold::CPn(n) => {
            lemma_cp_n_prefix(betti, n as nat, betti.len() as int);
            lemma_seq_sum_take_all(betti);
        },
        ArnoldManifold::Sphere(n) => {
            lemma_sphere_prefix(betti, n as nat, betti.len() as int);
            lemma_seq_sum_take_all(betti);
        },
        ArnoldManifold::Torus(n) => {
            lemma_seq_sum_binom_row(betti, 2 * n as nat);
        },
    }
}

proof fn lemma_cp_n_prefix(betti: Seq<usize>, n: nat, j: int)
    requires
        betti.len() == 2 * n + 1,
        forall|k: int| 0 <= k < betti.len() ==> betti[k] == cp_n_betti(n, k as nat),
        0 <= j <= betti.len(),
    ensures
        seq_sum(betti.take(j)) == (j + 1) / 2,
    decreases j,
{
    if j == 0 {
        assert(betti.take(0) =~= Seq::<usize>::empty());
    } else {
        lemma_cp_n_prefix(betti, n, j - 1);
        lemma_seq_sum_take_step(betti, j - 1);
        assert(betti[j - 1] == cp_n_betti(n, (j - 1) as nat));
    }
}

proof fn lemma_sphere_prefix(betti: Seq<usize>, n: nat, j: int)
    requires
        betti.len() == 2 * n + 1,
        forall|k: int| 0 <= k < betti.len() ==> betti[k] == sphere_betti(n, k as nat),
        0 <= j <= betti.len(),
    ensures
        seq_sum(betti.take(j)) == (if j > 0 { 1int } else { 0int }) + (if j > 2 * n && n > 0 {
            1int
        } else {
            0int
        }),
    decreases j,
{
    if j == 0 {
        assert(betti.take(0) =~= Seq::<usize>::empty());
    } else {
        lemma_sphere_prefix(betti, n, j - 1);
        lemma_seq_sum_take_step(betti, j - 1);
        assert(betti[j - 1] == sphere_betti(n, (j - 1) as nat));
    }
}

/// Poincare duality: b_k(M) = b_{2n-k}(M) for 0 <= k <= 2n.
pub proof fn lemma_betti_duality(m: ArnoldManifold, k: nat)
    requires
        k <= 2 * half_dim(m),
    ensures
        betti_number(m, k) == betti_number(m, (2 * half_dim(m) - k) as nat),
{
    if let ArnoldManifold::Torus(n) = m {
        lemma_binom_symmetric(2 * n as nat, k);
    }
}

/// The strong form of the conjecture guarantees at least as many fixed points as
/// the weak form: the Morse count is at least the listed Betti sum. The two are equal on
/// every manifold here except `Sphere(0)`, whose Betti list has a single entry (degrees 0
/// and 2n coincide) while its Morse count is 2.
pub proof fn lemma_strong_bound_dominates_weak(m: ArnoldManifold)
    ensures
        morse_count(m) >= betti_total(m),
        m != ArnoldManifold::Sphere(0) ==> morse_count(m) == betti_total(m),
{
}

} // verus!
