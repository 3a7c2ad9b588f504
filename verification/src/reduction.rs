//! Symplectic reduction (Marsden-Weinstein quotient).
//!
//! Given a Hamiltonian G-action on (M, omega) with moment map mu: M -> g*, if a in g*
//! is a regular value and G acts freely on mu^{-1}(a), then M_a = mu^{-1}(a)/G is a
//! symplectic manifold of dimension dim(M) - 2 dim(G).
use vstd::prelude::*;
use crate::text::{decimal, decimal_string};

verus! {

/// Result of a symplectic reduction computation.
#[derive(Debug, Clone)]
pub struct ReductionResult {
    /// Original manifold dimension
    pub original_dim: usize,
    /// Group dimension
    pub group_dim: usize,
    /// Reduced manifold dimension
    pub reduced_dim: usize,
    /// Name of the reduced space
    pub description: String,
    /// Whether the reduction is valid
    pub valid: bool,
}

/// Dimension of the reduced space M_a = mu^{-1}(a)/G: dim(M) - 2 dim(G).
pub open spec fn reduced_dimension(manifold_dim: nat, group_dim: nat) -> int {
    manifold_dim - 2 * group_dim
}

/// A reduced space is a symplectic manifold of positive, even dimension.
pub open spec fn is_valid_reduced_dimension(reduced: int) -> bool {
    reduced > 0 && reduced % 2 == 0
}

/// The dimensions and validity of a reduction, as `marsden_weinstein_reduce` reports them.
pub open spec fn is_reduction_of(r: ReductionResult, manifold_dim: nat, group_dim: nat) -> bool {
    &&& r.original_dim == manifold_dim
    &&& r.group_dim == group_dim
    &&& r.reduced_dim == reduced_dimension(manifold_dim, group_dim)
    &&& r.valid == is_valid_reduced_dimension(reduced_dimension(manifold_dim, group_dim))
}

/// The name that `reduce_to_cp_n` gives to CP^{n-1}.
pub open spec fn cp_n_reduction_name(n: nat) -> Seq<char> {
    "CP^"@ + decimal((n - 1) as nat) + " (from S^1 action on R^"@ + decimal(2 * n) + ")"@
}

/// The name that `reduce_to_coadjoint_orbit` gives to the orbit.
pub open spec fn coadjoint_orbit_name(n: nat, k: nat) -> Seq<char> {
    "Coadjoint orbit of U("@ + decimal(n) + ") at level "@ + decimal(k)
}

/// Perform Marsden-Weinstein reduction: dim(M_red) = dim(M) - 2 dim(G).
pub fn marsden_weinstein_reduce(
    manifold_dim: usize,
    group_dim: usize,
    description: &str,
) -> (r: ReductionResult)
    requires
        2 * group_dim <= manifold_dim,
    ensures
        is_reduction_of(r, manifold_dim as nat, group_dim as nat),
        r.original_dim == manifold_dim,
        r.group_dim == group_dim,
        r.reduced_dim + 2 * group_dim == manifold_dim,
        r.valid == (manifold_dim > 2 * group_dim && (manifold_dim - 2 * group_dim) % 2 == 0),
        r.description@ == description@,
{
    let reduced = manifold_dim - 2 * group_dim;
    ReductionResult {
        original_dim: manifold_dim,
        group_dim,
        reduced_dim: reduced,
        description: String::from_str(description),
        valid: reduced > 0 && reduced % 2 == 0,
    }
}

/// Classical example: the S^1 action on R^{2n} = C^n by multiplication by e^{it},
/// mu(z) = |z|^2/2, reduces to mu^{-1}(r^2/2)/S^1 = CP^{n-1}.
pub fn reduce_to_cp_n(n: usize) -> (r: ReductionResult)
    requires
        1 <= n,
        2 * n <= usize::MAX,
    ensures
        r.original_dim == 2 * n,
        r.group_dim == 1,
        r.reduced_dim == 2 * n - 2,
        r.description@ == cp_n_reduction_name(n as nat),
        r.description@ == "CP^"@ + decimal((n - 1) as nat) + " (from S^1 action on R^"@ + decimal(
            2 * n as nat,
        ) + ")"@,
        r.valid == (n > 1),
{
    let mut description = String::from_str("CP^");
    let a = decimal_string(n - 1);
    description.append(a.as_str());
    description.append(" (from S^1 action on R^");
    let b = decimal_string(2 * n);
    description.append(b.as_str());
    description.append(")");
    ReductionResult {
        original_dim: 2 * n,
        group_dim: 1,
        reduced_dim: 2 * n - 2,
        description,
        valid: n > 1,
    }
}

/// Classical example: coadjoint orbit reduction.
/// Reduce R^{4n} by U(n) action to get CP^n.
///
/// The result records R^{4n} as the original space, the group U(n) by its dimension n^2,
/// and CP^n, of real dimension 2n, as the reduced space, which is valid for every n >= 1;
/// it is recorded at level k.
pub fn reduce_to_coadjoint_orbit(n: usize, k: usize) -> (r: ReductionResult)
    requires
        4 * n <= usize::MAX,
        n * n <= usize::MAX,
    ensures
        r.original_dim == 4 * n,
        r.group_dim == n * n,
        r.reduced_dim == 2 * n,
        r.valid == (n >= 1),
        r.description@ == coadjoint_orbit_name(n as nat, k as nat),
        r.description@ == "Coadjoint orbit of U("@ + decimal(n as nat) + ") at level "@ + decimal(
            k as nat,
        ),
{
    let mut description = String::from_str("Coadjoint orbit of U(");
    let a = decimal_string(n);
    description.append(a.as_str());
    description.append(") at level ");
    let b = decimal_string(k);
    description.append(b.as_str());
    ReductionResult {
        original_dim: 4 * n,
        group_dim: n * n,
        reduced_dim: 2 * n,
        description,
        valid: n >= 1,
    }
}

/// Reduction of a torus action of dimension `torus_dim` on a space of dimension `total_dim`
/// (e.g. reducing T*T^2 by the first S^1 gives T*S^1).
pub fn reduce_torus_action(total_dim: usize, torus_dim: usize) -> (r: ReductionResult)
    requires
        2 * torus_dim <= total_dim,
    ensures
        is_reduction_of(r, total_dim as nat, torus_dim as nat),
        r.original_dim == total_dim,
        r.group_dim == torus_dim,
        r.reduced_dim + 2 * torus_dim == total_dim,
        r.valid == (total_dim > 2 * torus_dim && (total_dim - 2 * torus_dim) % 2 == 0),
        r.description@ == "Reduced torus action"@,
{
    marsden_weinstein_reduce(total_dim, torus_dim, "Reduced torus action")
}

/// Guillemin-Sternberg "quantization commutes with reduction" check:
/// the reduced space dim(M) - 2 dim(G) is positive and even.
/// A group with 2 dim(G) >= dim(M) leaves no reduced space, and the check fails.
pub fn verify_reduction_dimension(m_dim: usize, g_dim: usize) -> (valid: bool)
    ensures
        valid == is_valid_reduced_dimension(reduced_dimension(m_dim as nat, g_dim as nat)),
        valid == (m_dim > 2 * g_dim && m_dim % 2 == 0),
{
    if g_dim > m_dim / 2 {
        return false;
    }
    let r = m_dim - 2 * g_dim;
    r > 0 && r % 2 == 0
}

/// Reduction of a symplectic form of dimension `form_dimension` along a moment map of rank
/// `moment_map_rank`: the reduced form is the standard form on R^{2h}, where 2h is the
/// reduced dimension; there is none when the reduced dimension is zero or odd.
pub fn reduced_form_half_dimension(form_dimension: usize, moment_map_rank: usize) -> (h: Option<
    usize,
>)
    requires
        2 * moment_map_rank <= form_dimension,
    ensures
        h is None <==> !is_valid_reduced_dimension(
            reduced_dimension(form_dimension as nat, moment_map_rank as nat),
        ),
        h matches Some(h) ==> 2 * h == reduced_dimension(
            form_dimension as nat,
            moment_map_rank as nat,
        ),
        h is Some <==> (form_dimension > 2 * moment_map_rank && form_dimension % 2 == 0),
        h matches Some(h) ==> 2 * h + 2 * moment_map_rank == form_dimension,
{
    let reduced_dim = form_dimension - 2 * moment_map_rank;
    if reduced_dim == 0 || reduced_dim % 2 != 0 {
        return None;
    }
    Some(reduced_dim / 2)
}

/// The S^1 reduction of R^{2n} to CP^{n-1} is the Marsden-Weinstein reduction of a
/// 2n-dimensional space by a 1-dimensional group: its reduced dimension 2n - 2 is that of
/// CP^{n-1}, and it is valid exactly when n > 1.
pub proof fn lemma_cp_n_reduction_is_marsden_weinstein(n: nat)
    requires
        n >= 1,
    ensures
        reduced_dimension(2 * n, 1) == 2 * n - 2,
        is_valid_reduced_dimension(reduced_dimension(2 * n, 1)) == (n > 1),
{
}

/// The reduction formula for every group: removing 2 dim(G) from dim(M) gives the reduced
/// dimension, and a reduction is valid exactly when dim(M) exceeds 2 dim(G) and is even.
pub proof fn lemma_reduced_dimension_formula(manifold_dim: nat, group_dim: nat)
    requires
        2 * group_dim <= manifold_dim,
    ensures
        reduced_dimension(manifold_dim, group_dim) + 2 * group_dim == manifold_dim,
        is_valid_reduced_dimension(reduced_dimension(manifold_dim, group_dim)) <==> (manifold_dim
            > 2 * group_dim && manifold_dim % 2 == 0),
{
}

/// A reduction result of dimension dim(M) by a group of dimension dim(G) has reduced
/// dimension dim(M) - 2 dim(G), and is valid exactly when that is positive and even.
pub proof fn lemma_reduction_result_formula(r: ReductionResult, manifold_dim: nat, group_dim: nat)
    requires
        2 * group_dim <= manifold_dim,
        is_reduction_of(r, manifold_dim, group_dim),
    ensures
        r.reduced_dim + 2 * group_dim == manifold_dim,
        r.valid <==> (manifold_dim > 2 * group_dim && manifold_dim % 2 == 0),
{
}

/// The reduced form along a moment map of rank g on R^{2h + 2g} is the standard form on
/// R^{2h}: the dimensions add up, for every rank.
pub proof fn lemma_reduced_form_dimensions(form_dimension: nat, rank: nat, h: nat)
    requires
        2 * rank <= form_dimension,
        is_valid_reduced_dimension(reduced_dimension(form_dimension, rank)),
        2 * h == reduced_dimension(form_dimension, rank),
    ensures
        2 * h + 2 * rank == form_dimension,
        h > 0,
{
}

} // verus!
