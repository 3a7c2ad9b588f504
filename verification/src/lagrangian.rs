//! Lagrangian submanifolds: half-dimensional, totally isotropic submanifolds.
//!
//! A submanifold L of (M, omega) is Lagrangian if dim(L) = n, half of dim(M) = 2n,
//! and omega restricted to L vanishes.
use vstd::prelude::*;
use crate::text::{decimal, decimal_string};

verus! {

/// Types of Lagrangian submanifolds.
#[derive(Debug, Clone, Copy, PartialEq, Eq, Structural)]
pub enum LagrangianKind {
    /// The zero section {y = 0} in (T*X, omega_canonical)
    ZeroSection,
    /// A graph of an exact 1-form df in T*X
    ExactOneForm,
    /// The fiber {x = x0} in T*X
    Fiber,
    /// A general linear Lagrangian subspace
    Linear,
}

/// A Lagrangian submanifold, represented by its name, dimension and kind.
#[derive(Debug, Clone)]
pub struct LagrangianSubmanifold {
    pub name: String,
    /// Dimension of the Lagrangian: half the ambient dimension
    pub dimension: usize,
    /// The kind of Lagrangian
    pub kind: LagrangianKind,
}

impl LagrangianSubmanifold {
    /// The zero section {y = 0} in R^{2n} with the standard symplectic form.
    pub fn zero_section(n: usize) -> (l: Self)
        requires
            2 * n <= usize::MAX,
        ensures
            l.name@ == "Zero section in R^"@ + decimal(2 * n as nat),
            l.dimension == n,
            l.kind == LagrangianKind::ZeroSection,
    {
        let mut name = String::from_str("Zero section in R^");
        let d = decimal_string(2 * n);
        name.append(d.as_str());
        Self { name, dimension: n, kind: LagrangianKind::ZeroSection }
    }

    /// A fiber {x = x0} in R^{2n}.
    pub fn fiber(n: usize) -> (l: Self)
        requires
            2 * n <= usize::MAX,
        ensures
            l.name@ == "Fiber in R^"@ + decimal(2 * n as nat),
            l.dimension == n,
            l.kind == LagrangianKind::Fiber,
    {
        let mut name = String::from_str("Fiber in R^");
        let d = decimal_string(2 * n);
        name.append(d.as_str());
        Self { name, dimension: n, kind: LagrangianKind::Fiber }
    }

    /// Graph of the exact 1-form df, where f (named `f_name`) is a function on R^n.
    pub fn exact_one_form(n: usize, f_name: &str) -> (l: Self)
        requires
            2 * n <= usize::MAX,
        ensures
            l.name@ == "Graph of d("@ + f_name@ + ") in R^"@ + decimal(2 * n as nat),
            l.dimension == n,
            l.kind == LagrangianKind::ExactOneForm,
    {
        let mut name = String::from_str("Graph of d(");
        name.append(f_name);
        name.append(") in R^");
        let d = decimal_string(2 * n);
        name.append(d.as_str());
        Self { name, dimension: n, kind: LagrangianKind::ExactOneForm }
    }
}

/// The Lagrangian submanifolds that represent consistent states in a phase space with
/// `n_dof` degrees of freedom: the zero section and the fiber in R^{2 n_dof}.
pub fn consistent_state_manifolds(n_dof: usize) -> (ls: Vec<LagrangianSubmanifold>)
    requires
        2 * n_dof <= usize::MAX,
    ensures
        ls@.len() == 2,
        ls@[0].name@ == "Zero section in R^"@ + decimal(2 * n_dof as nat),
        ls@[0].dimension == n_dof,
        ls@[0].kind == LagrangianKind::ZeroSection,
        ls@[1].name@ == "Fiber in R^"@ + decimal(2 * n_dof as nat),
        ls@[1].dimension == n_dof,
        ls@[1].kind == LagrangianKind::Fiber,
{
    let mut ls: Vec<LagrangianSubmanifold> = Vec::new();
    ls.push(LagrangianSubmanifold::zero_section(n_dof));
    ls.push(LagrangianSubmanifold::fiber(n_dof));
    ls
}

/// The Floer-theoretic intersection number of two linear Lagrangians L1, L2 in R^{2n},
/// from the rank of the 2n x 2n matrix [L1 | -L2]: the intersection has dimension
/// 2n - rank; a transverse intersection (dimension 0) counts as one point.
pub fn intersection_number_from_rank(n: usize, rank: usize) -> (count: usize)
    requires
        2 * n <= usize::MAX,
        rank <= 2 * n,
    ensures
        count == (if rank == 2 * n { 1 } else { 2 * n - rank }),
{
    let intersection_dim = 2 * n - rank;
    if intersection_dim == 0 {
        1
    } else {
        intersection_dim
    }
}

/// For two Lagrangians in R^{2n} (n >= 1) with independent bases, the matrix [L1 | -L2]
/// has rank at least n, so the intersection number lies between 1 and n; it is 1 for a
/// transverse pair (full rank 2n) and for a pair meeting in a line (rank 2n - 1), and for
/// no other.
pub proof fn lemma_intersection_number_bounds(n: nat, rank: nat, count: nat)
    requires
        n >= 1,
        n <= rank <= 2 * n,
        count == (if rank == 2 * n { 1 } else { 2 * n - rank }),
    ensures
        1 <= count <= n,
        count == 1 <==> (rank == 2 * n || rank == 2 * n - 1),
{
}

} // verus!
