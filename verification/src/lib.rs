//! Symplectic topology: the combinatorial and dimensional parts of the theory,
//! with their contracts proved.
//!
//! - `arnold`: Betti numbers of CP^n, S^{2n} and T^{2n}, Morse counts, and the bounds of
//!   Arnold's conjecture.
//! - `reduction`: Marsden-Weinstein reduction, dim(M_red) = dim(M) - 2 dim(G).
//! - `lagrangian`: the standard Lagrangian submanifolds and intersection numbers.
//! - `symplectic_form`: the standard form omega_0 = [[0, I], [-I, 0]].
//! - `moment_map`: the moment map condition for torus actions.
//! - `capacity`: the kinds of symplectic capacity.
//! - `pascal`, `sums`, `text`: binomial coefficients, sums of counts, decimal names.

pub mod arnold;
pub mod capacity;
pub mod lagrangian;
pub mod moment_map;
pub mod pascal;
pub mod reduction;
pub mod sums;
pub mod symplectic_form;
pub mod text;

pub use arnold::{
    arnold_conjecture, betti_numbers_cp_n, betti_numbers_sphere, betti_numbers_torus, binomial,
    min_morse_critical_points, sum_betti, ArnoldConjectureResult, ArnoldManifold,
};
pub use capacity::CapacityKind;
pub use lagrangian::{consistent_state_manifolds, intersection_number_from_rank, LagrangianKind, LagrangianSubmanifold};
pub use moment_map::{contains_str, moment_map_condition_holds};
pub use reduction::{
    marsden_weinstein_reduce, reduce_to_coadjoint_orbit, reduce_to_cp_n, reduce_torus_action,
    reduced_form_half_dimension, verify_reduction_dimension, ReductionResult,
};
pub use symplectic_form::{admissible_form_shape, standard_form_matrix};
