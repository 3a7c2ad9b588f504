//! Symplectic capacities: the kinds of capacity this library distinguishes.
//!
//! A symplectic capacity is a map c from symplectic manifolds to [0, infinity] satisfying
//! monotonicity (an embedding M1 -> M2 gives c(M1) <= c(M2)), conformality
//! (c(M, lambda omega) = |lambda| c(M, omega)) and normalization (c(B(r)) = c(Z(r)) = pi r^2).
use vstd::prelude::*;

verus! {

/// Types of symplectic capacities.
#[derive(Debug, Clone, Copy, PartialEq, Eq, Structural)]
pub enum CapacityKind {
    /// Gromov width: sup { pi r^2 | B(r) symplectically embeds into M }
    GromovWidth,
    /// Ekeland-Hofer capacity (via spectral methods)
    EkelandHofer,
    /// Hofer-Zehnder capacity
    HoferZehnder,
}

} // verus!
