# lau_symplectic_topology

Symplectic topology, split in two.

- `src/` is the verified library: Betti numbers of CP^n, S^{2n} and T^{2n},
  binomial coefficients, Morse counts and the bounds of Arnold's conjecture; the
  Marsden-Weinstein reduction formula dim(M_red) = dim(M) - 2 dim(G); the standard form
  omega_0 = [[0, I], [-I, 0]]; the standard Lagrangian submanifolds; the moment map
  condition for torus actions. Each function states its result in its `ensures`, and the
  laws of the theory (Poincare duality of Betti numbers, the binomial row sum 2^m, the strong
  Arnold bound dominating the weak one, skew-symmetry and non-degeneracy of omega_0) are
  proof functions.
- `app/` is ordinary Rust on top of it: everything computed in floating point with
  `nalgebra` (real symplectic forms, capacities, embeddings, Lagrangian subspaces, moment
  maps, agent phase spaces, numerical fixed points), and serializable copies of the
  library's types for `serde`.
