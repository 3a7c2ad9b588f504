use lau_symplectic_topology::{
    marsden_weinstein_reduce, reduce_to_coadjoint_orbit, reduce_to_cp_n, reduce_torus_action,
    reduced_form_half_dimension, verify_reduction_dimension,
};

#[test]
fn test_marsden_weinstein_basic() {
    let r = marsden_weinstein_reduce(4, 1, "test");
    assert_eq!(r.reduced_dim, 2);
    assert!(r.valid);
}

#[test]
fn test_reduce_to_cp2() {
    let r = reduce_to_cp_n(3);
    assert_eq!(r.reduced_dim, 4); // CP^2 has real dim 4
    assert!(r.valid);
}

#[test]
fn test_reduce_to_cp1() {
    let r = reduce_to_cp_n(2);
    assert_eq!(r.reduced_dim, 2); // CP^1 = S^2
    assert!(r.valid);
}

#[test]
fn test_reduction_dimension_formula() {
    // dim(M_red) = dim(M) - 2*dim(G)
    assert_eq!(marsden_weinstein_reduce(6, 1, "").reduced_dim, 4);
    assert_eq!(marsden_weinstein_reduce(8, 2, "").reduced_dim, 4);
    assert_eq!(marsden_weinstein_reduce(4, 2, "").reduced_dim, 0);
}

#[test]
fn test_torus_reduction() {
    let r = reduce_torus_action(4, 1);
    assert_eq!(r.reduced_dim, 2);
    assert!(r.valid);
}

#[test]
fn test_verify_reduction() {
    assert!(verify_reduction_dimension(6, 2)); // 6 - 4 = 2
    assert!(!verify_reduction_dimension(4, 2)); // 4 - 4 = 0
    assert!(verify_reduction_dimension(10, 3)); // 10 - 6 = 4
}

#[test]
fn test_reduce_symplectic_form() {
    // the standard form on R^6, reduced along a moment map of rank 1, lives on R^4
    let h = reduced_form_half_dimension(6, 1);
    assert!(h.is_some());
    assert_eq!(2 * h.unwrap(), 4);
}

#[test]
fn test_reduce_to_zero_fails() {
    // the standard form on R^2 reduced along a moment map of rank 1
    assert!(reduced_form_half_dimension(2, 1).is_none());
}

#[test]
fn reduced_form_of_odd_dimension_fails() {
    assert!(reduced_form_half_dimension(7, 1).is_none());
    assert_eq!(reduced_form_half_dimension(10, 2), Some(3));
}

#[test]
fn odd_reduced_dimension_is_invalid() {
    let r = marsden_weinstein_reduce(7, 2, "odd");
    assert_eq!(r.reduced_dim, 3);
    assert!(!r.valid);
    assert_eq!(r.original_dim, 7);
    assert_eq!(r.group_dim, 2);
    assert_eq!(r.description, "odd");
}

#[test]
fn reduction_validity_agrees_with_verify() {
    for m in 0..12 {
        for g in 0..=m / 2 {
            assert_eq!(
                marsden_weinstein_reduce(m, g, "").valid,
                verify_reduction_dimension(m, g)
            );
            assert_eq!(
                reduced_form_half_dimension(m, g).is_some(),
                verify_reduction_dimension(m, g)
            );
        }
    }
}

#[test]
fn cp_n_reduction_matches_marsden_weinstein() {
    for n in 1..10 {
        let cp = reduce_to_cp_n(n);
        let mw = marsden_weinstein_reduce(2 * n, 1, "");
        assert_eq!(cp.original_dim, mw.original_dim);
        assert_eq!(cp.group_dim, mw.group_dim);
        assert_eq!(cp.reduced_dim, mw.reduced_dim);
        assert_eq!(cp.valid, mw.valid);
    }
}

#[test]
fn cp_n_reduction_names() {
    assert_eq!(reduce_to_cp_n(3).description, "CP^2 (from S^1 action on R^6)");
    assert_eq!(reduce_to_cp_n(1).description, "CP^0 (from S^1 action on R^2)");
    assert!(!reduce_to_cp_n(1).valid);
    assert_eq!(reduce_to_cp_n(12).description, "CP^11 (from S^1 action on R^24)");
}

#[test]
fn coadjoint_orbit_reduction() {
    // R^12 reduced to CP^3, of real dimension 6
    let r = reduce_to_coadjoint_orbit(3, 7);
    assert_eq!(r.original_dim, 12);
    assert_eq!(r.group_dim, 9);
    assert_eq!(r.reduced_dim, 6);
    assert!(r.valid);
    assert_eq!(r.description, "Coadjoint orbit of U(3) at level 7");
    let p = reduce_to_coadjoint_orbit(0, 0);
    assert_eq!(p.reduced_dim, 0);
    assert!(!p.valid);
}

#[test]
fn verify_reduction_rejects_large_groups() {
    assert!(!verify_reduction_dimension(4, 3));
    assert!(!verify_reduction_dimension(0, 1));
    assert!(!verify_reduction_dimension(10, usize::MAX));
    assert!(!verify_reduction_dimension(7, 1));
}

#[test]
fn torus_reduction_is_named() {
    let r = reduce_torus_action(8, 1);
    assert_eq!(r.reduced_dim, 6);
    assert_eq!(r.description, "Reduced torus action");
}
