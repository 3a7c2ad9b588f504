use lau_symplectic_topology::{
    arnold_conjecture, betti_numbers_cp_n, betti_numbers_sphere, betti_numbers_torus, binomial,
    min_morse_critical_points, sum_betti, ArnoldManifold,
};

#[test]
fn test_betti_cp2() {
    let b = betti_numbers_cp_n(2);
    assert_eq!(b, vec![1, 0, 1, 0, 1]);
    assert_eq!(sum_betti(&b), 3);
}

#[test]
fn test_betti_torus_1() {
    let b = betti_numbers_torus(1); // T^2
    assert_eq!(b, vec![1, 2, 1]);
    assert_eq!(sum_betti(&b), 4);
}

#[test]
fn test_betti_sphere_1() {
    let b = betti_numbers_sphere(1); // S^2
    assert_eq!(b, vec![1, 0, 1]);
}

#[test]
fn test_arnold_cp2() {
    let r = arnold_conjecture(ArnoldManifold::CPn(2));
    assert_eq!(r.guaranteed_fixed_points, 3);
    assert_eq!(r.sum_betti_numbers, 3);
}

#[test]
fn test_arnold_t2() {
    let r = arnold_conjecture(ArnoldManifold::Torus(1));
    assert_eq!(r.guaranteed_fixed_points, 4);
    assert_eq!(r.sum_betti_numbers, 4);
}

#[test]
fn test_arnold_s2() {
    let r = arnold_conjecture(ArnoldManifold::Sphere(1));
    assert_eq!(r.guaranteed_fixed_points, 2);
}

#[test]
fn test_binomial() {
    assert_eq!(binomial(4, 2), 6);
    assert_eq!(binomial(5, 0), 1);
    assert_eq!(binomial(5, 5), 1);
}

#[test]
fn binomial_above_diagonal_is_zero() {
    assert_eq!(binomial(3, 4), 0);
    assert_eq!(binomial(0, 1), 0);
}

#[test]
fn binomial_uses_symmetry() {
    assert_eq!(binomial(10, 7), 120);
    assert_eq!(binomial(10, 3), 120);
    assert_eq!(binomial(52, 5), 2_598_960);
}

#[test]
fn betti_cp3_and_sphere0() {
    assert_eq!(betti_numbers_cp_n(3), vec![1, 0, 1, 0, 1, 0, 1]);
    assert_eq!(betti_numbers_cp_n(0), vec![1]);
    assert_eq!(betti_numbers_sphere(0), vec![1]);
    assert_eq!(betti_numbers_sphere(2), vec![1, 0, 0, 0, 1]);
}

#[test]
fn betti_torus_2_is_row_four_of_pascal() {
    let b = betti_numbers_torus(2); // T^4
    assert_eq!(b, vec![1, 4, 6, 4, 1]);
    assert_eq!(sum_betti(&b), 16);
}

#[test]
fn betti_numbers_satisfy_poincare_duality() {
    for n in 0..5 {
        for b in [betti_numbers_cp_n(n), betti_numbers_sphere(n), betti_numbers_torus(n)] {
            let len = b.len();
            for k in 0..len {
                assert_eq!(b[k], b[len - 1 - k]);
            }
        }
    }
}

#[test]
fn sum_betti_of_empty_and_arbitrary_lists() {
    assert_eq!(sum_betti(&[]), 0);
    assert_eq!(sum_betti(&[3, 0, 5, 7]), 15);
}

#[test]
fn morse_counts() {
    assert_eq!(min_morse_critical_points(ArnoldManifold::CPn(4)), 5);
    assert_eq!(min_morse_critical_points(ArnoldManifold::Sphere(7)), 2);
    assert_eq!(min_morse_critical_points(ArnoldManifold::Torus(3)), 64);
    assert_eq!(min_morse_critical_points(ArnoldManifold::Torus(0)), 1);
}

#[test]
fn strong_bound_dominates_weak_bound() {
    let cases = [
        ArnoldManifold::CPn(0),
        ArnoldManifold::CPn(5),
        ArnoldManifold::Sphere(0),
        ArnoldManifold::Sphere(3),
        ArnoldManifold::Torus(0),
        ArnoldManifold::Torus(3),
    ];
    for m in cases {
        let r = arnold_conjecture(m);
        assert_eq!(r.manifold, m);
        assert_eq!(r.min_morse_criticals, r.guaranteed_fixed_points);
        assert!(r.guaranteed_fixed_points >= r.sum_betti_numbers);
    }
    // For n = 0 the sphere's Betti list has one entry (degrees 0 and 2n coincide),
    // while its Morse count is 2.
    let s0 = arnold_conjecture(ArnoldManifold::Sphere(0));
    assert_eq!(s0.sum_betti_numbers, 1);
    assert_eq!(s0.guaranteed_fixed_points, 2);
}

#[test]
fn torus_sum_is_power_of_two() {
    let r = arnold_conjecture(ArnoldManifold::Torus(5));
    assert_eq!(r.sum_betti_numbers, 1 << 10);
    assert_eq!(r.guaranteed_fixed_points, 1 << 10);
}
