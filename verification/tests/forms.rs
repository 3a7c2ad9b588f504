use lau_symplectic_topology::text::decimal_string;
use lau_symplectic_topology::{
    consistent_state_manifolds,
    admissible_form_shape, contains_str, intersection_number_from_rank,
    moment_map_condition_holds, standard_form_matrix, CapacityKind, LagrangianKind,
    LagrangianSubmanifold,
};

#[test]
fn test_standard_form_is_skew() {
    let m = standard_form_matrix(2);
    for i in 0..4 {
        for j in 0..4 {
            assert_eq!(m[i][j] + m[j][i], 0);
        }
    }
}

#[test]
fn test_standard_form_2d() {
    let m = standard_form_matrix(1);
    assert_eq!(m.len(), 2);
    assert_eq!(m[0][1], 1);
    assert_eq!(m[1][0], -1);
}

#[test]
fn standard_form_is_signed_permutation() {
    let n = 3;
    let m = standard_form_matrix(n);
    assert_eq!(m.len(), 2 * n);
    for i in 0..2 * n {
        assert_eq!(m[i].len(), 2 * n);
        let nonzero: Vec<usize> = (0..2 * n).filter(|&j| m[i][j] != 0).collect();
        assert_eq!(nonzero.len(), 1);
        let partner = if i < n { i + n } else { i - n };
        assert_eq!(nonzero[0], partner);
        assert_eq!(m[i][partner], if i < n { 1 } else { -1 });
    }
    assert!(standard_form_matrix(0).is_empty());
}

#[test]
fn test_reject_odd_dimension() {
    assert!(!admissible_form_shape(3, 3));
}

#[test]
fn form_shapes() {
    assert!(admissible_form_shape(2, 2));
    assert!(admissible_form_shape(4, 4));
    assert!(!admissible_form_shape(0, 0));
    assert!(!admissible_form_shape(2, 4));
}

#[test]
fn test_moment_map_condition_abelian() {
    assert!(moment_map_condition_holds("S¹"));
}

#[test]
fn moment_map_condition_by_group_name() {
    assert!(moment_map_condition_holds("T^3"));
    assert!(moment_map_condition_holds("a circle S¹ x S¹"));
    assert!(!moment_map_condition_holds("SU(2)"));
    assert!(!moment_map_condition_holds("S1"));
    assert!(!moment_map_condition_holds(""));
}

#[test]
fn substring_search() {
    assert!(contains_str("abc", ""));
    assert!(contains_str("abc", "abc"));
    assert!(contains_str("xxabcx", "abc"));
    assert!(!contains_str("ab", "abc"));
    assert!(!contains_str("abxc", "abc"));
    assert!(contains_str("aab", "ab"));
}

#[test]
fn zero_section_and_fiber() {
    let z = LagrangianSubmanifold::zero_section(2);
    assert_eq!(z.dimension, 2);
    assert_eq!(z.kind, LagrangianKind::ZeroSection);
    assert_eq!(z.name, "Zero section in R^4");
    let f = LagrangianSubmanifold::fiber(5);
    assert_eq!(f.dimension, 5);
    assert_eq!(f.kind, LagrangianKind::Fiber);
    assert_eq!(f.name, "Fiber in R^10");
}

#[test]
fn exact_one_form_graph() {
    let g = LagrangianSubmanifold::exact_one_form(3, "f");
    assert_eq!(g.dimension, 3);
    assert_eq!(g.kind, LagrangianKind::ExactOneForm);
    assert_eq!(g.name, "Graph of d(f) in R^6");
}

#[test]
fn intersection_numbers() {
    // transverse: the combined 2n x 2n matrix has full rank
    assert_eq!(intersection_number_from_rank(2, 4), 1);
    // equal Lagrangians in R^4 meet in a plane
    assert_eq!(intersection_number_from_rank(2, 2), 2);
    assert_eq!(intersection_number_from_rank(3, 5), 1);
    assert_eq!(intersection_number_from_rank(3, 0), 6);
}

#[test]
fn capacity_kinds_are_distinct() {
    assert_ne!(CapacityKind::GromovWidth, CapacityKind::EkelandHofer);
    assert_ne!(CapacityKind::EkelandHofer, CapacityKind::HoferZehnder);
    assert_eq!(CapacityKind::HoferZehnder, CapacityKind::HoferZehnder);
}

#[test]
fn decimal_strings() {
    assert_eq!(decimal_string(0), "0");
    assert_eq!(decimal_string(7), "7");
    assert_eq!(decimal_string(10), "10");
    assert_eq!(decimal_string(1203), "1203");
    assert_eq!(decimal_string(usize::MAX), usize::MAX.to_string());
}

#[test]
fn test_consistent_state_manifolds() {
    let lag = consistent_state_manifolds(2);
    assert_eq!(lag.len(), 2);
    assert_eq!(lag[0].dimension, 2);
    assert_eq!(lag[0].kind, LagrangianKind::ZeroSection);
    assert_eq!(lag[1].kind, LagrangianKind::Fiber);
    assert_eq!(lag[1].name, "Fiber in R^4");
}
