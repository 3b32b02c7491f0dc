//! Coordinate mapping and benchmark evaluator tests.

use petridish::algorithms::benchmark_fcts::{
    coordinates_from_gene, coordinates_to_gene, get_fct_by_name, BenchmarkFct,
};
use petridish::fixed::{HALF_SCALE, SCALE};

const S: i64 = SCALE as i64;

#[test]
fn benchmark_fcts_test_coordinate_transformation() {
    assert_eq!(coordinates_from_gene((-10, 10), SCALE), 10 * S);
    assert_eq!(coordinates_from_gene((-10, 10), 0), -10 * S);
    assert_eq!(coordinates_from_gene((-10, 10), HALF_SCALE), 0);
}

#[test]
fn fcts_test_coordinate_transformation() {
    assert_eq!(coordinates_from_gene((-10, 10), SCALE), 10 * S);
    assert_eq!(coordinates_from_gene((-10, 10), 0), -10 * S);
    assert_eq!(coordinates_from_gene((-10, 10), HALF_SCALE), 0);
}

#[test]
fn test_coordinate_bijection() {
    // The inverse map on the scope ends and the middle.
    assert_eq!(coordinates_to_gene((-10, 10), -10 * S), 0);
    assert_eq!(coordinates_to_gene((-10, 10), 10 * S), SCALE);
    assert_eq!(coordinates_to_gene((-10, 10), 0), HALF_SCALE);
    // Round trip through both maps.
    for gene in [0u64, 1, 123_456_789, HALF_SCALE, SCALE - 1, SCALE] {
        let coord = coordinates_from_gene((-7, 13), gene);
        assert_eq!(coordinates_to_gene((-7, 13), coord), gene);
    }
}

#[test]
fn benchmark_fcts_test_spherical_benchmarking_fct() {
    let mut fct = match get_fct_by_name(&"spherical".to_string()).unwrap() {
        BenchmarkFct::Spherical(s) => s,
        _ => panic!("Expected Sperical function, got another one"),
    };
    assert_eq!(fct.scope.0, -5);
    assert_eq!(fct.scope.1, 5);
    fct.set_scope((-10, 10));
    assert_eq!(fct.scope.0, -10);
    assert_eq!(fct.scope.1, 10);
    assert_eq!(fct.calc(&vec![SCALE, SCALE]), 200 * SCALE);
    assert_eq!(fct.calc(&vec![SCALE, 0]), 200 * SCALE);
    assert_eq!(fct.calc(&vec![0, SCALE]), 200 * SCALE);
    assert_eq!(fct.calc(&vec![0, 0]), 200 * SCALE);
    assert_eq!(fct.calc(&vec![HALF_SCALE, HALF_SCALE]), 0);
    assert_eq!(fct.calc(&vec![SCALE, HALF_SCALE]), 100 * SCALE);
}

#[test]
fn fcts_test_spherical_benchmarking_fct() {
    let mut fct = match get_fct_by_name(&"spherical".to_string()).unwrap() {
        BenchmarkFct::Spherical(s) => s,
        _ => panic!("Expected Sperical function, got another one"),
    };
    assert_eq!(fct.scope.0, -5);
    assert_eq!(fct.scope.1, 5);
    fct.set_scope((-10, 10));
    assert_eq!(fct.scope.0, -10);
    assert_eq!(fct.scope.1, 10);
    assert_eq!(fct.calc(&vec![SCALE, SCALE]), 200 * SCALE);
    assert_eq!(fct.calc(&vec![SCALE, 0]), 200 * SCALE);
    assert_eq!(fct.calc(&vec![0, SCALE]), 200 * SCALE);
    assert_eq!(fct.calc(&vec![0, 0]), 200 * SCALE);
    assert_eq!(fct.calc(&vec![HALF_SCALE, HALF_SCALE]), 0);
    assert_eq!(fct.calc(&vec![SCALE, HALF_SCALE]), 100 * SCALE);
}

#[test]
fn test_unknown_benchmark_function() {
    assert!(get_fct_by_name(&"styblinski".to_string()).is_err());
}
