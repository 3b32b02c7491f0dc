//! Tests of the running-mean accumulators.

use petridish::utils::{MeanCompute, MeanComputeVec};

// One unit on the fixed-point scale.
const S: u64 = 1_000_000_000;

#[test]
fn test_average_util() {
    let mut avg = MeanCompute::new();
    assert_eq!(avg.add_el(2 * S, S), 2 * S);
    assert_eq!(avg.add_el(S, S), S + S / 2);
    assert_eq!(avg.add_el(4 * S + S / 2, 2 * S), 3 * S);
    assert_eq!(avg.add_el(9 * S, 4 * S), 6 * S);
}

#[test]
fn test_average_vec_util() {
    let mut avg = MeanComputeVec::new(3);
    avg.add_el(&vec![S, S, S], S);
    assert_eq!(avg.result, vec![S, S, S]);
    avg.add_el(&vec![2 * S, S, 0], S);
    assert_eq!(avg.result, vec![S + S / 2, S, S / 2]);
}
