//! Test helpers.

/// Whether two values are approximately equal, within `eps`.
fn approx_eq(a: f64, b: f64, eps: f64) -> bool {
    (a - b).abs() < eps
}

#[test]
fn test_assert_approx_eq() {
    assert!(approx_eq(1.0, 1.0000001, 1e-6));
    assert!(approx_eq(1.0, 1.1, 0.2));
}
