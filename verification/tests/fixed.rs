use pathtracer::fp::{fp_div, fp_mul, fp_sqrt, isqrt, SCALE};

#[test]
fn product_scales_by_one() {
    assert_eq!(fp_mul(3 * SCALE, SCALE), 3 * SCALE);
    assert_eq!(fp_mul(SCALE / 2, SCALE / 2), SCALE / 4);
    assert_eq!(fp_mul(0, 12345), 0);
}

#[test]
fn product_rounds_toward_zero() {
    // -1.5 in fixed units truncates to -1, not down to -2.
    assert_eq!(fp_mul(-3, SCALE / 2), -1);
    assert_eq!(fp_mul(3, SCALE / 2), 1);
    assert_eq!(fp_mul(-3, -(SCALE / 2)), 1);
}

#[test]
fn quotient_inverts_product() {
    assert_eq!(fp_div(3 * SCALE, SCALE), 3 * SCALE);
    assert_eq!(fp_div(SCALE, 2 * SCALE), SCALE / 2);
    assert_eq!(fp_div(-SCALE, 2 * SCALE), -(SCALE / 2));
}

#[test]
fn integer_square_root_rounds_down() {
    assert_eq!(isqrt(0), 0);
    assert_eq!(isqrt(15), 3);
    assert_eq!(isqrt(16), 4);
    assert_eq!(isqrt(u64::MAX as u128 * u64::MAX as u128), u64::MAX);
    assert_eq!(isqrt(u64::MAX as u128 * u64::MAX as u128 - 1), u64::MAX - 1);
}

#[test]
fn fixed_square_root_of_squares() {
    assert_eq!(fp_sqrt(4 * SCALE), 2 * SCALE);
    assert_eq!(fp_sqrt(SCALE), SCALE);
    assert_eq!(fp_sqrt(0), 0);
    // sqrt(2) in fixed units, rounded down.
    assert_eq!(fp_sqrt(2 * SCALE), 92681);
}
