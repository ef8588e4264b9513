//! Fixed-point scalar and vector arithmetic.

use particles_system::fx;
use particles_system::units;
use particles_system::vector::Vector3;
use particles_system::Sphere;

const S: i64 = 1_000_000_000;
const MAX: i64 = 4_611_686_018_427_387_904;

#[test]
fn add_and_sub_exact() {
    assert_eq!(fx::fx_add(2 * S, 3 * S), Some(5 * S));
    assert_eq!(fx::fx_sub(2 * S, 3 * S), Some(-S));
    assert_eq!(fx::fx_add(-7, 7), Some(0));
}

#[test]
fn add_overflow_is_none() {
    assert_eq!(fx::fx_add(MAX, 1), None);
    assert_eq!(fx::fx_sub(-MAX, 1), None);
    assert_eq!(fx::fx_add(MAX, -1), Some(MAX - 1));
}

#[test]
fn mul_scales_and_truncates_toward_zero() {
    // 2.0 * 3.0 == 6.0
    assert_eq!(fx::fx_mul(2 * S, 3 * S), Some(6 * S));
    // 1.5 * 1.5 == 2.25
    assert_eq!(fx::fx_mul(S + S / 2, S + S / 2), Some(2 * S + S / 4));
    // tiny magnitudes truncate toward zero from both sides
    assert_eq!(fx::fx_mul(1, 1), Some(0));
    assert_eq!(fx::fx_mul(-1, 1), Some(0));
    // 3 units * 0.5 = 1.5 units, truncated to 1; negated input gives -1
    assert_eq!(fx::fx_mul(3, S / 2), Some(1));
    assert_eq!(fx::fx_mul(-3, S / 2), Some(-1));
}

#[test]
fn mul_overflow_is_none() {
    assert_eq!(fx::fx_mul(MAX, 2 * S), None);
}

#[test]
fn div_is_exact_quotient_truncated() {
    // 6.0 / 2.0 == 3.0
    assert_eq!(fx::fx_div(6 * S, 2 * S), Some(3 * S));
    // 1.0 / 3.0 == 0.333333333
    assert_eq!(fx::fx_div(S, 3 * S), Some(333_333_333));
    // -1.0 / 3.0 truncates toward zero
    assert_eq!(fx::fx_div(-S, 3 * S), Some(-333_333_333));
}

#[test]
fn half_truncates_toward_zero() {
    assert_eq!(fx::fx_half(5), 2);
    assert_eq!(fx::fx_half(-5), -2);
    assert_eq!(fx::fx_half(4 * S), 2 * S);
}

#[test]
fn sqrt_of_perfect_squares() {
    // sqrt(4.0) == 2.0
    assert_eq!(fx::fx_sqrt(4 * S), 2 * S);
    // sqrt(0.25) == 0.5
    assert_eq!(fx::fx_sqrt(S / 4), S / 2);
    assert_eq!(fx::fx_sqrt(0), 0);
    // sqrt(2.0) truncated to the unit: 1.414213562...
    assert_eq!(fx::fx_sqrt(2 * S), 1_414_213_562);
}

#[test]
fn vector_componentwise_ops() {
    let a = Vector3::<units::Position>::new(S, 2 * S, 3 * S);
    let b = Vector3::<units::Position>::new(S, S, S);
    let sum = a.plus(&b).unwrap();
    assert_eq!((sum.x, sum.y, sum.z), (2 * S, 3 * S, 4 * S));
    let diff = a.minus(&b).unwrap();
    assert_eq!((diff.x, diff.y, diff.z), (0, S, 2 * S));
    let neg = a.negate();
    assert_eq!((neg.x, neg.y, neg.z), (-S, -2 * S, -3 * S));
    let scaled = a.scale(S / 2).unwrap();
    assert_eq!((scaled.x, scaled.y, scaled.z), (S / 2, S, 3 * S / 2));
    let halved = a.halved();
    assert_eq!((halved.x, halved.y, halved.z), (S / 2, S, 3 * S / 2));
    let divided = a.div_scalar(2 * S).unwrap();
    assert_eq!((divided.x, divided.y, divided.z), (S / 2, S, 3 * S / 2));
}

#[test]
fn vector_dot_product() {
    let a = Vector3::<units::Position>::new(S, 2 * S, 3 * S);
    let b = Vector3::<units::Position>::new(S, S, S);
    assert_eq!(a.dot(&b), Some(6 * S));
    let big = Vector3::<units::Position>::new(MAX, MAX, MAX);
    assert_eq!(big.dot(&big), None);
}

#[test]
fn vector_overflow_is_none() {
    let a = Vector3::<units::Velocity>::new(MAX, 0, 0);
    let b = Vector3::<units::Velocity>::new(1, 0, 0);
    assert_eq!(a.plus(&b), None);
    assert_eq!(a.scale(2 * S), None);
}

#[test]
fn sphere_inside_test_is_strict() {
    let sphere = Sphere::<units::Position> {
        center: Vector3::new(0, 0, 0),
        radius: S,
    };
    let inside = Vector3::new(S / 2, 0, 0);
    let on_boundary = Vector3::new(S, 0, 0);
    let outside = Vector3::new(2 * S, 0, 0);
    assert!(sphere.is_inside(&inside));
    assert!(!sphere.is_inside(&on_boundary));
    assert!(!sphere.is_inside(&outside));
}
