//! Point arithmetic and Bezier evaluation.

use pathificate::bezier::{cubic, quad};
use pathificate::error::PathError;
use pathificate::point::{P, SCALE};

fn p(x: i64, y: i64) -> P {
    P { x, y }
}

#[test]
fn quad_endpoint_exactness() {
    let p0 = p(123_456, -789_012);
    let p1 = p(5_000_000, 9_000_000);
    let p2 = p(-3_000_000, 42);
    assert_eq!(quad(p0, p1, p2, 0), Ok(p0));
    assert_eq!(quad(p0, p1, p2, SCALE), Ok(p2));
}

#[test]
fn cubic_endpoint_exactness() {
    let p0 = p(-1, 2);
    let p1 = p(1_000_000, -2_000_000);
    let p2 = p(7, -7);
    let p3 = p(999_999_999, -999_999_999);
    assert_eq!(cubic(p0, p1, p2, p3, 0), Ok(p0));
    assert_eq!(cubic(p0, p1, p2, p3, SCALE), Ok(p3));
}

#[test]
fn cubic_midpoint_exact_bernstein_value() {
    // (1-.5)^3*(0,0) + 3*(1-.5)^2*.5*(0,10) + 3*(1-.5)*.5^2*(10,10) + .5^3*(10,0)
    // = (5, 7.5), in micro-units (5_000_000, 7_500_000).
    let r = cubic(
        p(0, 0),
        p(0, 10_000_000),
        p(10_000_000, 10_000_000),
        p(10_000_000, 0),
        500_000,
    );
    assert_eq!(r, Ok(p(5_000_000, 7_500_000)));
}

#[test]
fn quad_midpoint_exact_value() {
    // .25*(0,0) + .5*(2,2) + .25*(4,0) = (2, 1).
    let r = quad(p(0, 0), p(2_000_000, 2_000_000), p(4_000_000, 0), 500_000);
    assert_eq!(r, Ok(p(2_000_000, 1_000_000)));
}

#[test]
fn bezier_parameter_out_of_range_is_rejected() {
    let a = p(0, 0);
    assert_eq!(quad(a, a, a, -1), Err(PathError::OutOfRange));
    assert_eq!(quad(a, a, a, SCALE + 1), Err(PathError::OutOfRange));
    assert_eq!(cubic(a, a, a, a, -5), Err(PathError::OutOfRange));
    assert_eq!(cubic(a, a, a, a, SCALE + 7), Err(PathError::OutOfRange));
    assert!(!PathError::OutOfRange.message().is_empty());
}

#[test]
fn distance_is_floor_of_euclidean_distance() {
    // A 3-4-5 triangle in whole units.
    assert_eq!(p(0, 0).distance(&p(3_000_000, 4_000_000)), 5_000_000);
    // sqrt(2) in micro-units rounds down.
    assert_eq!(p(0, 0).distance(&p(1, 1)), 1);
    assert_eq!(p(5, 5).distance(&p(5, 5)), 0);
}

#[test]
fn dist_sq_is_exact() {
    assert_eq!(p(1, 2).dist_sq(&p(4, 6)), 25);
    assert_eq!(p(-3, 0).dist_sq(&p(0, 4)), 25);
}

#[test]
fn add_and_scale() {
    assert_eq!(p(1, 2).add(p(3, 4)), p(4, 6));
    // 0.5 * (2, -3) = (1, -1.5).
    assert_eq!(
        p(2_000_000, -3_000_000).scale(500_000),
        p(1_000_000, -1_500_000)
    );
    // Truncation is toward zero on both signs.
    assert_eq!(p(3, 0).scale(500_000), p(1, 0));
    assert_eq!(p(-3, 0).scale(500_000), p(-1, 0));
}
