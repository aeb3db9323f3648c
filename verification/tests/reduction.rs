//! Deduplication and the reduction strategies.

use pathificate::config::Optimizer;
use pathificate::path::optimizer::{dedup_points, optimize};
use pathificate::point::P;

fn p(x: i64, y: i64) -> P {
    P { x, y }
}

fn pts(v: &[(i64, i64)]) -> Vec<P> {
    v.iter().map(|&(x, y)| p(x, y)).collect()
}

#[test]
fn consecutive_duplicates_are_removed_regardless_of_policy() {
    // [(0,0), (0,0), (1,1)] reduces, after dedup, to [(0,0), (1,1)].
    let input = pts(&[(0, 0), (0, 0), (1_000_000, 1_000_000)]);
    let expect = pts(&[(0, 0), (1_000_000, 1_000_000)]);
    let r1 = optimize(
        &Optimizer::ADFloor { a_floor: 0, d_floor: 0 },
        input.clone(),
    );
    assert_eq!(r1, expect);
    let r2 = optimize(&Optimizer::ThreePointAverage { dt: 0 }, input.clone());
    assert_eq!(r2, expect);
    let r3 = optimize(
        &Optimizer::ADFloor {
            a_floor: 1_000_000_000_000,
            d_floor: 1_000_000_000_000,
        },
        input,
    );
    assert_eq!(r3, expect);
}

#[test]
fn dedup_is_idempotent() {
    let input = pts(&[(0, 0), (0, 0), (1, 1), (1, 1), (1, 1), (0, 0), (2, 2)]);
    let once = dedup_points(&input);
    assert_eq!(once, pts(&[(0, 0), (1, 1), (0, 0), (2, 2)]));
    let twice = dedup_points(&once);
    assert_eq!(twice, once);
}

#[test]
fn near_collinear_point_dropped_sharp_corner_kept() {
    // [(0,0), (1,0.01), (2,0), (3,5), (4,0)] with a_floor 0.1 and d_floor 0:
    // (0,0) and (4,0) are always kept, (1,0.01) is dropped as near-collinear,
    // (3,5) is kept as a sharp direction change.
    let input = pts(&[
        (0, 0),
        (1_000_000, 10_000),
        (2_000_000, 0),
        (3_000_000, 5_000_000),
        (4_000_000, 0),
    ]);
    let r = optimize(
        &Optimizer::ADFloor { a_floor: 100_000, d_floor: 0 },
        input,
    );
    assert_eq!(r.first(), Some(&p(0, 0)));
    assert_eq!(r.last(), Some(&p(4_000_000, 0)));
    assert!(!r.contains(&p(1_000_000, 10_000)));
    assert!(r.contains(&p(3_000_000, 5_000_000)));
    assert_eq!(
        r,
        pts(&[(0, 0), (2_000_000, 0), (3_000_000, 5_000_000), (4_000_000, 0)])
    );
}

#[test]
fn endpoints_survive_an_aggressive_distance_floor() {
    let input = pts(&[
        (0, 0),
        (1_000_000, 1_000_000),
        (2_000_000, 0),
        (3_000_000, 1_000_000),
        (4_000_000, 0),
    ]);
    let r = optimize(
        &Optimizer::ADFloor { a_floor: 0, d_floor: 1_000_000_000_000 },
        input,
    );
    assert_eq!(r, pts(&[(0, 0), (4_000_000, 0)]));
}

#[test]
fn vertical_steps_same_direction_collapse() {
    let input = pts(&[(0, 0), (0, 1_000_000), (0, 2_000_000)]);
    let r = optimize(&Optimizer::ThreePointAverage { dt: 0 }, input);
    assert_eq!(r, pts(&[(0, 0), (0, 2_000_000)]));
}

#[test]
fn vertical_spike_is_kept() {
    // Up then straight back down: a pi turn, kept under any threshold.
    let input = pts(&[(0, 0), (0, 1_000_000), (0, 0)]);
    let r = optimize(
        &Optimizer::ThreePointAverage { dt: 1_000_000_000_000 },
        input.clone(),
    );
    assert_eq!(r, input);
}

#[test]
fn vertical_to_horizontal_transition_is_kept() {
    let input = pts(&[(0, 0), (0, 1_000_000), (1_000_000, 1_000_000)]);
    let r = optimize(
        &Optimizer::ThreePointAverage { dt: 1_000_000_000_000 },
        input.clone(),
    );
    assert_eq!(r, input);
}

#[test]
fn horizontal_to_vertical_transition_is_kept() {
    let input = pts(&[(0, 0), (1_000_000, 0), (1_000_000, 1_000_000)]);
    let r = optimize(
        &Optimizer::ThreePointAverage { dt: 1_000_000_000_000 },
        input.clone(),
    );
    assert_eq!(r, input);
}

#[test]
fn right_angle_turn_exceeds_any_tangent_threshold() {
    // Slopes 1 and -1: 1 + s1*s2 = 0, at least a right-angle turn.
    let input = pts(&[(0, 0), (1_000_000, 1_000_000), (2_000_000, 0)]);
    let r = optimize(
        &Optimizer::ADFloor { a_floor: 1_000_000_000_000, d_floor: 0 },
        input.clone(),
    );
    assert_eq!(r, input);
}

#[test]
fn budget_monotonicity_on_a_monotone_input() {
    // On a monotone polyline without degenerate slopes, raising either floor
    // never increases the point count.
    let input = pts(&[
        (0, 0),
        (1_000_000, 100_000),
        (2_000_000, 300_000),
        (3_000_000, 350_000),
        (4_000_000, 1_000_000),
        (5_000_000, 1_050_000),
        (6_000_000, 3_000_000),
    ]);
    let mut prev_len = usize::MAX;
    for a_floor in [0, 50_000, 200_000, 1_000_000, 1_000_000_000] {
        let r = optimize(&Optimizer::ADFloor { a_floor, d_floor: 0 }, input.clone());
        assert!(r.len() <= prev_len);
        prev_len = r.len();
    }
    let mut prev_len = usize::MAX;
    for d_floor in [0, 500_000, 1_200_000, 2_500_000, 1_000_000_000] {
        let r = optimize(&Optimizer::ADFloor { a_floor: 0, d_floor }, input.clone());
        assert!(r.len() <= prev_len);
        prev_len = r.len();
    }
}

#[test]
fn three_point_average_matches_ad_floor_without_distance_test() {
    let input = pts(&[
        (0, 0),
        (1_000_000, 10_000),
        (2_000_000, 0),
        (3_000_000, 5_000_000),
        (4_000_000, 0),
    ]);
    let a = optimize(&Optimizer::ADFloor { a_floor: 100_000, d_floor: 0 }, input.clone());
    let b = optimize(&Optimizer::ThreePointAverage { dt: 100_000 }, input);
    assert_eq!(a, b);
}
