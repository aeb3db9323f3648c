//! The flattener, the document-tree search, the budgeted pipeline, and the
//! threshold search.

use pathificate::config::{AircraftConfig, Optimizer};
use pathificate::error::PathError;
use pathificate::minmax::minmax;
use pathificate::path::pathificate;
use pathificate::path::points::{points_on_path, Segment};
use pathificate::path::utils::{find_path, SvgGroup, SvgNode, SvgPath};
use pathificate::point::P;

fn p(x: i64, y: i64) -> P {
    P { x, y }
}

fn pts(v: &[(i64, i64)]) -> Vec<P> {
    v.iter().map(|&(x, y)| p(x, y)).collect()
}

fn cfg(optimizer: Optimizer) -> AircraftConfig {
    AircraftConfig {
        f: String::from("plane.svg"),
        attr: String::from("someone"),
        w: 2_000_000,
        l: 2_000_000,
        optimizer,
    }
}

#[test]
fn flatten_lines_and_close_with_y_flip() {
    let segs = vec![
        Segment::MoveTo(p(0, 0)),
        Segment::LineTo(p(2_000_000, 0)),
        Segment::LineTo(p(2_000_000, 2_000_000)),
        Segment::Close,
    ];
    let r = points_on_path(&segs);
    assert_eq!(
        r,
        pts(&[
            (0, 0),
            (2_000_000, 0),
            (2_000_000, 0),
            (2_000_000, -2_000_000),
            (2_000_000, -2_000_000),
            (0, 0),
        ])
    );
}

#[test]
fn flatten_quadratic_emits_midpoint_sample() {
    let segs = vec![
        Segment::MoveTo(p(0, 0)),
        Segment::QuadTo(p(2_000_000, 2_000_000), p(4_000_000, 0)),
    ];
    let r = points_on_path(&segs);
    assert_eq!(r, pts(&[(0, 0), (2_000_000, -1_000_000), (4_000_000, 0)]));
}

#[test]
fn flatten_cubic_emits_midpoint_sample() {
    let segs = vec![
        Segment::MoveTo(p(0, 0)),
        Segment::CubicTo(
            p(0, 10_000_000),
            p(10_000_000, 10_000_000),
            p(10_000_000, 0),
        ),
    ];
    let r = points_on_path(&segs);
    assert_eq!(r, pts(&[(0, 0), (5_000_000, -7_500_000), (10_000_000, 0)]));
}

#[test]
fn find_path_picks_first_stroked_path() {
    let wanted = vec![Segment::MoveTo(p(1, 2))];
    let nodes = vec![
        SvgNode::Path(SvgPath { has_stroke: false, segments: vec![Segment::Close] }),
        SvgNode::Path(SvgPath { has_stroke: true, segments: wanted.clone() }),
    ];
    match find_path(&nodes) {
        Ok(path) => {
            assert!(path.has_stroke);
            assert_eq!(path.segments, wanted);
        }
        Err(e) => panic!("expected a path, got {:?}", e),
    }
}

#[test]
fn find_path_descends_into_nested_groups() {
    let wanted = vec![Segment::MoveTo(p(3, 4)), Segment::Close];
    let nodes = vec![SvgNode::Group(SvgGroup {
        children: vec![SvgNode::Group(SvgGroup {
            children: vec![SvgNode::Path(SvgPath {
                has_stroke: true,
                segments: wanted.clone(),
            })],
        })],
    })];
    match find_path(&nodes) {
        Ok(path) => assert_eq!(path.segments, wanted),
        Err(e) => panic!("expected a path, got {:?}", e),
    }
}

#[test]
fn find_path_returns_first_group_result_outright() {
    // A fruitless group is not resumed: the sibling stroked path after it is
    // never reached.
    let nodes = vec![
        SvgNode::Group(SvgGroup {
            children: vec![SvgNode::Path(SvgPath { has_stroke: false, segments: vec![] })],
        }),
        SvgNode::Path(SvgPath { has_stroke: true, segments: vec![] }),
    ];
    assert!(matches!(find_path(&nodes), Err(PathError::NoPath)));
}

#[test]
fn find_path_rejects_images_text_and_empty_documents() {
    assert!(matches!(
        find_path(&vec![SvgNode::Image]),
        Err(PathError::ImageUnsupported)
    ));
    assert!(matches!(
        find_path(&vec![SvgNode::Text]),
        Err(PathError::TextUnsupported)
    ));
    assert!(matches!(find_path(&vec![]), Err(PathError::NoPath)));
}

#[test]
fn pathificate_maps_to_world_and_keeps_budget() {
    let c = cfg(Optimizer::ADFloor { a_floor: 0, d_floor: 0 });
    let input = pts(&[(1_000_000, 1_000_000)]);
    let r = pathificate(
        String::from("jet"),
        &c,
        10,
        &input,
        2_000_000,
        2_000_000,
    );
    match r {
        Ok(file) => {
            // Pixel (1, 1) in a 2x2 image of a 2x2 world recenters to the
            // origin horizontally and half an image up vertically.
            assert_eq!(file.points, pts(&[(0, 2_000_000)]));
            assert_eq!(file.aircraft_types, vec![String::from("jet")]);
            assert_eq!(file.attribution, String::from("someone"));
        }
        Err(e) => panic!("expected success, got {:?}", e),
    }
}

#[test]
fn pathificate_reports_budget_violation_with_counts() {
    let c = cfg(Optimizer::ADFloor { a_floor: 0, d_floor: 0 });
    let input = pts(&[(0, 0), (1_000_000, 1_000_000), (2_000_000, 0)]);
    let r = pathificate(String::from("jet"), &c, 1, &input, 2_000_000, 2_000_000);
    match r {
        Err(PathError::TooManyPoints { achieved, limit }) => {
            assert_eq!(achieved, 3);
            assert_eq!(limit, 1);
        }
        other => panic!("expected a budget violation, got {:?}", other.map(|f| f.points)),
    }
    assert!(!PathError::TooManyPoints { achieved: 3, limit: 1 }
        .message()
        .is_empty());
}

#[test]
fn pathificate_reports_coordinate_overflow() {
    let c = AircraftConfig {
        f: String::from("plane.svg"),
        attr: String::from("someone"),
        w: 1_000_000_000_000,
        l: 0,
        optimizer: Optimizer::ADFloor { a_floor: 0, d_floor: 0 },
    };
    let input = pts(&[(1_000_000_000_000, 0)]);
    let r = pathificate(String::from("jet"), &c, 10, &input, 1, 1);
    assert!(matches!(r, Err(PathError::CoordinateOverflow)));
}

#[test]
fn minmax_reports_origin_when_budget_is_loose() {
    // With a budget at least the input length, the zero pair is feasible and
    // minimal, and the policy is nudged one step up: the margin added to the
    // distance floor reuses the angle step.
    let mut c = cfg(Optimizer::ADFloor { a_floor: 0, d_floor: 0 });
    let input = pts(&[(0, 0), (1_000_000, 1_000_000), (2_000_000, 0)]);
    let r = minmax(&mut c, &input, 10, 2, 10, 5, 3);
    assert_eq!(r, Some((0, 0)));
    assert_eq!(c.optimizer, Optimizer::ADFloor { a_floor: 2, d_floor: 2 });
}

#[test]
fn minmax_reports_absence_when_no_candidate_fits() {
    // Any reduction keeps at least the two endpoints, so a budget of one is
    // infeasible for every candidate: the result is absent and the policy is
    // left untouched.
    let mut c = cfg(Optimizer::ADFloor { a_floor: 7, d_floor: 9 });
    let input = pts(&[(0, 0), (1_000_000, 1_000_000), (2_000_000, 0)]);
    let r = minmax(&mut c, &input, 10, 2, 10, 5, 1);
    assert_eq!(r, None);
    assert_eq!(c.optimizer, Optimizer::ADFloor { a_floor: 7, d_floor: 9 });
}

#[test]
fn minmax_skips_other_policy_families() {
    let mut c = cfg(Optimizer::ThreePointAverage { dt: 5 });
    let input = pts(&[(0, 0), (1_000_000, 1_000_000)]);
    let r = minmax(&mut c, &input, 10, 2, 10, 5, 100);
    assert_eq!(r, None);
    assert_eq!(c.optimizer, Optimizer::ThreePointAverage { dt: 5 });
}

#[test]
fn minmax_sweeps_until_a_candidate_fits() {
    // A genuine corner with slopes +-0.5: the angle difference has tangent
    // 4/3, so the middle point is dropped only once the probe threshold
    // (one a_step above the candidate) reaches it. With a_step 0.5 the first
    // feasible candidate under budget 2 is a_floor = 1.
    let mut c = cfg(Optimizer::ADFloor { a_floor: 0, d_floor: 0 });
    let input = pts(&[(0, 0), (1_000_000, 500_000), (2_000_000, 0)]);
    let r = minmax(&mut c, &input, 2_000_000, 500_000, 0, 1, 2);
    assert_eq!(r, Some((1_000_000, 0)));
    assert_eq!(
        c.optimizer,
        Optimizer::ADFloor { a_floor: 1_500_000, d_floor: 500_000 }
    );
}

#[test]
fn minmax_prefers_the_smallest_threshold_sum() {
    // Budget 2 forces thresholds loose enough to drop the middle point of a
    // shallow corner; the winner is the first feasible pair of minimal sum.
    let mut c = cfg(Optimizer::ADFloor { a_floor: 0, d_floor: 0 });
    let input = pts(&[(0, 0), (1_000_000, 10_000), (2_000_000, 0)]);
    let r = minmax(&mut c, &input, 1_000_000, 100_000, 1_000_000, 100_000, 2);
    // The probe at (0, 0) uses thresholds one step up (tangent 0.1, distance
    // 0.1), which already drops the near-collinear middle point.
    assert_eq!(r, Some((0, 0)));
    assert_eq!(
        c.optimizer,
        Optimizer::ADFloor { a_floor: 100_000, d_floor: 100_000 }
    );
}
