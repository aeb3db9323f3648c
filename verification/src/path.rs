//! Turning a flat point sequence into a reduced point file under a budget:
//! scale to world coordinates, reduce under the entity's fidelity policy,
//! and enforce the point budget.

use vstd::prelude::*;

pub mod optimizer;
pub mod points;
pub mod utils;

use crate::config::{AircraftConfig, AircraftPointFile};
use crate::error::PathError;
use crate::path::optimizer::{optimize, spec_reduce};
use crate::point::{all_valid, div_i128, div_tz, P, MAX_COORD};

verus! {

/// An X coordinate mapped to world space: recenter on the image middle, then
/// scale by world-units-per-pixel. `(x - iw/2) * (w / iw)` is evaluated
/// exactly as `((2x - iw) * w) / (2 * iw)`, truncating toward zero.
pub open spec fn spec_world_x(x: int, iw: int, w: int) -> int
    recommends
        iw > 0,
{
    div_tz((2 * x - iw) * w, 2 * iw)
}

/// A Y coordinate mapped to world space, recentered half an image height up.
pub open spec fn spec_world_y(y: int, ih: int, l: int) -> int
    recommends
        ih > 0,
{
    div_tz((2 * y + ih) * l, 2 * ih)
}

/// Whether every point of the sequence stays within the supported coordinate
/// range once mapped to world space.
pub open spec fn world_in_range(pts: Seq<P>, iw: int, ih: int, w: int, l: int) -> bool {
    forall|i: int|
        0 <= i < pts.len() ==> -MAX_COORD <= spec_world_x((#[trigger] pts[i]).x as int, iw, w)
            <= MAX_COORD && -MAX_COORD <= spec_world_y(pts[i].y as int, ih, l) <= MAX_COORD
}

/// The whole sequence mapped to world space.
pub open spec fn spec_world_points(pts: Seq<P>, iw: int, ih: int, w: int, l: int) -> Seq<P> {
    pts.map_values(
        |p: P|
            P {
                x: spec_world_x(p.x as int, iw, w) as i64,
                y: spec_world_y(p.y as int, ih, l) as i64,
            },
    )
}

/// Map extracted pixel-frame points to world coordinates. A point whose
/// image leaves the supported fixed-point range is reported, not wrapped.
fn map_to_world(pts: &Vec<P>, iw: i64, ih: i64, w: i64, l: i64) -> (r: Result<Vec<P>, PathError>)
    requires
        0 < iw <= MAX_COORD,
        0 < ih <= MAX_COORD,
        -MAX_COORD <= w <= MAX_COORD,
        -MAX_COORD <= l <= MAX_COORD,
        all_valid(pts@),
    ensures
        r is Ok <==> world_in_range(pts@, iw as int, ih as int, w as int, l as int),
        (r matches Ok(v) ==> v@ == spec_world_points(pts@, iw as int, ih as int, w as int, l as int)
            && all_valid(v@)),
        (r matches Err(e) ==> e == PathError::CoordinateOverflow),
{
    let mut out: Vec<P> = Vec::new();
    let mut i: usize = 0;
    let lim: i128 = 1_000_000_000_000;
    while i < pts.len()
        invariant
            i <= pts@.len(),
            0 < iw <= MAX_COORD,
            0 < ih <= MAX_COORD,
            -MAX_COORD <= w <= MAX_COORD,
            -MAX_COORD <= l <= MAX_COORD,
            all_valid(pts@),
            lim == MAX_COORD,
            out@.len() == i,
            forall|k: int|
                0 <= k < i ==> -MAX_COORD <= spec_world_x(
                    (#[trigger] pts@[k]).x as int,
                    iw as int,
                    w as int,
                ) <= MAX_COORD && -MAX_COORD <= spec_world_y(pts@[k].y as int, ih as int, l as int)
                    <= MAX_COORD,
            forall|k: int|
                0 <= k < i ==> (#[trigger] out@[k]) == (P {
                    x: spec_world_x(pts@[k].x as int, iw as int, w as int) as i64,
                    y: spec_world_y(pts@[k].y as int, ih as int, l as int) as i64,
                }),
            all_valid(out@),
        decreases pts@.len() - i,
    {
        let p = pts[i];
        let cx: i128 = 2 * (p.x as i128) - (iw as i128);
        let cy: i128 = 2 * (p.y as i128) + (ih as i128);
        proof {
            assert(-3_000_000_000_000_000_000_000_000 <= cx * w <= 3_000_000_000_000_000_000_000_000
                && -3_000_000_000_000_000_000_000_000 <= cy * l
                <= 3_000_000_000_000_000_000_000_000) by (nonlinear_arith)
                requires
                    -3_000_000_000_000 <= cx <= 3_000_000_000_000,
                    -3_000_000_000_000 <= cy <= 3_000_000_000_000,
                    -1_000_000_000_000 <= w <= 1_000_000_000_000,
                    -1_000_000_000_000 <= l <= 1_000_000_000_000,
            ;
        }
        let qx = div_i128(cx * (w as i128), 2 * (iw as i128));
        let qy = div_i128(cy * (l as i128), 2 * (ih as i128));
        if qx < -lim || qx > lim || qy < -lim || qy > lim {
            return Err(PathError::CoordinateOverflow);
        }
        out.push(P { x: qx as i64, y: qy as i64 });
        i = i + 1;
    }
    proof {
        assert(out@ =~= spec_world_points(pts@, iw as int, ih as int, w as int, l as int));
    }
    Ok(out)
}

/// Produce one entity's point file: map the extracted points to world space,
/// reduce them under the entity's policy, and check the point budget. A
/// reduced sequence longer than `max_points` is a reported policy violation,
/// never a silent truncation.
pub fn pathificate(
    ac_typ: String,
    config: &AircraftConfig,
    max_points: usize,
    points: &Vec<P>,
    image_w: i64,
    image_h: i64,
) -> (r: Result<AircraftPointFile, PathError>)
    requires
        config.optimizer.valid(),
        0 < image_w <= MAX_COORD,
        0 < image_h <= MAX_COORD,
        -MAX_COORD <= config.w <= MAX_COORD,
        -MAX_COORD <= config.l <= MAX_COORD,
        all_valid(points@),
    ensures
        ({
            let world = spec_world_points(
                points@,
                image_w as int,
                image_h as int,
                config.w as int,
                config.l as int,
            );
            let reduced = spec_reduce(config.optimizer, world);
            let in_range = world_in_range(
                points@,
                image_w as int,
                image_h as int,
                config.w as int,
                config.l as int,
            );
            &&& (r is Ok <==> in_range && reduced.len() <= max_points)
            &&& (r matches Ok(f) ==> f.points@ == reduced && f.aircraft_types@.len() == 1
                && f.aircraft_types@[0] == ac_typ && f.attribution == config.attr)
            &&& (!in_range ==> r == Err::<AircraftPointFile, PathError>(
                PathError::CoordinateOverflow,
            ))
            &&& (in_range && reduced.len() > max_points ==> r == Err::<
                AircraftPointFile,
                PathError,
            >(
                (PathError::TooManyPoints { achieved: reduced.len() as usize, limit: max_points }),
            ))
        }),
{
    let world = match map_to_world(points, image_w, image_h, config.w, config.l) {
        Ok(v) => v,
        Err(e) => {
            return Err(e);
        },
    };
    let reduced = optimize(&config.optimizer, world);
    if reduced.len() > max_points {
        return Err(PathError::TooManyPoints { achieved: reduced.len(), limit: max_points });
    }
    let mut aircraft_types: Vec<String> = Vec::new();
    aircraft_types.push(ac_typ);
    Ok(AircraftPointFile { points: reduced, aircraft_types, attribution: config.attr.clone() })
}

} // verus!
