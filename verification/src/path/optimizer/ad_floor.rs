//! The angle/distance-floor reduction strategy: a candidate point is dropped
//! when it lies closer than `d_floor` to the last accepted point or to the
//! next pending point, and kept only when the slope angles on its two sides
//! differ by more than the threshold whose tangent is `a_floor / SCALE`.

use vstd::prelude::*;

use crate::config::{Optimizer, MAX_PARAM};
use crate::point::{all_valid, P};
use crate::path::optimizer::{scan_points, spec_scan};

verus! {

/// Reduce an already-deduplicated sequence under the angle/distance-floor
/// policy.
pub fn optimize(a_floor: i64, d_floor: i64, pts: Vec<P>) -> (r: Vec<P>)
    requires
        0 <= a_floor <= MAX_PARAM,
        0 <= d_floor <= MAX_PARAM,
        all_valid(pts@),
    ensures
        r@ == spec_scan(Seq::<P>::empty(), pts@, (Optimizer::ADFloor { a_floor, d_floor })),
{
    scan_points(&(Optimizer::ADFloor { a_floor, d_floor }), &pts)
}

} // verus!
