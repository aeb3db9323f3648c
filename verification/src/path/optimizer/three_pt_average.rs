//! The three-point-average reduction strategy. Despite its name it performs
//! the same angle accept/reject test as the angle/distance-floor strategy,
//! with no distance test and no averaging of rejected points: rejected points
//! are simply dropped. That limited behaviour is kept as it stands.

use vstd::prelude::*;

use crate::config::{Optimizer, MAX_PARAM};
use crate::point::{all_valid, P};
use crate::path::optimizer::{scan_points, spec_scan};

verus! {

/// Reduce an already-deduplicated sequence under the three-point-average
/// policy: keep a point exactly when the slope angles on its two sides
/// differ by more than the threshold whose tangent is `dt / SCALE`.
pub fn optimize(dt: i64, pts: Vec<P>) -> (r: Vec<P>)
    requires
        0 <= dt <= MAX_PARAM,
        all_valid(pts@),
    ensures
        r@ == spec_scan(Seq::<P>::empty(), pts@, (Optimizer::ThreePointAverage { dt })),
{
    scan_points(&(Optimizer::ThreePointAverage { dt }), &pts)
}

} // verus!
