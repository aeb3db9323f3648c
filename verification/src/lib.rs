//! Reduction of dense vector-outline paths to minimal point sequences.
//!
//! The crate flattens curved path segments with fixed-sample Bezier
//! evaluation, collapses the resulting point sequence under a caller-chosen
//! fidelity policy, and can search for the loosest thresholds that keep the
//! reduced sequence under a point budget.
//!
//! All geometry uses fixed-point arithmetic: a coordinate, length or
//! threshold is an `i64` counting micro-units (`SCALE` units make one).
//! Angle thresholds are the tangent of the angle, in the same micro-units,
//! so every accept/reject test is exact integer arithmetic.

use vstd::prelude::*;

pub mod bezier;
pub mod config;
pub mod error;
pub mod minmax;
pub mod path;
pub mod point;

verus! {

} // verus!
