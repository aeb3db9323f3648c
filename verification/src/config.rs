//! Configuration value types: the fidelity policy and the per-entity and
//! program-wide settings that the orchestration layer hands to the core.

use vstd::prelude::*;

use crate::point::P;
use std::collections::HashMap;

verus! {

/// Largest threshold or size parameter magnitude, in micro-units.
pub const MAX_PARAM: i64 = 1_000_000_000_000;

/// The fidelity policy: which reduction strategy runs and its thresholds.
///
/// `a_floor` and `dt` are angle thresholds given as the tangent of the angle
/// in micro-units (`SCALE` micro-units = tangent 1); `d_floor` is a length
/// in micro-units. All thresholds are non-negative.
#[derive(Clone, Copy, Debug, PartialEq, Eq, Structural)]
pub enum Optimizer {
    ADFloor { a_floor: i64, d_floor: i64 },
    ThreePointAverage { dt: i64 },
}

impl Optimizer {
    /// Thresholds non-negative and small enough that every product the
    /// reduction computes fits in `i128`.
    pub open spec fn valid(self) -> bool {
        match self {
            Optimizer::ADFloor { a_floor, d_floor } =>
                0 <= a_floor <= MAX_PARAM && 0 <= d_floor <= MAX_PARAM,
            Optimizer::ThreePointAverage { dt } => 0 <= dt <= MAX_PARAM,
        }
    }
}

/// One entity's settings: source file, attribution, real-world width and
/// length in micro-units, and its fidelity policy.
#[derive(Clone, Debug)]
pub struct AircraftConfig {
    pub f: String,
    pub attr: String,
    pub w: i64,
    pub l: i64,
    pub optimizer: Optimizer,
}

/// Program-wide settings.
#[derive(Clone, Debug)]
pub struct ProgramConfigInner {
    pub output_directory: String,
    pub max_points: usize,
}

/// The whole configuration: one entry per entity plus the shared settings.
#[derive(Clone, Debug)]
pub struct ProgramConfig {
    pub aircraft: HashMap<String, AircraftConfig>,
    pub configuration: ProgramConfigInner,
}

/// The output value for one entity: its reduced points, the entity names the
/// file serves, and an attribution string.
#[derive(Clone, Debug)]
pub struct AircraftPointFile {
    pub points: Vec<P>,
    pub aircraft_types: Vec<String>,
    pub attribution: String,
}

} // verus!
