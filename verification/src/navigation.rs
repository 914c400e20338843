//! Parts of the planner whose decisions are checked here.
use crate::autonomy::Footprint;
use crate::binary64::Binary64;
use vstd::prelude::*;

pub mod continuity;
pub mod primitive_envelope;
pub mod recovery;
pub mod stopping_envelope;
pub mod terminal;

verus! {

/// An upright rectangle.
#[derive(Clone, Copy, Debug, PartialEq, Eq, Structural)]
pub struct Rect {
    pub min_x_m: Binary64,
    pub max_x_m: Binary64,
    pub min_y_m: Binary64,
    pub max_y_m: Binary64,
}

/// The limits that the planner works within.
#[derive(Clone, Copy, Debug)]
pub struct NavigationConfig {
    pub bounds: Rect,
    pub footprint: Footprint,
    pub clearance_m: Binary64,
    pub control_period_ms: u64,
    pub max_speed_mps: Binary64,
    pub max_accel_mps2: Binary64,
    pub max_decel_mps2: Binary64,
    pub max_curvature_per_m: Binary64,
    pub lookahead_m: Binary64,
    pub goal_tolerance_m: Binary64,
    pub goal_heading_tolerance_rad: Binary64,
}

} // verus!
