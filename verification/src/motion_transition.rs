//! A change of speed and curvature at limited rates.
use crate::autonomy::Pose2;
use crate::binary64::values::ZERO;
use crate::binary64::Binary64;
use crate::safety;
use vstd::prelude::*;

verus! {

#[derive(Clone, Copy, Debug)]
pub struct MotionTransition {
    pub initial_speed_mps: Binary64,
    pub target_speed_mps: Binary64,
    pub initial_curvature_per_m: Binary64,
    pub target_curvature_per_m: Binary64,
    pub max_accel_mps2: Binary64,
    pub max_decel_mps2: Binary64,
    pub max_curvature_rate_per_s: Binary64,
}

/// Where a transition has led.
#[derive(Clone, Copy, Debug)]
pub struct MotionProjection {
    pub pose: Pose2,
    pub speed_mps: Binary64,
    pub curvature_per_m: Binary64,
    pub distance_m: Binary64,
}

/// Whether a value is finite and not negative.
pub open spec fn nonnegative(x: Binary64) -> bool {
    x.finite() && Binary64::of(ZERO).le(x)
}

pub fn is_nonnegative(x: Binary64) -> (r: bool)
    ensures
        r == nonnegative(x),
{
    x.is_finite() && Binary64::of(ZERO).at_most(x)
}

impl MotionTransition {
    /// Whether a transition over a time is well-formed: forward speeds, finite
    /// curvatures, positive rates.
    pub open spec fn well_formed(self, dt: Binary64) -> bool {
        &&& nonnegative(dt)
        &&& nonnegative(self.initial_speed_mps)
        &&& nonnegative(self.target_speed_mps)
        &&& self.initial_curvature_per_m.finite()
        &&& self.target_curvature_per_m.finite()
        &&& safety::positive(self.max_accel_mps2)
        &&& safety::positive(self.max_decel_mps2)
        &&& safety::positive(self.max_curvature_rate_per_s)
    }

    pub fn is_well_formed(self, dt: Binary64) -> (r: bool)
        ensures
            r == self.well_formed(dt),
    {
        is_nonnegative(dt) && is_nonnegative(self.initial_speed_mps) && is_nonnegative(
            self.target_speed_mps,
        ) && self.initial_curvature_per_m.is_finite() && self.target_curvature_per_m.is_finite()
            && safety::is_positive(self.max_accel_mps2) && safety::is_positive(self.max_decel_mps2)
            && safety::is_positive(self.max_curvature_rate_per_s)
    }
}

} // verus!
