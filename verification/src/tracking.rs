//! Bounded, forward-only path tracking in units of curvature.
//!
//! Pure pursuit steers an arc through a target on the path ahead. The LQR
//! tracker is a continuous model of small errors, `e_y' = v e_heading` and
//! `e_heading' = v delta_curvature`, whose stabilizing gains for weights
//! `q_y`, `q_heading` and `r` are `sqrt(q_y / r)` and
//! `sqrt(q_heading / r + 2 sqrt(q_y / r))`. Its model is that of a straight
//! reference, with the curvature of the path fed forward on bends.
//!
//! No tracker owns speed, collision checks, steering slew or stopping: the
//! caller applies those to every proposed curvature.
use crate::autonomy::{Point2, Pose2};
use crate::binary64::values::{
    FIVE, MILLION, MILLIONTH, TEN, THREE, TRILLIONTH, TWO, ZERO,
};
use crate::binary64::Binary64;
use crate::elementary::Elementary;
use crate::elementary;
use crate::sensors::ValidationError;
use vstd::prelude::*;

pub mod laws;
pub mod lqr;

pub use lqr::LqrTracker;

verus! {

/// The most points that a path may have.
pub const MAX_PATH_POINTS: usize = 100_000;

#[derive(Clone, Copy, Debug)]
pub struct TrackInput<'a> {
    pub pose: Pose2,
    pub speed_mps: Binary64,
    /// The route, in the frame of the pose, without the pose.
    pub path: &'a [Point2],
    /// The vertex of the route nearest to the vehicle, which never goes back.
    pub progress: usize,
    pub lookahead_m: Binary64,
    pub max_curvature_per_m: Binary64,
}

#[derive(Clone, Copy, Debug)]
pub struct TrackingCommand {
    /// The target of pure pursuit, also of an LQR step.
    pub target: Point2,
    pub curvature_per_m: Binary64,
    pub diagnostics: TrackingDiagnostics,
}

/// The algorithm that gave a command, the fallback at low speed included.
#[derive(Clone, Copy, Debug, PartialEq, Eq, Structural)]
pub enum TrackingMode {
    PurePursuit,
    Lqr,
}

/// What was computed for a command. Pure pursuit has no reference to have an
/// error against.
#[derive(Clone, Copy, Debug)]
pub struct TrackingDiagnostics {
    pub mode: TrackingMode,
    pub lateral_error_m: Option<Binary64>,
    pub heading_error_rad: Option<Binary64>,
    pub reference_curvature_per_m: Option<Binary64>,
}

/// Why there is no command.
#[derive(Clone, Debug)]
pub enum TrackingError {
    Invalid(ValidationError),
    /// The errors are too large for the model of small errors.
    OutsideEnvelope {
        lateral_error_m: Binary64,
        heading_error_rad: Binary64,
        reference_curvature_per_m: Binary64,
        max_lateral_error_m: Binary64,
        max_heading_error_rad: Binary64,
    },
}

/// An error with its message as a sequence of characters.
pub enum Refusal {
    Invalid(Seq<char>),
    OutsideEnvelope {
        lateral_error_m: Binary64,
        heading_error_rad: Binary64,
        reference_curvature_per_m: Binary64,
        max_lateral_error_m: Binary64,
        max_heading_error_rad: Binary64,
    },
}

impl View for TrackingError {
    type V = Refusal;

    open spec fn view(&self) -> Refusal {
        match *self {
            TrackingError::Invalid(e) => Refusal::Invalid(e.0@),
            TrackingError::OutsideEnvelope {
                lateral_error_m,
                heading_error_rad,
                reference_curvature_per_m,
                max_lateral_error_m,
                max_heading_error_rad,
            } => Refusal::OutsideEnvelope {
                lateral_error_m,
                heading_error_rad,
                reference_curvature_per_m,
                max_lateral_error_m,
                max_heading_error_rad,
            },
        }
    }
}

/// A result with its error as a [`Refusal`].
pub open spec fn answer<T>(r: Result<T, TrackingError>) -> Result<T, Refusal> {
    match r {
        Ok(t) => Ok(t),
        Err(e) => Err(e@),
    }
}

fn error(message: &str) -> (r: TrackingError)
    ensures
        r@ == Refusal::Invalid(message@),
{
    TrackingError::Invalid(ValidationError::new(message))
}

/// Something that proposes a curvature for following a path.
pub trait PathTracker {
    fn track<F: Fn(Elementary) -> Binary64>(&self, input: TrackInput<'_>, host: &F) -> (r: Result<
        TrackingCommand,
        TrackingError,
    >)
        requires
            elementary::total(*host),
    ;
}

#[derive(Clone, Copy, Debug)]
pub enum TrackingConfig {
    PurePursuit,
    /// Weights and the envelope of the linearization, never a vehicle's tune.
    Lqr {
        q_lateral: Binary64,
        q_heading: Binary64,
        r_curvature: Binary64,
        min_speed_mps: Binary64,
        max_heading_error_rad: Binary64,
        max_lateral_error_m: Binary64,
    },
}

impl Default for TrackingConfig {
    fn default() -> (r: Self)
        ensures
            r is PurePursuit,
    {
        TrackingConfig::PurePursuit
    }
}

/// Whether a value lies between two bounds.
pub open spec fn within(low: u64, x: Binary64, high: u64) -> bool {
    Binary64::of(low).le(x) && x.le(Binary64::of(high))
}

fn is_within(low: u64, x: Binary64, high: u64) -> (r: bool)
    ensures
        r == within(low, x, high),
{
    Binary64::of(low).at_most(x) && x.at_most(Binary64::of(high))
}

/// Whether a distance separates two points.
pub open spec fn apart(m: spec_fn(Elementary) -> Binary64, a: Point2, b: Point2) -> bool {
    Binary64::of(MILLIONTH).lt(m(a.separation(b)))
}

/// Whether a coordinate lies in the range in which tracking works.
pub open spec fn near_origin(x: Binary64) -> bool {
    !Binary64::of(MILLION).lt(x.abs())
}

impl<'a> TrackInput<'a> {
    pub open spec fn in_bounds(self) -> bool {
        &&& 2 <= self.path@.len() <= MAX_PATH_POINTS
        &&& self.progress < self.path@.len()
        &&& self.pose.finite()
        &&& near_origin(self.pose.x_m)
        &&& near_origin(self.pose.y_m)
        &&& self.speed_mps.finite()
        &&& within(ZERO, self.speed_mps, THREE)
        &&& self.lookahead_m.finite()
        &&& within(MILLIONTH, self.lookahead_m, FIVE)
        &&& self.max_curvature_per_m.finite()
        &&& within(MILLIONTH, self.max_curvature_per_m, TEN)
        &&& forall|i: int|
            0 <= i < self.path@.len() ==> {
                &&& (#[trigger] self.path@[i]).finite()
                &&& near_origin(self.path@[i].x_m)
                &&& near_origin(self.path@[i].y_m)
            }
    }

    /// Whether an input can be tracked.
    pub open spec fn trackable(self, m: spec_fn(Elementary) -> Binary64) -> bool {
        &&& self.in_bounds()
        &&& exists|i: int|
            0 <= i < self.path@.len() - 1 && apart(m, #[trigger] self.path@[i], self.path@[i + 1])
    }

    /// The first vertex after the vehicle.
    pub open spec fn ahead(self) -> int {
        if self.progress + 1 < self.path@.len() {
            self.progress + 1
        } else {
            self.path@.len() - 1
        }
    }

    /// The point at a distance along the path, its end where it is shorter.
    pub open spec fn lookahead(
        self,
        m: spec_fn(Elementary) -> Binary64,
        i: int,
        previous: Point2,
        remaining: Binary64,
    ) -> Point2
        decreases self.path@.len() - i,
    {
        let point = self.path@[i];
        let length = m(previous.separation(point));
        if i >= self.path@.len() {
            self.path@.last()
        } else if remaining.lt(length) {
            let ratio = remaining.over(length);
            Point2 {
                x_m: previous.x_m.plus(ratio.times(point.x_m.minus(previous.x_m))),
                y_m: previous.y_m.plus(ratio.times(point.y_m.minus(previous.y_m))),
            }
        } else {
            self.lookahead(m, i + 1, point, remaining.minus(length))
        }
    }

    pub open spec fn target(self, m: spec_fn(Elementary) -> Binary64) -> Point2 {
        self.lookahead(m, self.ahead(), self.pose.point(), self.lookahead_m)
    }

    /// The command of pure pursuit: the arc from the pose through the target.
    pub open spec fn pursued(self, m: spec_fn(Elementary) -> Binary64) -> Result<
        TrackingCommand,
        Refusal,
    > {
        let target = self.target(m);
        let body = self.pose.seen(m, target);
        let squared = body.x_m.times(body.x_m).plus(body.y_m.times(body.y_m));
        let curvature = Binary64::of(TWO).times(body.y_m).over(squared);
        if !squared.finite() || squared.le(Binary64::of(TRILLIONTH)) || body.x_m.le(
            Binary64::of(ZERO),
        ) {
            Err(Refusal::Invalid("tracking target requires reverse or turn in place"@))
        } else if !curvature.finite() {
            Err(Refusal::Invalid("pure-pursuit curvature is not finite"@))
        } else {
            Ok(
                TrackingCommand {
                    target,
                    curvature_per_m: self.limited(curvature),
                    diagnostics: TrackingDiagnostics {
                        mode: TrackingMode::PurePursuit,
                        lateral_error_m: None,
                        heading_error_rad: None,
                        reference_curvature_per_m: None,
                    },
                },
            )
        }
    }

    pub open spec fn limited(self, curvature: Binary64) -> Binary64 {
        curvature.clamp(self.max_curvature_per_m.negated(), self.max_curvature_per_m)
    }

    /// The command of the pure pursuit tracker.
    pub open spec fn pure(self, m: spec_fn(Elementary) -> Binary64) -> Result<
        TrackingCommand,
        Refusal,
    > {
        if !self.trackable(m) {
            Err(Refusal::Invalid("invalid, excessive, or degenerate tracking input"@))
        } else {
            self.pursued(m)
        }
    }
}

fn validate_input<F: Fn(Elementary) -> Binary64>(input: TrackInput<'_>, host: &F) -> (r: bool)
    requires
        elementary::total(*host),
    ensures
        r ==> input.in_bounds(),
        forall|m: spec_fn(Elementary) -> Binary64| #[trigger]
            elementary::models(*host, m) ==> r == input.trackable(m),
{
    if input.path.len() < 2 || input.path.len() > MAX_PATH_POINTS || input.progress
        >= input.path.len() || !input.pose.valid() || Binary64::of(MILLION).less(
        input.pose.x_m.abs(),
    ) || Binary64::of(MILLION).less(input.pose.y_m.abs()) || !input.speed_mps.is_finite()
        || !is_within(ZERO, input.speed_mps, THREE) || !input.lookahead_m.is_finite() || !is_within(
        MILLIONTH,
        input.lookahead_m,
        FIVE,
    ) || !input.max_curvature_per_m.is_finite() || !is_within(
        MILLIONTH,
        input.max_curvature_per_m,
        TEN,
    ) {
        return false;
    }
    let mut i: usize = 0;
    while i < input.path.len()
        invariant
            i <= input.path@.len(),
            forall|j: int|
                0 <= j < i ==> {
                    &&& (#[trigger] input.path@[j]).finite()
                    &&& near_origin(input.path@[j].x_m)
                    &&& near_origin(input.path@[j].y_m)
                },
        decreases input.path@.len() - i,
    {
        let point: Point2 = input.path[i];
        if !point.valid() || Binary64::of(MILLION).less(point.x_m.abs()) || Binary64::of(
            MILLION,
        ).less(point.y_m.abs()) {
            assert(!(input.path@[i as int].finite() && near_origin(input.path@[i as int].x_m)
                && near_origin(input.path@[i as int].y_m)));
            return false;
        }
        i += 1;
    }
    assert(input.in_bounds());
    let mut k: usize = 0;
    while k < input.path.len() - 1
        invariant
            input.path@.len() >= 2,
            k <= input.path@.len() - 1,
            input.in_bounds(),
            elementary::total(*host),
            forall|m: spec_fn(Elementary) -> Binary64| #[trigger]
                elementary::models(*host, m) ==> forall|j: int|
                    0 <= j < k ==> !apart(m, #[trigger] input.path@[j], input.path@[j + 1]),
        decreases input.path@.len() - k,
    {
        let length: Binary64 = input.path[k].distance(input.path[k + 1], host);
        if Binary64::of(MILLIONTH).less(length) {
            assert forall|m: spec_fn(Elementary) -> Binary64| #[trigger]
                elementary::models(*host, m) implies input.trackable(m) by {
                assert(apart(m, input.path@[k as int], input.path@[k + 1]));
            }
            return true;
        }
        k += 1;
    }
    false
}

fn pure_pursuit<F: Fn(Elementary) -> Binary64>(input: TrackInput<'_>, host: &F) -> (r: Result<
    TrackingCommand,
    TrackingError,
>)
    requires
        elementary::total(*host),
        input.in_bounds(),
    ensures
        forall|m: spec_fn(Elementary) -> Binary64| #[trigger]
            elementary::models(*host, m) ==> answer(r) == input.pursued(m),
{
    let target: Point2 = find_target(input, host);
    let body: Point2 = input.pose.world_to_body(target, host);
    let squared: Binary64 = body.x_m.times(body.x_m).plus(body.y_m.times(body.y_m));
    if !squared.is_finite() || squared.at_most(Binary64::of(TRILLIONTH)) || body.x_m.at_most(
        Binary64::of(ZERO),
    ) {
        return Err(error("tracking target requires reverse or turn in place"));
    }
    let curvature: Binary64 = Binary64::of(TWO).times(body.y_m).over(squared);
    if !curvature.is_finite() {
        return Err(error("pure-pursuit curvature is not finite"));
    }
    Ok(
        TrackingCommand {
            target,
            curvature_per_m: curvature.clamp(
                input.max_curvature_per_m.negated(),
                input.max_curvature_per_m,
            ),
            diagnostics: TrackingDiagnostics {
                mode: TrackingMode::PurePursuit,
                lateral_error_m: None,
                heading_error_rad: None,
                reference_curvature_per_m: None,
            },
        },
    )
}

fn find_target<F: Fn(Elementary) -> Binary64>(input: TrackInput<'_>, host: &F) -> (r: Point2)
    requires
        elementary::total(*host),
        input.in_bounds(),
    ensures
        forall|m: spec_fn(Elementary) -> Binary64| #[trigger]
            elementary::models(*host, m) ==> r == input.target(m),
{
    let count: usize = input.path.len();
    let mut i: usize = if input.progress + 1 < count {
        input.progress + 1
    } else {
        count - 1
    };
    let mut previous: Point2 = input.pose.point();
    let mut remaining: Binary64 = input.lookahead_m;
    while i < count
        invariant
            i <= count,
            count == input.path@.len(),
            count >= 2,
            elementary::total(*host),
            forall|m: spec_fn(Elementary) -> Binary64| #[trigger]
                elementary::models(*host, m) ==> input.target(m) == input.lookahead(
                    m,
                    i as int,
                    previous,
                    remaining,
                ),
        decreases count - i,
    {
        let point: Point2 = input.path[i];
        let length: Binary64 = previous.distance(point, host);
        if remaining.less(length) {
            let ratio: Binary64 = remaining.over(length);
            return Point2 {
                x_m: previous.x_m.plus(ratio.times(point.x_m.minus(previous.x_m))),
                y_m: previous.y_m.plus(ratio.times(point.y_m.minus(previous.y_m))),
            };
        }
        remaining = remaining.minus(length);
        previous = point;
        i += 1;
    }
    input.path[count - 1]
}

#[derive(Clone, Copy, Debug)]
pub struct PurePursuitTracker;

impl Default for PurePursuitTracker {
    fn default() -> Self {
        PurePursuitTracker
    }
}

impl PathTracker for PurePursuitTracker {
    fn track<F: Fn(Elementary) -> Binary64>(&self, input: TrackInput<'_>, host: &F) -> (r: Result<
        TrackingCommand,
        TrackingError,
    >)
        ensures
            forall|m: spec_fn(Elementary) -> Binary64| #[trigger]
                elementary::models(*host, m) ==> answer(r) == input.pure(m),
    {
        if !validate_input(input, host) {
            return Err(error("invalid, excessive, or degenerate tracking input"));
        }
        pure_pursuit(input, host)
    }
}

} // verus!
