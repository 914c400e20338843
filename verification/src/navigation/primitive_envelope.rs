//! Bounded quadrature of a segment with limited rates, from one numerical pose.
//!
//! The times at which speed and steering saturate split a segment into at most
//! three affine pieces. Heading and distance are analytic on each piece; the
//! position takes four midpoint subintervals with their remainders. The work is
//! fixed and does not rely on converging samples. The bounds are those of the
//! model. A chain of segments carries its uncertainty with
//! [`ErrorBound::advance`].
use crate::autonomy::Pose2;
use crate::binary64::laws;
use crate::binary64::values::{
    FIFTY, FOUR, HALF, MILLION, ONE, ROUNDOFF, TEN, THREE, TWENTY_FOUR, TWO, ZERO,
};
use crate::binary64::Binary64;
use crate::elementary::Elementary;
use crate::elementary;
use crate::motion_transition::{MotionProjection, MotionTransition};
use crate::motion_transition;
use vstd::prelude::*;

pub mod motion;
pub mod travel;

verus! {

#[derive(Clone, Copy, Debug)]
pub struct BoundedProjection {
    pub projection: MotionProjection,
    pub position_error_m: Binary64,
    pub heading_error_rad: Binary64,
}

#[derive(Clone, Copy, Debug)]
pub struct ErrorBound {
    pub position_m: Binary64,
    pub heading_rad: Binary64,
}

impl Default for ErrorBound {
    fn default() -> (r: Self)
        ensures
            r == ErrorBound::none(),
    {
        ErrorBound { position_m: Binary64::of(ZERO), heading_rad: Binary64::of(ZERO) }
    }
}

impl ErrorBound {
    pub open spec fn none() -> Self {
        ErrorBound { position_m: Binary64::of(ZERO), heading_rad: Binary64::of(ZERO) }
    }

    /// Whether both bounds are finite and not negative.
    pub open spec fn sound(self) -> bool {
        motion_transition::nonnegative(self.position_m) && motion_transition::nonnegative(
            self.heading_rad,
        )
    }

    /// The bound after a further segment.
    pub open spec fn advanced(self, next: BoundedProjection) -> Option<Self> {
        let bound = ErrorBound {
            position_m: self.position_m.plus(next.position_error_m).plus(
                next.projection.distance_m.times(self.heading_rad.min(Binary64::of(TWO))),
            ).next_up(),
            heading_rad: self.heading_rad.plus(next.heading_error_rad).next_up(),
        };
        if self.sound() && motion_transition::nonnegative(next.position_error_m)
            && motion_transition::nonnegative(next.heading_error_rad)
            && motion_transition::nonnegative(next.projection.distance_m) && bound.sound() {
            Some(bound)
        } else {
            None
        }
    }

    /// Carries the bound over a segment. Turning a displacement by an angle
    /// moves its end by at most its length times the angle, or twice its
    /// length. Errors of position and heading never cancel.
    pub fn advance(self, next: &BoundedProjection) -> (r: Option<Self>)
        ensures
            r == self.advanced(*next),
    {
        if !motion_transition::is_nonnegative(self.position_m)
            || !motion_transition::is_nonnegative(self.heading_rad)
            || !motion_transition::is_nonnegative(next.position_error_m)
            || !motion_transition::is_nonnegative(next.heading_error_rad)
            || !motion_transition::is_nonnegative(next.projection.distance_m) {
            return None;
        }
        let bound: ErrorBound = ErrorBound {
            position_m: self.position_m.plus(next.position_error_m).plus(
                next.projection.distance_m.times(self.heading_rad.min(Binary64::of(TWO))),
            ).next_up(),
            heading_rad: self.heading_rad.plus(next.heading_error_rad).next_up(),
        };
        if motion_transition::is_nonnegative(bound.position_m)
            && motion_transition::is_nonnegative(bound.heading_rad) {
            Some(bound)
        } else {
            None
        }
    }
}

/// A value that goes to its target at a constant rate.
#[derive(Clone, Copy, Debug)]
pub struct Ramp {
    pub initial: Binary64,
    pub target: Binary64,
    pub rate: Binary64,
    pub arrival: Binary64,
}

impl Ramp {
    pub open spec fn between(initial: Binary64, target: Binary64, maximum_rate: Binary64) -> Option<
        Self,
    > {
        let difference = target.minus(initial);
        if difference.finite() {
            Some(
                Ramp {
                    initial,
                    target,
                    rate: difference.signum().times(maximum_rate),
                    arrival: difference.abs().over(maximum_rate),
                },
            )
        } else {
            None
        }
    }

    pub fn new(initial: Binary64, target: Binary64, maximum_rate: Binary64) -> (r: Option<Self>)
        ensures
            r == Self::between(initial, target, maximum_rate),
    {
        let difference: Binary64 = target.minus(initial);
        if difference.is_finite() {
            Some(
                Ramp {
                    initial,
                    target,
                    rate: difference.signum().times(maximum_rate),
                    arrival: difference.abs().over(maximum_rate),
                },
            )
        } else {
            None
        }
    }

    /// The value at a time.
    pub open spec fn spec_at(self, time: Binary64) -> Binary64 {
        if time.same(Binary64::of(ZERO)) {
            self.initial
        } else if self.arrival.le(time) {
            self.target
        } else {
            self.initial.plus(self.rate.times(time))
        }
    }

    #[verifier::when_used_as_spec(spec_at)]
    pub fn at(self, time: Binary64) -> (r: Binary64)
        ensures
            r == self.spec_at(time),
    {
        if time.equals(Binary64::of(ZERO)) {
            self.initial
        } else if self.arrival.at_most(time) {
            self.target
        } else {
            self.initial.plus(self.rate.times(time))
        }
    }

    /// The rate from a time on.
    pub open spec fn spec_derivative(self, time: Binary64) -> Binary64 {
        if self.arrival.le(time) {
            Binary64::of(ZERO)
        } else {
            self.rate
        }
    }

    #[verifier::when_used_as_spec(spec_derivative)]
    pub fn derivative(self, time: Binary64) -> (r: Binary64)
        ensures
            r == self.spec_derivative(time),
    {
        if self.arrival.at_most(time) {
            Binary64::of(ZERO)
        } else {
            self.rate
        }
    }
}

/// The state of a segment while it is integrated.
#[derive(Clone, Copy, Debug)]
pub struct Integration {
    pub projected: MotionProjection,
    pub error: ErrorBound,
}

/// Speed and curvature at the start of a subinterval, with their rates.
#[derive(Clone, Copy, Debug)]
pub struct Course {
    pub v: Binary64,
    pub k: Binary64,
    pub a: Binary64,
    pub r: Binary64,
}

impl Course {
    /// The change of heading by a time: the integral of speed times curvature.
    pub open spec fn spec_turn(self, t: Binary64) -> Binary64 {
        self.v.times(self.k).times(t).plus(
            self.v.times(self.r).plus(self.a.times(self.k)).times(t).times(t).times(
                Binary64::of(HALF),
            ),
        ).plus(self.a.times(self.r).times(t).times(t).times(t).over(Binary64::of(THREE)))
    }

    #[verifier::when_used_as_spec(spec_turn)]
    pub fn turn(self, t: Binary64) -> (r: Binary64)
        ensures
            r == self.spec_turn(t),
    {
        self.v.times(self.k).times(t).plus(
            self.v.times(self.r).plus(self.a.times(self.k)).times(t).times(t).times(
                Binary64::of(HALF),
            ),
        ).plus(self.a.times(self.r).times(t).times(t).times(t).over(Binary64::of(THREE)))
    }

    /// The distance by a time.
    pub open spec fn spec_travel(self, h: Binary64) -> Binary64 {
        self.v.times(h).plus(self.a.times(h).times(h).times(Binary64::of(HALF)))
    }

    #[verifier::when_used_as_spec(spec_travel)]
    pub fn travel(self, h: Binary64) -> (r: Binary64)
        ensures
            r == self.spec_travel(h),
    {
        self.v.times(h).plus(self.a.times(h).times(h).times(Binary64::of(HALF)))
    }

    /// A bound on the vector remainder of the midpoint rule. The second
    /// derivative of the velocity `v e^(i theta)` is at most
    /// `3 |a| V K + V^2 |r| + V^3 K^2` for the largest speed `V` and curvature
    /// `K`, and the remainder a twenty-fourth of that times the cubed time.
    pub open spec fn spec_remainder(self, fastest: Binary64, sharpest: Binary64, h: Binary64) -> Binary64 {
        Binary64::of(THREE).times(self.a.abs()).times(fastest).times(sharpest).plus(
            fastest.times(fastest).times(self.r.abs()),
        ).plus(
            fastest.times(fastest).times(fastest).times(sharpest.times(sharpest)),
        ).times(h.times(h).times(h)).over(Binary64::of(TWENTY_FOUR))
    }

    #[verifier::when_used_as_spec(spec_remainder)]
    pub fn remainder(self, fastest: Binary64, sharpest: Binary64, h: Binary64) -> (r: Binary64)
        ensures
            r == self.spec_remainder(fastest, sharpest, h),
    {
        Binary64::of(THREE).times(self.a.abs()).times(fastest).times(sharpest).plus(
            fastest.times(fastest).times(self.r.abs()),
        ).plus(
            fastest.times(fastest).times(fastest).times(sharpest.times(sharpest)),
        ).times(h.times(h).times(h)).over(Binary64::of(TWENTY_FOUR))
    }

    /// An allowance for the rounding of angles.
    pub open spec fn spec_angle_roundoff(self, yaw: Binary64, h: Binary64) -> Binary64 {
        Binary64::of(ROUNDOFF).times(
            Binary64::of(ONE).plus(yaw.abs()).plus(self.v.times(self.k).times(h).abs()).plus(
                self.v.times(self.r).plus(self.a.times(self.k)).times(h).times(h).times(
                    Binary64::of(HALF),
                ).abs(),
            ).plus(
                self.a.times(self.r).times(h).times(h).times(h).over(Binary64::of(THREE)).abs(),
            ),
        )
    }

    #[verifier::when_used_as_spec(spec_angle_roundoff)]
    pub fn angle_roundoff(self, yaw: Binary64, h: Binary64) -> (r: Binary64)
        ensures
            r == self.spec_angle_roundoff(yaw, h),
    {
        Binary64::of(ROUNDOFF).times(
            Binary64::of(ONE).plus(yaw.abs()).plus(self.v.times(self.k).times(h).abs()).plus(
                self.v.times(self.r).plus(self.a.times(self.k)).times(h).times(h).times(
                    Binary64::of(HALF),
                ).abs(),
            ).plus(
                self.a.times(self.r).times(h).times(h).times(h).over(Binary64::of(THREE)).abs(),
            ),
        )
    }
}

/// An allowance for the rounding of positions.
pub open spec fn position_roundoff(pose: Pose2, travel: Binary64, angle: Binary64) -> Binary64 {
    Binary64::of(ROUNDOFF).times(
        Binary64::of(ONE).plus(pose.x_m.abs()).plus(pose.y_m.abs()).plus(travel.abs()),
    ).plus(travel.abs().times(angle))
}

/// Two ramps that are followed together.
#[derive(Clone, Copy, Debug)]
pub struct Ramps {
    pub speed: Ramp,
    pub curvature: Ramp,
}

impl Ramps {
    pub open spec fn spec_course(self, start: Binary64) -> Course {
        Course {
            v: self.speed.at(start),
            k: self.curvature.at(start),
            a: self.speed.derivative(start),
            r: self.curvature.derivative(start),
        }
    }

    #[verifier::when_used_as_spec(spec_course)]
    pub fn course(self, start: Binary64) -> (r: Course)
        ensures
            r == self.spec_course(start),
    {
        Course {
            v: self.speed.at(start),
            k: self.curvature.at(start),
            a: self.speed.derivative(start),
            r: self.curvature.derivative(start),
        }
    }

    /// The integration over one subinterval, or nothing where a number leaves
    /// the representable ones.
    pub open spec fn stepped(
        self,
        m: spec_fn(Elementary) -> Binary64,
        start: Binary64,
        end: Binary64,
        s: Integration,
    ) -> Option<Integration> {
        let h = end.minus(start);
        let course = self.course(start);
        let pose = s.projected.pose;
        let dyaw = course.turn(h);
        let middle_yaw = pose.yaw_rad.plus(course.turn(h.times(Binary64::of(HALF))));
        let travel = course.travel(h);
        let middle_speed = course.v.plus(course.a.times(h).times(Binary64::of(HALF)));
        let dx = middle_speed.times(m(Elementary::Cosine(middle_yaw))).times(h);
        let dy = middle_speed.times(m(Elementary::Sine(middle_yaw))).times(h);
        let fastest = course.v.max(self.speed.at(end));
        let sharpest = course.k.abs().max(self.curvature.at(end).abs());
        let quadrature = course.remainder(fastest, sharpest, h);
        let angle = course.angle_roundoff(pose.yaw_rad, h);
        let position = position_roundoff(pose, travel, angle);
        let local = BoundedProjection {
            projection: MotionProjection {
                pose,
                speed_mps: self.speed.at(end),
                curvature_per_m: self.curvature.at(end),
                distance_m: travel,
            },
            position_error_m: quadrature.plus(position).next_up(),
            heading_error_rad: angle.next_up(),
        };
        if h.same(Binary64::of(ZERO)) {
            Some(s)
        } else if !motion_transition::nonnegative(travel) || !motion_transition::nonnegative(
            quadrature,
        ) || !motion_transition::nonnegative(angle) || !motion_transition::nonnegative(position)
            || !dx.finite() || !dy.finite() || !dyaw.finite() {
            None
        } else {
            match s.error.advanced(local) {
                None => None,
                Some(error) => Some(
                    Integration {
                        projected: MotionProjection {
                            pose: Pose2 {
                                x_m: pose.x_m.plus(dx),
                                y_m: pose.y_m.plus(dy),
                                yaw_rad: pose.yaw_rad.plus(dyaw),
                            },
                            speed_mps: local.projection.speed_mps,
                            curvature_per_m: local.projection.curvature_per_m,
                            distance_m: s.projected.distance_m.plus(travel),
                        },
                        error,
                    },
                ),
            }
        }
    }

    /// The integration over the first `n` quarters of an affine piece.
    pub open spec fn quartered(
        self,
        m: spec_fn(Elementary) -> Binary64,
        low: Binary64,
        high: Binary64,
        n: nat,
        s: Integration,
    ) -> Option<Integration>
        decreases n,
    {
        if n == 0 {
            Some(s)
        } else {
            match self.quartered(m, low, high, (n - 1) as nat, s) {
                None => None,
                Some(before) => self.stepped(
                    m,
                    quarter(low, high, n - 1),
                    if n == 4 {
                        high
                    } else {
                        quarter(low, high, n as int)
                    },
                    before,
                ),
            }
        }
    }

    /// The integration over an affine piece, which may be empty.
    pub open spec fn pieced(
        self,
        m: spec_fn(Elementary) -> Binary64,
        low: Binary64,
        high: Binary64,
        s: Integration,
    ) -> Option<Integration> {
        if low.same(high) {
            Some(s)
        } else {
            self.quartered(m, low, high, 4, s)
        }
    }

    /// The integration over the first `n` pieces between some cuts.
    pub open spec fn integrated(
        self,
        m: spec_fn(Elementary) -> Binary64,
        cuts: Seq<Binary64>,
        n: nat,
        s: Integration,
    ) -> Option<Integration>
        decreases n,
    {
        if n == 0 {
            Some(s)
        } else {
            match self.integrated(m, cuts, (n - 1) as nat, s) {
                None => None,
                Some(before) => self.pieced(m, cuts[n - 1], cuts[n as int], before),
            }
        }
    }
}

/// The start of a quarter of an interval.
pub open spec fn quarter(low: Binary64, high: Binary64, i: int) -> Binary64 {
    low.plus(
        high.minus(low).times(Binary64::from_natural(i as u64).over(Binary64::of(FOUR))),
    )
}

/// A sequence in the total order of patterns with one more element.
pub open spec fn inserted(s: Seq<Binary64>, x: Binary64) -> Seq<Binary64>
    decreases s.len(),
{
    if s.len() == 0 || s.last().total_rank() <= x.total_rank() {
        s.push(x)
    } else {
        inserted(s.drop_last(), x).push(s.last())
    }
}

/// The times that bound the affine pieces, in order.
pub open spec fn cuts_of(ramps: Ramps, dt: Binary64) -> Seq<Binary64> {
    inserted(
        inserted(
            inserted(seq![Binary64::of(ZERO)], ramps.speed.arrival.min(dt)),
            ramps.curvature.arrival.min(dt),
        ),
        dt,
    )
}

/// Whether the magnitudes lie in the range for which the allowances were made.
pub open spec fn in_scale(pose: Pose2, motion: MotionTransition) -> bool {
    let million = Binary64::of(MILLION);
    let ten = Binary64::of(TEN);
    &&& pose.finite()
    &&& !million.lt(pose.x_m.abs())
    &&& !million.lt(pose.y_m.abs())
    &&& !million.lt(pose.yaw_rad.abs())
    &&& !Binary64::of(THREE).lt(motion.initial_speed_mps.max(motion.target_speed_mps))
    &&& !ten.lt(
        motion.initial_curvature_per_m.abs().max(motion.target_curvature_per_m.abs()),
    )
    &&& !ten.lt(motion.max_accel_mps2)
    &&& !ten.lt(motion.max_decel_mps2)
    &&& !Binary64::of(FIFTY).lt(motion.max_curvature_rate_per_s)
}

/// The ramps of a transition.
pub open spec fn ramps_of(motion: MotionTransition) -> Option<Ramps> {
    let acceleration = if motion.initial_speed_mps.le(motion.target_speed_mps) {
        motion.max_accel_mps2
    } else {
        motion.max_decel_mps2
    };
    match (
        Ramp::between(motion.initial_speed_mps, motion.target_speed_mps, acceleration),
        Ramp::between(
            motion.initial_curvature_per_m,
            motion.target_curvature_per_m,
            motion.max_curvature_rate_per_s,
        ),
    ) {
        (Some(speed), Some(curvature)) => Some(Ramps { speed, curvature }),
        _ => None,
    }
}

pub open spec fn initial_integration(pose: Pose2, motion: MotionTransition) -> Integration {
    Integration {
        projected: MotionProjection {
            pose,
            speed_mps: motion.initial_speed_mps,
            curvature_per_m: motion.initial_curvature_per_m,
            distance_m: Binary64::of(ZERO),
        },
        error: ErrorBound::none(),
    }
}

/// The end of a transition after a time, with its error bounds.
pub open spec fn predicted(
    m: spec_fn(Elementary) -> Binary64,
    pose: Pose2,
    motion: MotionTransition,
    dt: Binary64,
) -> Option<BoundedProjection> {
    if !motion.well_formed(dt) || !in_scale(pose, motion) {
        None
    } else {
        match ramps_of(motion) {
            None => None,
            Some(ramps) => match ramps.integrated(
                m,
                cuts_of(ramps, dt),
                3,
                initial_integration(pose, motion),
            ) {
                None => None,
                Some(end) => bounded(end),
            },
        }
    }
}

/// The result of an integration, where it is representable.
pub open spec fn bounded(end: Integration) -> Option<BoundedProjection> {
    if end.projected.pose.finite() && motion_transition::nonnegative(end.projected.distance_m)
        && motion_transition::nonnegative(end.projected.speed_mps)
        && end.projected.curvature_per_m.finite() {
        Some(
            BoundedProjection {
                projection: end.projected,
                position_error_m: end.error.position_m,
                heading_error_rad: end.error.heading_rad,
            },
        )
    } else {
        None
    }
}

fn insert(s: &mut Vec<Binary64>, x: Binary64)
    requires
        old(s)@.len() < 10,
    ensures
        final(s)@ == inserted(old(s)@, x),
        final(s)@.len() == old(s)@.len() + 1,
{
    let ghost start = s@;
    let mut i: usize = s.len();
    assert(start.take(i as int) =~= start);
    assert(start.skip(i as int) =~= Seq::empty());
    assert(inserted(start, x) =~= inserted(start, x) + start.skip(i as int));
    while i > 0 && x.precedes(s[i - 1])
        invariant
            i <= s@.len(),
            s@ == start,
            inserted(start, x) == inserted(start.take(i as int), x) + start.skip(i as int),
        decreases i,
    {
        let ghost rest = start.take(i as int);
        assert(rest.last() == start[i - 1]);
        assert(rest.drop_last() =~= start.take(i - 1));
        assert(inserted(rest.drop_last(), x).push(rest.last()) + start.skip(i as int) =~= inserted(
            start.take(i - 1),
            x,
        ) + start.skip(i - 1));
        i -= 1;
    }
    proof {
        let rest = start.take(i as int);
        assert(i > 0 ==> rest.last() == start[i - 1]);
        assert(inserted(rest, x) == rest.push(x));
        assert(start.insert(i as int, x) =~= rest.push(x) + start.skip(i as int));
    }
    s.insert(i, x);
}

fn step<F: Fn(Elementary) -> Binary64>(
    ramps: Ramps,
    start: Binary64,
    end: Binary64,
    s: Integration,
    host: &F,
) -> (r: Option<Integration>)
    requires
        elementary::total(*host),
    ensures
        forall|m: spec_fn(Elementary) -> Binary64| #[trigger]
            elementary::models(*host, m) ==> r == ramps.stepped(m, start, end, s),
{
    let h: Binary64 = end.minus(start);
    if h.equals(Binary64::of(ZERO)) {
        return Some(s);
    }
    let course: Course = ramps.course(start);
    let pose: Pose2 = s.projected.pose;
    let dyaw: Binary64 = course.turn(h);
    let middle_yaw: Binary64 = pose.yaw_rad.plus(course.turn(h.times(Binary64::of(HALF))));
    let travel: Binary64 = course.travel(h);
    let middle_speed: Binary64 = course.v.plus(course.a.times(h).times(Binary64::of(HALF)));
    let dx: Binary64 = middle_speed.times(host(Elementary::Cosine(middle_yaw))).times(h);
    let dy: Binary64 = middle_speed.times(host(Elementary::Sine(middle_yaw))).times(h);
    let fastest: Binary64 = course.v.max(ramps.speed.at(end));
    let sharpest: Binary64 = course.k.abs().max(ramps.curvature.at(end).abs());
    let quadrature: Binary64 = course.remainder(fastest, sharpest, h);
    let angle: Binary64 = course.angle_roundoff(pose.yaw_rad, h);
    let position: Binary64 = Binary64::of(ROUNDOFF).times(
        Binary64::of(ONE).plus(pose.x_m.abs()).plus(pose.y_m.abs()).plus(travel.abs()),
    ).plus(travel.abs().times(angle));
    if !motion_transition::is_nonnegative(travel) || !motion_transition::is_nonnegative(quadrature)
        || !motion_transition::is_nonnegative(angle) || !motion_transition::is_nonnegative(position)
        || !dx.is_finite() || !dy.is_finite() || !dyaw.is_finite() {
        return None;
    }
    let local: BoundedProjection = BoundedProjection {
        projection: MotionProjection {
            pose,
            speed_mps: ramps.speed.at(end),
            curvature_per_m: ramps.curvature.at(end),
            distance_m: travel,
        },
        position_error_m: quadrature.plus(position).next_up(),
        heading_error_rad: angle.next_up(),
    };
    match s.error.advance(&local) {
        None => None,
        Some(error) => Some(
            Integration {
                projected: MotionProjection {
                    pose: Pose2 {
                        x_m: pose.x_m.plus(dx),
                        y_m: pose.y_m.plus(dy),
                        yaw_rad: pose.yaw_rad.plus(dyaw),
                    },
                    speed_mps: local.projection.speed_mps,
                    curvature_per_m: local.projection.curvature_per_m,
                    distance_m: s.projected.distance_m.plus(travel),
                },
                error,
            },
        ),
    }
}

fn quarter_of(low: Binary64, high: Binary64, i: u64) -> (r: Binary64)
    ensures
        r == quarter(low, high, i as int),
{
    low.plus(high.minus(low).times(Binary64::from_natural(i).over(Binary64::of(FOUR))))
}

fn piece<F: Fn(Elementary) -> Binary64>(
    ramps: Ramps,
    low: Binary64,
    high: Binary64,
    s: Integration,
    host: &F,
) -> (r: Option<Integration>)
    requires
        elementary::total(*host),
    ensures
        forall|m: spec_fn(Elementary) -> Binary64| #[trigger]
            elementary::models(*host, m) ==> r == ramps.pieced(m, low, high, s),
{
    if low.equals(high) {
        return Some(s);
    }
    let first: Option<Integration> = step(
        ramps,
        quarter_of(low, high, 0),
        quarter_of(low, high, 1),
        s,
        host,
    );
    assert(forall|m: spec_fn(Elementary) -> Binary64| #[trigger]
        elementary::models(*host, m) ==> {
            &&& ramps.quartered(m, low, high, 0, s) == Some(s)
            &&& first == ramps.quartered(m, low, high, 1, s)
        });
    let second: Option<Integration> = match first {
        None => None,
        Some(s) => step(ramps, quarter_of(low, high, 1), quarter_of(low, high, 2), s, host),
    };
    assert(forall|m: spec_fn(Elementary) -> Binary64| #[trigger]
        elementary::models(*host, m) ==> second == ramps.quartered(m, low, high, 2, s));
    let third: Option<Integration> = match second {
        None => None,
        Some(s) => step(ramps, quarter_of(low, high, 2), quarter_of(low, high, 3), s, host),
    };
    assert(forall|m: spec_fn(Elementary) -> Binary64| #[trigger]
        elementary::models(*host, m) ==> third == ramps.quartered(m, low, high, 3, s));
    match third {
        None => None,
        Some(s) => step(ramps, quarter_of(low, high, 3), high, s, host),
    }
}

/// Integrates one interval of a model, without assuming that a target is
/// reached at its end. The work is fixed: at most twelve subintervals. The
/// errors are relative to the pose and motion supplied.
pub fn predict<F: Fn(Elementary) -> Binary64>(
    pose: Pose2,
    motion: MotionTransition,
    dt: Binary64,
    host: &F,
) -> (r: Option<BoundedProjection>)
    requires
        elementary::total(*host),
    ensures
        forall|m: spec_fn(Elementary) -> Binary64| #[trigger]
            elementary::models(*host, m) ==> r == predicted(m, pose, motion, dt),
{
    let million: Binary64 = Binary64::of(MILLION);
    let ten: Binary64 = Binary64::of(TEN);
    if !motion.is_well_formed(dt) || !pose.valid() || million.less(pose.x_m.abs()) || million.less(
        pose.y_m.abs(),
    ) || million.less(pose.yaw_rad.abs()) || Binary64::of(THREE).less(
        motion.initial_speed_mps.max(motion.target_speed_mps),
    ) || ten.less(motion.initial_curvature_per_m.abs().max(motion.target_curvature_per_m.abs()))
        || ten.less(motion.max_accel_mps2) || ten.less(motion.max_decel_mps2) || Binary64::of(
        FIFTY,
    ).less(motion.max_curvature_rate_per_s) {
        return None;
    }
    let acceleration: Binary64 = if motion.initial_speed_mps.at_most(motion.target_speed_mps) {
        motion.max_accel_mps2
    } else {
        motion.max_decel_mps2
    };
    let ramps: Ramps = match (
        Ramp::new(motion.initial_speed_mps, motion.target_speed_mps, acceleration),
        Ramp::new(
            motion.initial_curvature_per_m,
            motion.target_curvature_per_m,
            motion.max_curvature_rate_per_s,
        ),
    ) {
        (Some(speed), Some(curvature)) => Ramps { speed, curvature },
        _ => {
            return None;
        },
    };
    let mut cuts: Vec<Binary64> = Vec::new();
    cuts.push(Binary64::of(ZERO));
    assert(cuts@ =~= seq![Binary64::of(ZERO)]);
    insert(&mut cuts, ramps.speed.arrival.min(dt));
    insert(&mut cuts, ramps.curvature.arrival.min(dt));
    insert(&mut cuts, dt);
    let start: Integration = Integration {
        projected: MotionProjection {
            pose,
            speed_mps: motion.initial_speed_mps,
            curvature_per_m: motion.initial_curvature_per_m,
            distance_m: Binary64::of(ZERO),
        },
        error: ErrorBound::default(),
    };
    let first: Option<Integration> = piece(ramps, cuts[0], cuts[1], start, host);
    assert(forall|m: spec_fn(Elementary) -> Binary64| #[trigger]
        elementary::models(*host, m) ==> {
            &&& ramps.integrated(m, cuts@, 0, start) == Some(start)
            &&& first == ramps.integrated(m, cuts@, 1, start)
        });
    let second: Option<Integration> = match first {
        None => None,
        Some(s) => piece(ramps, cuts[1], cuts[2], s, host),
    };
    assert(forall|m: spec_fn(Elementary) -> Binary64| #[trigger]
        elementary::models(*host, m) ==> second == ramps.integrated(m, cuts@, 2, start));
    let third: Option<Integration> = match second {
        None => None,
        Some(s) => piece(ramps, cuts[2], cuts[3], s, host),
    };
    assert(forall|m: spec_fn(Elementary) -> Binary64| #[trigger]
        elementary::models(*host, m) ==> third == ramps.integrated(m, cuts@, 3, start));
    match third {
        None => None,
        Some(end) => if end.projected.pose.valid() && motion_transition::is_nonnegative(
            end.projected.distance_m,
        ) && motion_transition::is_nonnegative(end.projected.speed_mps)
            && end.projected.curvature_per_m.is_finite() {
            Some(
                BoundedProjection {
                    projection: end.projected,
                    position_error_m: end.error.position_m,
                    heading_error_rad: end.error.heading_rad,
                },
            )
        } else {
            None
        },
    }
}

/// Uncertainty never shrinks along a chain: errors of position and heading do
/// not cancel.
pub proof fn law_uncertainty_never_shrinks(before: ErrorBound, next: BoundedProjection)
    requires
        before.advanced(next) is Some,
    ensures
        before.position_m.le(before.advanced(next)->0.position_m),
        before.heading_rad.le(before.advanced(next)->0.heading_rad),
        before.advanced(next)->0.sound(),
{
    let turned = next.projection.distance_m.times(before.heading_rad.min(Binary64::of(TWO)));
    let sum = before.position_m.plus(next.position_error_m);
    laws::law_sums_do_not_shrink(before.position_m, next.position_error_m);
    laws::law_sums_do_not_shrink(before.heading_rad, next.heading_error_rad);
    laws::law_product_is_not_negative(
        next.projection.distance_m,
        before.heading_rad.min(Binary64::of(TWO)),
    );
    laws::law_infinite_sum(sum, turned);
    if sum.finite() && turned.finite() {
        laws::law_sums_do_not_shrink(sum, turned);
    }
}

/// A prediction ends in a finite state with sound error bounds.
pub proof fn law_predictions_are_representable(
    m: spec_fn(Elementary) -> Binary64,
    pose: Pose2,
    motion: MotionTransition,
    dt: Binary64,
)
    requires
        predicted(m, pose, motion, dt) is Some,
    ensures
        ({
            let p = predicted(m, pose, motion, dt)->0;
            &&& p.projection.pose.finite()
            &&& motion_transition::nonnegative(p.projection.distance_m)
            &&& motion_transition::nonnegative(p.projection.speed_mps)
            &&& motion_transition::nonnegative(p.position_error_m)
            &&& motion_transition::nonnegative(p.heading_error_rad)
        }),
{
    let ramps = ramps_of(motion)->0;
    lemma_integrated_sound(
        ramps,
        m,
        cuts_of(ramps, dt),
        3,
        initial_integration(pose, motion),
    );
}

proof fn lemma_quartered_sound(
    ramps: Ramps,
    m: spec_fn(Elementary) -> Binary64,
    low: Binary64,
    high: Binary64,
    n: nat,
    s: Integration,
)
    requires
        s.error.sound(),
    ensures
        ramps.quartered(m, low, high, n, s) matches Some(end) ==> end.error.sound(),
    decreases n,
{
    if n > 0 {
        lemma_quartered_sound(ramps, m, low, high, (n - 1) as nat, s);
    }
}

proof fn lemma_integrated_sound(
    ramps: Ramps,
    m: spec_fn(Elementary) -> Binary64,
    cuts: Seq<Binary64>,
    n: nat,
    s: Integration,
)
    requires
        s.error.sound(),
    ensures
        ramps.integrated(m, cuts, n, s) matches Some(end) ==> end.error.sound(),
    decreases n,
{
    if n > 0 {
        lemma_integrated_sound(ramps, m, cuts, (n - 1) as nat, s);
        if let Some(before) = ramps.integrated(m, cuts, (n - 1) as nat, s) {
            lemma_quartered_sound(ramps, m, cuts[n - 1], cuts[n as int], 4, before);
        }
    }
}

} // verus!
