//! The tracker by linear feedback.
use super::{
    PathTracker, PurePursuitTracker, Refusal, TrackInput, TrackingCommand, TrackingConfig,
    TrackingDiagnostics, TrackingError, TrackingMode,
};
use crate::autonomy::Point2;
use crate::binary64::laws;
use crate::binary64::values::{
    HALF, MILLIONTH, ONE, QUARTER, SEVEN_TENTHS, THREE, TWO, ZERO,
};
use crate::binary64::Binary64;
use crate::elementary::Elementary;
use crate::elementary;
use crate::safety;
use vstd::prelude::*;

verus! {

#[derive(Clone, Copy, Debug)]
pub struct LqrTracker {
    pub lateral_gain: Binary64,
    pub heading_gain: Binary64,
    pub min_speed_mps: Binary64,
    pub max_heading_error_rad: Binary64,
    pub max_lateral_error_m: Binary64,
}

impl TrackingConfig {
    /// Whether weights and envelope lie within their bounds.
    pub open spec fn bounded(self) -> bool {
        &&& self is Lqr
        &&& safety::positive(self->q_lateral)
        &&& safety::positive(self->q_heading)
        &&& safety::positive(self->r_curvature)
        &&& self->min_speed_mps.finite()
        &&& super::within(MILLIONTH, self->min_speed_mps, THREE)
        &&& self->max_heading_error_rad.finite()
        &&& super::within(MILLIONTH, self->max_heading_error_rad, SEVEN_TENTHS)
        &&& self->max_lateral_error_m.finite()
        &&& super::within(MILLIONTH, self->max_lateral_error_m, TWO)
    }

    /// The tracker with the gains of the weights.
    pub open spec fn tracker(self, m: spec_fn(Elementary) -> Binary64) -> LqrTracker {
        let lateral_gain = m(Elementary::SquareRoot(self->q_lateral.over(self->r_curvature)));
        let heading_gain = m(
            Elementary::SquareRoot(
                self->q_heading.over(self->r_curvature).plus(
                    Binary64::of(TWO).times(lateral_gain),
                ),
            ),
        );
        LqrTracker {
            lateral_gain,
            heading_gain,
            min_speed_mps: self->min_speed_mps,
            max_heading_error_rad: self->max_heading_error_rad,
            max_lateral_error_m: self->max_lateral_error_m,
        }
    }

    /// The tracker of an LQR configuration, or the reason why none.
    pub open spec fn regulated(self, m: spec_fn(Elementary) -> Binary64) -> Result<
        LqrTracker,
        Refusal,
    > {
        let tracker = self.tracker(m);
        if !(self is Lqr) {
            Err(Refusal::Invalid("LQR tracker requires LQR configuration"@))
        } else if !self.bounded() {
            Err(Refusal::Invalid("invalid LQR weights or small-error envelope"@))
        } else if !safety::positive(tracker.lateral_gain) || !safety::positive(
            tracker.heading_gain,
        ) {
            Err(Refusal::Invalid("LQR gain overflow or underflow"@))
        } else {
            Ok(tracker)
        }
    }

    /// The command by a configuration.
    pub open spec fn followed(
        self,
        m: spec_fn(Elementary) -> Binary64,
        input: TrackInput<'_>,
    ) -> Result<TrackingCommand, Refusal> {
        match self {
            TrackingConfig::PurePursuit => input.pure(m),
            TrackingConfig::Lqr { .. } => match self.regulated(m) {
                Err(e) => Err(e),
                Ok(tracker) => tracker.followed(m, input),
            },
        }
    }

    pub fn validate<F: Fn(Elementary) -> Binary64>(&self, host: &F) -> (r: Result<
        (),
        TrackingError,
    >)
        requires
            elementary::total(*host),
        ensures
            self is PurePursuit ==> r is Ok,
            forall|m: spec_fn(Elementary) -> Binary64| #[trigger]
                elementary::models(*host, m) && self is Lqr ==> match self.regulated(m) {
                    Ok(_) => r is Ok,
                    Err(e) => r is Err && r->Err_0@ == e,
                },
    {
        match *self {
            TrackingConfig::PurePursuit => Ok(()),
            TrackingConfig::Lqr { .. } => match LqrTracker::new(*self, host) {
                Ok(_) => Ok(()),
                Err(e) => Err(e),
            },
        }
    }
}

impl PathTracker for TrackingConfig {
    fn track<F: Fn(Elementary) -> Binary64>(&self, input: TrackInput<'_>, host: &F) -> (r: Result<
        TrackingCommand,
        TrackingError,
    >)
        ensures
            forall|m: spec_fn(Elementary) -> Binary64| #[trigger]
                elementary::models(*host, m) ==> super::answer(r) == self.followed(m, input),
    {
        match *self {
            TrackingConfig::PurePursuit => PurePursuitTracker.track(input, host),
            TrackingConfig::Lqr { .. } => match LqrTracker::new(*self, host) {
                Err(e) => Err(e),
                Ok(tracker) => tracker.track(input, host),
            },
        }
    }
}

/// The projection of the pose onto the segment between two vertices.
#[derive(Clone, Copy, Debug)]
pub struct Projection {
    pub first: usize,
    pub last: usize,
    pub fraction: Binary64,
    pub point: Point2,
    pub distance: Binary64,
}

/// The point of the path beside the vehicle, with its tangent and curvature.
#[derive(Clone, Copy, Debug)]
pub struct Reference {
    pub point: Point2,
    pub heading: Binary64,
    pub curvature: Binary64,
}

/// The nearest vertex before one of the first `n` that is apart from it.
pub open spec fn before_vertex(
    m: spec_fn(Elementary) -> Binary64,
    path: Seq<Point2>,
    vertex: int,
    n: nat,
) -> Option<usize>
    decreases n,
{
    if n == 0 {
        None
    } else if super::apart(m, path[n - 1], path[vertex]) {
        Some((n - 1) as usize)
    } else {
        before_vertex(m, path, vertex, (n - 1) as nat)
    }
}

/// The nearest vertex from `i` on that is apart from a vertex.
pub open spec fn after_vertex(
    m: spec_fn(Elementary) -> Binary64,
    path: Seq<Point2>,
    vertex: int,
    i: int,
) -> Option<usize>
    decreases path.len() - i,
{
    if i >= path.len() {
        None
    } else if super::apart(m, path[i], path[vertex]) {
        Some(i as usize)
    } else {
        after_vertex(m, path, vertex, i + 1)
    }
}

/// The signed curvature of the circle through three points.
pub open spec fn curvature_of(
    m: spec_fn(Elementary) -> Binary64,
    a: Point2,
    b: Point2,
    c: Point2,
) -> Result<Binary64, Seq<char>> {
    let ab = m(a.separation(b));
    let bc = m(b.separation(c));
    let ac = m(a.separation(c));
    let cross = b.x_m.minus(a.x_m).times(c.y_m.minus(a.y_m)).minus(
        b.y_m.minus(a.y_m).times(c.x_m.minus(a.x_m)),
    );
    let dot = b.x_m.minus(a.x_m).times(c.x_m.minus(b.x_m)).plus(
        b.y_m.minus(a.y_m).times(c.y_m.minus(b.y_m)),
    );
    let curvature = Binary64::of(TWO).times(cross).over(ab.times(bc).times(ac));
    if ac.le(Binary64::of(MILLIONTH)) {
        Err("LQR path contains a local reversal"@)
    } else if dot.le(Binary64::of(ZERO)) {
        Err("LQR path corner exceeds the forward small-error model"@)
    } else if !curvature.finite() {
        Err("LQR path curvature is not finite"@)
    } else {
        Ok(curvature)
    }
}

/// An angle difference by the direction that it turns to.
pub open spec fn difference(m: spec_fn(Elementary) -> Binary64, a: Binary64, b: Binary64) -> Binary64 {
    let delta = a.minus(b);
    m(
        Elementary::Bearing {
            y: m(Elementary::Sine(delta)),
            x: m(Elementary::Cosine(delta)),
        },
    )
}

impl<'a> TrackInput<'a> {
    pub open spec fn onto(
        self,
        m: spec_fn(Elementary) -> Binary64,
        first: usize,
        last: usize,
    ) -> Projection {
        let a = self.path@[first as int];
        let b = self.path@[last as int];
        let dx = b.x_m.minus(a.x_m);
        let dy = b.y_m.minus(a.y_m);
        let fraction = self.pose.x_m.minus(a.x_m).times(dx).plus(
            self.pose.y_m.minus(a.y_m).times(dy),
        ).over(dx.times(dx).plus(dy.times(dy))).clamp(Binary64::of(ZERO), Binary64::of(ONE));
        let point = Point2 {
            x_m: a.x_m.plus(fraction.times(dx)),
            y_m: a.y_m.plus(fraction.times(dy)),
        };
        Projection {
            first,
            last,
            fraction,
            point,
            distance: m(self.pose.point().separation(point)),
        }
    }

    /// The projection onto one of the two segments at the vertex of progress,
    /// the later one unless the earlier one is nearer. No other segment is
    /// looked at: the nearest of the whole route would jump at crossings.
    pub open spec fn beside(self, m: spec_fn(Elementary) -> Binary64) -> Option<Projection> {
        let vertex = self.progress;
        let incoming = before_vertex(m, self.path@, vertex as int, vertex as nat);
        let outgoing = after_vertex(m, self.path@, vertex as int, vertex + 1);
        match (incoming, outgoing) {
            (Some(first), Some(last)) => {
                let before = self.onto(m, first, vertex);
                let after = self.onto(m, vertex, last);
                if before.distance.lt(after.distance) {
                    Some(before)
                } else {
                    Some(after)
                }
            },
            (None, Some(last)) => Some(self.onto(m, vertex, last)),
            (Some(first), None) => Some(self.onto(m, first, vertex)),
            (None, None) => None,
        }
    }

    /// The curvature at a segment, by a third vertex before or after it.
    pub open spec fn bend(self, m: spec_fn(Elementary) -> Binary64, p: Projection) -> Result<
        Binary64,
        Seq<char>,
    > {
        let first = self.path@[p.first as int];
        let last = self.path@[p.last as int];
        let before = before_vertex(m, self.path@, p.first as int, p.first as nat);
        let after = after_vertex(m, self.path@, p.last as int, p.last + 1);
        if before is Some {
            curvature_of(m, self.path@[before->0 as int], first, last)
        } else if after is Some {
            curvature_of(m, first, last, self.path@[after->0 as int])
        } else {
            Ok(Binary64::of(ZERO))
        }
    }

    /// The reference beside the vehicle. On a circle the direction of a chord
    /// differs from the tangent at its start by half the angle of the arc, so
    /// interpolation recovers the tangents at both ends.
    pub open spec fn reference(self, m: spec_fn(Elementary) -> Binary64) -> Result<
        Reference,
        Seq<char>,
    > {
        match self.beside(m) {
            None => Err("LQR local path is degenerate"@),
            Some(p) => match self.bend(m, p) {
                Err(why) => Err(why),
                Ok(curvature) => {
                    let first = self.path@[p.first as int];
                    let last = self.path@[p.last as int];
                    let half_turn = m(
                        Elementary::ArcSine(
                            curvature.times(m(first.separation(last))).times(
                                Binary64::of(HALF),
                            ).clamp(Binary64::of(ONE).negated(), Binary64::of(ONE)),
                        ),
                    );
                    let heading = m(
                        Elementary::Bearing {
                            y: last.y_m.minus(first.y_m),
                            x: last.x_m.minus(first.x_m),
                        },
                    ).plus(
                        Binary64::of(TWO).times(p.fraction).minus(Binary64::of(ONE)).times(
                            half_turn,
                        ),
                    );
                    if !heading.finite() || !curvature.finite() {
                        Err("LQR reference geometry is not finite"@)
                    } else {
                        Ok(Reference { point: p.point, heading, curvature })
                    }
                },
            },
        }
    }
}

impl LqrTracker {
    /// The command for a reference, given the command of pure pursuit.
    pub open spec fn corrected(
        self,
        m: spec_fn(Elementary) -> Binary64,
        input: TrackInput<'_>,
        command: TrackingCommand,
        reference: Reference,
    ) -> Result<TrackingCommand, Refusal> {
        let heading_error = difference(m, input.pose.yaw_rad, reference.heading);
        let sin = m(Elementary::Sine(reference.heading));
        let cos = m(Elementary::Cosine(reference.heading));
        let lateral_error = sin.negated().times(
            input.pose.x_m.minus(reference.point.x_m),
        ).plus(cos.times(input.pose.y_m.minus(reference.point.y_m)));
        let curvature = reference.curvature.minus(self.lateral_gain.times(lateral_error)).minus(
            self.heading_gain.times(heading_error),
        );
        if self.max_heading_error_rad.lt(heading_error.abs()) || self.max_lateral_error_m.lt(
            lateral_error.abs(),
        ) || Binary64::of(QUARTER).lt(reference.curvature.times(lateral_error).abs()) {
            Err(
                Refusal::OutsideEnvelope {
                    lateral_error_m: lateral_error,
                    heading_error_rad: heading_error,
                    reference_curvature_per_m: reference.curvature,
                    max_lateral_error_m: self.max_lateral_error_m,
                    max_heading_error_rad: self.max_heading_error_rad,
                },
            )
        } else if !curvature.finite() {
            Err(Refusal::Invalid("LQR curvature is not finite"@))
        } else {
            Ok(
                TrackingCommand {
                    curvature_per_m: input.limited(curvature),
                    diagnostics: TrackingDiagnostics {
                        mode: TrackingMode::Lqr,
                        lateral_error_m: Some(lateral_error),
                        heading_error_rad: Some(heading_error),
                        reference_curvature_per_m: Some(reference.curvature),
                    },
                    ..command
                },
            )
        }
    }

    /// The command of the tracker. Below its least speed the model cannot be
    /// controlled, and pure pursuit takes its place.
    pub open spec fn followed(
        self,
        m: spec_fn(Elementary) -> Binary64,
        input: TrackInput<'_>,
    ) -> Result<TrackingCommand, Refusal> {
        match input.pure(m) {
            Err(e) => Err(e),
            Ok(command) => if input.speed_mps.lt(self.min_speed_mps) {
                Ok(command)
            } else {
                match input.reference(m) {
                    Err(why) => Err(Refusal::Invalid(why)),
                    Ok(reference) => self.corrected(m, input, command, reference),
                }
            },
        }
    }

    pub fn new<F: Fn(Elementary) -> Binary64>(config: TrackingConfig, host: &F) -> (r: Result<
        Self,
        TrackingError,
    >)
        requires
            elementary::total(*host),
        ensures
            forall|m: spec_fn(Elementary) -> Binary64| #[trigger]
                elementary::models(*host, m) ==> super::answer(r) == config.regulated(m),
    {
        match config {
            TrackingConfig::PurePursuit => Err(
                super::error("LQR tracker requires LQR configuration"),
            ),
            TrackingConfig::Lqr {
                q_lateral,
                q_heading,
                r_curvature,
                min_speed_mps,
                max_heading_error_rad,
                max_lateral_error_m,
            } => {
                if !safety::is_positive(q_lateral) || !safety::is_positive(q_heading)
                    || !safety::is_positive(r_curvature) || !min_speed_mps.is_finite()
                    || !super::is_within(MILLIONTH, min_speed_mps, THREE)
                    || !max_heading_error_rad.is_finite() || !super::is_within(
                    MILLIONTH,
                    max_heading_error_rad,
                    SEVEN_TENTHS,
                ) || !max_lateral_error_m.is_finite() || !super::is_within(
                    MILLIONTH,
                    max_lateral_error_m,
                    TWO,
                ) {
                    return Err(super::error("invalid LQR weights or small-error envelope"));
                }
                let lateral_gain: Binary64 = host(
                    Elementary::SquareRoot(q_lateral.over(r_curvature)),
                );
                let heading_gain: Binary64 = host(
                    Elementary::SquareRoot(
                        q_heading.over(r_curvature).plus(Binary64::of(TWO).times(lateral_gain)),
                    ),
                );
                if !safety::is_positive(lateral_gain) || !safety::is_positive(heading_gain) {
                    return Err(super::error("LQR gain overflow or underflow"));
                }
                Ok(
                    LqrTracker {
                        lateral_gain,
                        heading_gain,
                        min_speed_mps,
                        max_heading_error_rad,
                        max_lateral_error_m,
                    },
                )
            },
        }
    }
}

impl PathTracker for LqrTracker {
    fn track<F: Fn(Elementary) -> Binary64>(&self, input: TrackInput<'_>, host: &F) -> (r: Result<
        TrackingCommand,
        TrackingError,
    >)
        ensures
            forall|m: spec_fn(Elementary) -> Binary64| #[trigger]
                elementary::models(*host, m) ==> super::answer(r) == self.followed(m, input),
    {
        if !super::validate_input(input, host) {
            return Err(super::error("invalid, excessive, or degenerate tracking input"));
        }
        let command: TrackingCommand = match super::pure_pursuit(input, host) {
            Err(e) => {
                return Err(e);
            },
            Ok(command) => command,
        };
        if input.speed_mps.less(self.min_speed_mps) {
            return Ok(command);
        }
        let reference: Reference = match local_reference(input, host) {
            Err(why) => {
                return Err(super::error(why));
            },
            Ok(reference) => reference,
        };
        let delta: Binary64 = input.pose.yaw_rad.minus(reference.heading);
        let delta_sin: Binary64 = host(Elementary::Sine(delta));
        let delta_cos: Binary64 = host(Elementary::Cosine(delta));
        let heading_error: Binary64 = host(Elementary::Bearing { y: delta_sin, x: delta_cos });
        let sin: Binary64 = host(Elementary::Sine(reference.heading));
        let cos: Binary64 = host(Elementary::Cosine(reference.heading));
        let lateral_error: Binary64 = sin.negated().times(
            input.pose.x_m.minus(reference.point.x_m),
        ).plus(cos.times(input.pose.y_m.minus(reference.point.y_m)));
        if self.max_heading_error_rad.less(heading_error.abs()) || self.max_lateral_error_m.less(
            lateral_error.abs(),
        ) || Binary64::of(QUARTER).less(reference.curvature.times(lateral_error).abs()) {
            return Err(
                TrackingError::OutsideEnvelope {
                    lateral_error_m: lateral_error,
                    heading_error_rad: heading_error,
                    reference_curvature_per_m: reference.curvature,
                    max_lateral_error_m: self.max_lateral_error_m,
                    max_heading_error_rad: self.max_heading_error_rad,
                },
            );
        }
        let curvature: Binary64 = reference.curvature.minus(
            self.lateral_gain.times(lateral_error),
        ).minus(self.heading_gain.times(heading_error));
        if !curvature.is_finite() {
            return Err(super::error("LQR curvature is not finite"));
        }
        Ok(
            TrackingCommand {
                target: command.target,
                curvature_per_m: curvature.clamp(
                    input.max_curvature_per_m.negated(),
                    input.max_curvature_per_m,
                ),
                diagnostics: TrackingDiagnostics {
                    mode: TrackingMode::Lqr,
                    lateral_error_m: Some(lateral_error),
                    heading_error_rad: Some(heading_error),
                    reference_curvature_per_m: Some(reference.curvature),
                },
            },
        )
    }
}

fn local_reference<F: Fn(Elementary) -> Binary64>(input: TrackInput<'_>, host: &F) -> (r: Result<
    Reference,
    &'static str,
>)
    requires
        elementary::total(*host),
        input.in_bounds(),
    ensures
        forall|m: spec_fn(Elementary) -> Binary64| #[trigger]
            elementary::models(*host, m) ==> match r {
                Ok(reference) => input.reference(m) == Ok::<Reference, Seq<char>>(reference),
                Err(why) => input.reference(m) == Err::<Reference, Seq<char>>(why@),
            },
{
    let projection: Projection = match find_segment(input, host) {
        None => {
            return Err("LQR local path is degenerate");
        },
        Some(projection) => projection,
    };
    let first: Point2 = input.path[projection.first];
    let last: Point2 = input.path[projection.last];
    let bend: Result<Binary64, &'static str> = match previous_distinct(
        input.path,
        projection.first,
        host,
    ) {
        Some(before) => signed_curvature(input.path[before], first, last, host),
        None => match next_distinct(input.path, projection.last, host) {
            Some(after) => signed_curvature(first, last, input.path[after], host),
            None => Ok(Binary64::of(ZERO)),
        },
    };
    let curvature: Binary64 = match bend {
        Err(why) => {
            return Err(why);
        },
        Ok(curvature) => curvature,
    };
    let chord: Binary64 = first.distance(last, host);
    let half_turn: Binary64 = host(
        Elementary::ArcSine(
            curvature.times(chord).times(Binary64::of(HALF)).clamp(
                Binary64::of(ONE).negated(),
                Binary64::of(ONE),
            ),
        ),
    );
    let toward: Binary64 = host(
        Elementary::Bearing { y: last.y_m.minus(first.y_m), x: last.x_m.minus(first.x_m) },
    );
    let heading: Binary64 = toward.plus(
        Binary64::of(TWO).times(projection.fraction).minus(Binary64::of(ONE)).times(half_turn),
    );
    if !heading.is_finite() || !curvature.is_finite() {
        return Err("LQR reference geometry is not finite");
    }
    Ok(Reference { point: projection.point, heading, curvature })
}

fn find_segment<F: Fn(Elementary) -> Binary64>(input: TrackInput<'_>, host: &F) -> (r: Option<
    Projection,
>)
    requires
        elementary::total(*host),
        input.in_bounds(),
    ensures
        r matches Some(p) ==> p.first < input.path@.len() && p.last < input.path@.len(),
        forall|m: spec_fn(Elementary) -> Binary64| #[trigger]
            elementary::models(*host, m) ==> r == input.beside(m),
{
    let vertex: usize = input.progress;
    let incoming: Option<Projection> = match previous_distinct(input.path, vertex, host) {
        None => None,
        Some(first) => Some(project(input, first, vertex, host)),
    };
    let outgoing: Option<Projection> = match next_distinct(input.path, vertex, host) {
        None => None,
        Some(last) => Some(project(input, vertex, last, host)),
    };
    match (incoming, outgoing) {
        (Some(before), Some(after)) => if before.distance.less(after.distance) {
            Some(before)
        } else {
            Some(after)
        },
        (None, Some(after)) => Some(after),
        (Some(before), None) => Some(before),
        (None, None) => None,
    }
}

fn previous_distinct<F: Fn(Elementary) -> Binary64>(
    path: &[Point2],
    vertex: usize,
    host: &F,
) -> (r: Option<usize>)
    requires
        elementary::total(*host),
        vertex < path@.len(),
    ensures
        r matches Some(i) ==> i < vertex,
        forall|m: spec_fn(Elementary) -> Binary64| #[trigger]
            elementary::models(*host, m) ==> r == before_vertex(
                m,
                path@,
                vertex as int,
                vertex as nat,
            ),
{
    let mut n: usize = vertex;
    while n > 0
        invariant
            n <= vertex < path@.len(),
            elementary::total(*host),
            forall|m: spec_fn(Elementary) -> Binary64| #[trigger]
                elementary::models(*host, m) ==> before_vertex(
                    m,
                    path@,
                    vertex as int,
                    vertex as nat,
                ) == before_vertex(m, path@, vertex as int, n as nat),
        decreases n,
    {
        let length: Binary64 = path[n - 1].distance(path[vertex], host);
        if Binary64::of(MILLIONTH).less(length) {
            return Some(n - 1);
        }
        n -= 1;
    }
    None
}

fn next_distinct<F: Fn(Elementary) -> Binary64>(
    path: &[Point2],
    vertex: usize,
    host: &F,
) -> (r: Option<usize>)
    requires
        elementary::total(*host),
        vertex < path@.len() <= super::MAX_PATH_POINTS,
    ensures
        r matches Some(i) ==> vertex < i < path@.len(),
        forall|m: spec_fn(Elementary) -> Binary64| #[trigger]
            elementary::models(*host, m) ==> r == after_vertex(
                m,
                path@,
                vertex as int,
                vertex + 1,
            ),
{
    let mut i: usize = vertex + 1;
    while i < path.len()
        invariant
            vertex < i <= path@.len() <= super::MAX_PATH_POINTS,
            elementary::total(*host),
            forall|m: spec_fn(Elementary) -> Binary64| #[trigger]
                elementary::models(*host, m) ==> after_vertex(
                    m,
                    path@,
                    vertex as int,
                    vertex + 1,
                ) == after_vertex(m, path@, vertex as int, i as int),
        decreases path@.len() - i,
    {
        let length: Binary64 = path[i].distance(path[vertex], host);
        if Binary64::of(MILLIONTH).less(length) {
            return Some(i);
        }
        i += 1;
    }
    None
}

fn project<F: Fn(Elementary) -> Binary64>(
    input: TrackInput<'_>,
    first: usize,
    last: usize,
    host: &F,
) -> (r: Projection)
    requires
        elementary::total(*host),
        first < input.path@.len(),
        last < input.path@.len(),
    ensures
        r.first == first,
        r.last == last,
        forall|m: spec_fn(Elementary) -> Binary64| #[trigger]
            elementary::models(*host, m) ==> r == input.onto(m, first, last),
{
    let a: Point2 = input.path[first];
    let b: Point2 = input.path[last];
    let dx: Binary64 = b.x_m.minus(a.x_m);
    let dy: Binary64 = b.y_m.minus(a.y_m);
    let fraction: Binary64 = input.pose.x_m.minus(a.x_m).times(dx).plus(
        input.pose.y_m.minus(a.y_m).times(dy),
    ).over(dx.times(dx).plus(dy.times(dy))).clamp(Binary64::of(ZERO), Binary64::of(ONE));
    let point: Point2 = Point2 {
        x_m: a.x_m.plus(fraction.times(dx)),
        y_m: a.y_m.plus(fraction.times(dy)),
    };
    let distance: Binary64 = input.pose.point().distance(point, host);
    Projection { first, last, fraction, point, distance }
}

fn signed_curvature<F: Fn(Elementary) -> Binary64>(
    a: Point2,
    b: Point2,
    c: Point2,
    host: &F,
) -> (r: Result<Binary64, &'static str>)
    requires
        elementary::total(*host),
    ensures
        forall|m: spec_fn(Elementary) -> Binary64| #[trigger]
            elementary::models(*host, m) ==> match r {
                Ok(curvature) => curvature_of(m, a, b, c) == Ok::<Binary64, Seq<char>>(curvature),
                Err(why) => curvature_of(m, a, b, c) == Err::<Binary64, Seq<char>>(why@),
            },
{
    let ab: Binary64 = a.distance(b, host);
    let bc: Binary64 = b.distance(c, host);
    let ac: Binary64 = a.distance(c, host);
    if ac.at_most(Binary64::of(MILLIONTH)) {
        return Err("LQR path contains a local reversal");
    }
    let cross: Binary64 = b.x_m.minus(a.x_m).times(c.y_m.minus(a.y_m)).minus(
        b.y_m.minus(a.y_m).times(c.x_m.minus(a.x_m)),
    );
    let dot: Binary64 = b.x_m.minus(a.x_m).times(c.x_m.minus(b.x_m)).plus(
        b.y_m.minus(a.y_m).times(c.y_m.minus(b.y_m)),
    );
    if dot.at_most(Binary64::of(ZERO)) {
        return Err("LQR path corner exceeds the forward small-error model");
    }
    let curvature: Binary64 = Binary64::of(TWO).times(cross).over(ab.times(bc).times(ac));
    if !curvature.is_finite() {
        return Err("LQR path curvature is not finite");
    }
    Ok(curvature)
}

/// Whatever the tracker, the curvature of a command lies within the limit of
/// its input.
pub proof fn law_curvature_is_bounded(
    config: TrackingConfig,
    m: spec_fn(Elementary) -> Binary64,
    input: TrackInput<'_>,
)
    requires
        config.followed(m, input) is Ok,
    ensures
        ({
            let c = config.followed(m, input)->Ok_0.curvature_per_m;
            let limit = input.max_curvature_per_m;
            limit.negated().le(c) && c.le(limit) && c.finite()
        }),
{
}

/// A command is for a target ahead of the vehicle, whatever the tracker.
pub proof fn law_target_lies_ahead(
    config: TrackingConfig,
    m: spec_fn(Elementary) -> Binary64,
    input: TrackInput<'_>,
)
    requires
        config.followed(m, input) is Ok,
    ensures
        config.followed(m, input)->Ok_0.target == input.target(m),
        Binary64::of(ZERO).lt(input.pose.seen(m, input.target(m)).x_m),
{
    let body = input.pose.seen(m, input.target(m));
    if body.x_m.nan() {
        laws::law_nan_propagates(body.x_m, body.x_m);
        laws::law_nan_propagates(body.x_m.times(body.x_m), body.y_m.times(body.y_m));
    }
}

/// Below its least speed the LQR tracker commands what pure pursuit commands.
pub proof fn law_low_speed_falls_back(
    tracker: LqrTracker,
    m: spec_fn(Elementary) -> Binary64,
    input: TrackInput<'_>,
)
    requires
        input.speed_mps.lt(tracker.min_speed_mps),
    ensures
        tracker.followed(m, input) == input.pure(m),
{
}

} // verus!
