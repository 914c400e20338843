//! Short connections to a goal, solved by a few corrected samples.
use super::correction::{Row, System};
use super::correction;
use super::{
    Connection, EndpointPolicy, Event, Ledger, TerminalBudget, TwoArcConnection, TwoArcSeed,
    Variables,
};
use crate::autonomy::{Point2, Pose2};
use crate::binary64::values::{
    BILLIONTH, FOUR, HALF, HALF_PI, MILLIONTH, ONE, SEVEN_TWENTIETHS, TEN_THOUSANDTH, THOUSANDTH,
    THREE, TRILLIONTH, TWO, ZERO,
};
use crate::binary64::Binary64;
use crate::elementary::Elementary;
use crate::elementary;
use crate::navigation::primitive_envelope::ErrorBound;
use crate::navigation::NavigationConfig;
use vstd::prelude::*;

verus! {

/// A segment to be driven with a steering ramp.
#[derive(Clone, Copy, Debug)]
pub struct Primitive {
    pub start: Pose2,
    pub initial_curvature: Binary64,
    pub target_curvature: Binary64,
    pub length: Binary64,
    pub error: ErrorBound,
}

/// Where a segment leads, with its samples.
#[derive(Debug)]
pub struct Arrival {
    pub points: Vec<Point2>,
    pub endpoint: Pose2,
    pub curvature: Binary64,
    pub error: ErrorBound,
}

/// An arrival with its samples as a sequence.
pub struct Reach {
    pub points: Seq<Point2>,
    pub endpoint: Pose2,
    pub curvature: Binary64,
    pub error: ErrorBound,
}

impl View for Arrival {
    type V = Reach;

    open spec fn view(&self) -> Reach {
        Reach {
            points: self.points@,
            endpoint: self.endpoint,
            curvature: self.curvature,
            error: self.error,
        }
    }
}

pub open spec fn reached(r: Option<Arrival>) -> Option<Reach> {
    match r {
        None => None,
        Some(arrival) => Some(arrival@),
    }
}

pub open spec fn connected(r: Option<TwoArcConnection>) -> Option<Connection> {
    match r {
        None => None,
        Some(connection) => Some(connection@),
    }
}

/// What is to be connected: a pose with its curvature and uncertainty, and a
/// goal.
#[derive(Clone, Copy, Debug)]
pub struct Approach {
    pub start: Pose2,
    pub initial_curvature: Binary64,
    pub goal: Point2,
    pub error: ErrorBound,
}

/// The solvers over a configuration, a sampling resolution, the host's
/// functions, and the call that drives a segment through the grid.
pub struct Terminal<'a, F, D> {
    pub config: NavigationConfig,
    pub resolution: Binary64,
    pub host: &'a F,
    pub drive: &'a D,
}

/// Mathematical functions in place of the calls.
pub struct Model {
    pub config: NavigationConfig,
    pub resolution: Binary64,
    pub math: spec_fn(Elementary) -> Binary64,
    pub drive: spec_fn(Primitive) -> Option<Reach>,
}

/// Whether a value is `x` moved by a small step that stays below a bound.
pub open spec fn nudge(x: Binary64, step: Binary64, upper: Binary64) -> Binary64 {
    if x.plus(step).le(upper) {
        step
    } else {
        step.negated()
    }
}

fn nudge_of(x: Binary64, step: Binary64, upper: Binary64) -> (r: Binary64)
    ensures
        r == nudge(x, step, upper),
{
    if x.plus(step).at_most(upper) {
        step
    } else {
        step.negated()
    }
}

/// How an endpoint moves with one variable.
#[derive(Clone, Copy, Debug)]
pub struct Slope {
    pub x: Binary64,
    pub y: Binary64,
    pub yaw: Binary64,
}

impl Model {
    /// The turn between two headings.
    pub open spec fn turn(self, to: Binary64, from: Binary64) -> Binary64 {
        (self.math)(Elementary::Turn { to, from })
    }

    pub open spec fn length(self, x: Binary64, y: Binary64) -> Binary64 {
        (self.math)(Elementary::Length { x, y })
    }

    /// The samples charged for a segment.
    pub open spec fn samples(self, length: Binary64) -> usize {
        length.over(super::sample_arc_bound(self.resolution)).ceil().max(
            Binary64::of(ONE),
        ).truncated(usize::MAX as u64) as usize
    }

    /// One segment, charged before it is driven.
    pub open spec fn driven(self, b: Ledger, p: Primitive) -> (Ledger, Option<Reach>) {
        let (charged, granted) = b.charged(0, 0, self.samples(p.length));
        if !granted {
            (charged, None)
        } else {
            match (self.drive)(p) {
                None => (charged.counting(Event::GridRejection), None),
                Some(reach) => (charged, Some(reach)),
            }
        }
    }

    /// Two segments, one after the other.
    #[verifier::opaque]
    pub open spec fn driven_twice(self, b: Ledger, a: Approach, v: Variables, fraction: Binary64) -> (
        Ledger,
        Option<Reach>,
    ) {
        let (b1, first) = self.driven(
            b,
            Primitive {
                start: a.start,
                initial_curvature: a.initial_curvature,
                target_curvature: v.first,
                length: v.length.times(fraction),
                error: a.error,
            },
        );
        match first {
            None => (b1, None),
            Some(middle) => {
                let (b2, second) = self.driven(
                    b1,
                    Primitive {
                        start: middle.endpoint,
                        initial_curvature: middle.curvature,
                        target_curvature: v.second,
                        length: v.length.times(Binary64::of(ONE).minus(fraction)),
                        error: middle.error,
                    },
                );
                match second {
                    None => (b2, None),
                    Some(end) => (b2, Some(Reach { points: middle.points + end.points, ..end })),
                }
            },
        }
    }

    /// Whether a heading error is accepted.
    pub open spec fn heading_ok(self, endpoint: Pose2, heading: Binary64, error: ErrorBound) -> bool {
        self.turn(endpoint.yaw_rad, heading).abs().plus(error.heading_rad).le(
            self.config.goal_heading_tolerance_rad.times(Binary64::of(HALF)),
        )
    }

    /// Whether a position is accepted, with the uncertainty of its model.
    pub open spec fn position_ok(self, reach: Reach, goal: Point2, policy: EndpointPolicy) -> bool {
        self.length(
            reach.endpoint.x_m.minus(goal.x_m),
            reach.endpoint.y_m.minus(goal.y_m),
        ).plus(reach.error.position_m).lt(policy.position_tolerance(self.config))
    }

    pub open spec fn curvature_step(self) -> Binary64 {
        self.config.max_curvature_per_m.times(Binary64::of(THOUSANDTH)).min(
            Binary64::of(THOUSANDTH),
        )
    }

    /// The variables with one of them moved.
    pub open spec fn moved(self, v: Variables, column: u8, delta: Binary64) -> Variables {
        if column == 0 {
            Variables { first: v.first.plus(delta), ..v }
        } else if column == 1 {
            Variables { second: v.second.plus(delta), ..v }
        } else {
            Variables { length: v.length.plus(delta), ..v }
        }
    }

    pub open spec fn delta(self, v: Variables, column: u8, distance: Binary64) -> Binary64 {
        let k = self.config.max_curvature_per_m;
        if column == 0 {
            nudge(v.first, self.curvature_step(), k)
        } else if column == 1 {
            nudge(v.second, self.curvature_step(), k)
        } else {
            nudge(v.length, length_step(distance), max_length(distance))
        }
    }

    /// How the endpoint moves with a variable, by a finite difference.
    pub open spec fn slope(
        self,
        b: Ledger,
        a: Approach,
        v: Variables,
        fraction: Binary64,
        distance: Binary64,
        column: u8,
        base: Pose2,
    ) -> (Ledger, Option<Slope>) {
        let delta = self.delta(v, column, distance);
        let (after, end) = self.driven_twice(b, a, self.moved(v, column, delta), fraction);
        match end {
            None => (after, None),
            Some(end) => (
                after,
                Some(
                    Slope {
                        x: end.endpoint.x_m.minus(base.x_m).over(delta),
                        y: end.endpoint.y_m.minus(base.y_m).over(delta),
                        yaw: self.turn(end.endpoint.yaw_rad, base.yaw_rad).over(delta),
                    },
                ),
            ),
        }
    }

    /// The variables after a correction, where they stay finite.
    pub open spec fn corrected(
        self,
        v: Variables,
        change: (Binary64, Binary64, Binary64),
        distance: Binary64,
    ) -> Option<Variables> {
        let k = self.config.max_curvature_per_m;
        let first = v.first.minus(change.0);
        let second = v.second.minus(change.1);
        let length = v.length.minus(change.2);
        if first.finite() && second.finite() && length.finite() {
            Some(
                Variables {
                    first: first.clamp(k.negated(), k),
                    second: second.clamp(k.negated(), k),
                    length: length.clamp(distance, max_length(distance)),
                },
            )
        } else {
            None
        }
    }

    /// The next variables of a two-part approach: the endpoint's slopes in each
    /// variable, and the step that would cancel its error.
    #[verifier::opaque]
    pub open spec fn improved(
        self,
        b: Ledger,
        a: Approach,
        heading: Binary64,
        v: Variables,
        fraction: Binary64,
        distance: Binary64,
        end: Pose2,
    ) -> (Ledger, Option<Variables>) {
        let (b0, s0) = self.slope(b, a, v, fraction, distance, 0, end);
        let (b1, s1) = self.slope(b0, a, v, fraction, distance, 1, end);
        let (b2, s2) = self.slope(b1, a, v, fraction, distance, 2, end);
        if s0 is None {
            (b0, None)
        } else if s1 is None {
            (b1, None)
        } else if s2 is None {
            (b2, None)
        } else {
            let system = System {
                top: Row {
                    a: s0->0.x,
                    b: s1->0.x,
                    c: s2->0.x,
                    rhs: end.x_m.minus(a.goal.x_m),
                },
                middle: Row {
                    a: s0->0.y,
                    b: s1->0.y,
                    c: s2->0.y,
                    rhs: end.y_m.minus(a.goal.y_m),
                },
                bottom: Row {
                    a: s0->0.yaw,
                    b: s1->0.yaw,
                    c: s2->0.yaw,
                    rhs: self.turn(end.yaw_rad, heading),
                },
            };
            match system.solved() {
                None => (b2, None),
                Some(change) => (b2, self.corrected(v, change, distance)),
            }
        }
    }

    /// At most `n` iterations of a two-part approach.
    pub open spec fn two_arc_in(
        self,
        b: Ledger,
        a: Approach,
        heading: Binary64,
        v: Variables,
        fraction: Binary64,
        distance: Binary64,
        used_seed: bool,
        policy: EndpointPolicy,
        n: nat,
    ) -> (Ledger, Option<Connection>)
        decreases n,
    {
        if n == 0 {
            (b.counting(Event::IterationExhaustion), None)
        } else {
            let (b1, granted) = b.charged(0, 1, 0);
            if !granted {
                (b1, None)
            } else {
                match self.driven_twice(b1, a, v, fraction) {
                    (b2, None) => (b2, None),
                    (b2, Some(end)) => if self.position_ok(end, a.goal, policy)
                        && self.heading_ok(end.endpoint, heading, end.error) {
                        (
                            b2,
                            Some(
                                Connection {
                                    used_seed,
                                    points: end.points,
                                    endpoint: end.endpoint,
                                    end_curvature: end.curvature,
                                    seed: TwoArcSeed { variables: v, first_fraction: fraction },
                                    error: end.error,
                                },
                            ),
                        )
                    } else {
                        match self.improved(b2, a, heading, v, fraction, distance, end.endpoint) {
                            (b3, None) => (b3, None),
                            (b3, Some(next)) => self.two_arc_in(
                                b3,
                                a,
                                heading,
                                next,
                                fraction,
                                distance,
                                used_seed,
                                policy,
                                (n - 1) as nat,
                            ),
                        }
                    },
                }
            }
        }
    }

    /// The variables to start from: those of a seed, else small-angle geometry.
    pub open spec fn guess(
        self,
        a: Approach,
        heading: Binary64,
        seed: Option<TwoArcSeed>,
        local: Point2,
        distance: Binary64,
    ) -> Variables {
        let k = self.config.max_curvature_per_m;
        let change = self.turn(heading, a.start.yaw_rad);
        let offset = Binary64::of(FOUR).times(local.y_m).over(distance.times(distance));
        let v = match seed {
            Some(seed) => seed.variables,
            None => Variables {
                first: offset.minus(change.over(distance)).clamp(k.negated(), k),
                second: Binary64::of(THREE).times(change).over(distance).minus(offset).clamp(
                    k.negated(),
                    k,
                ),
                length: distance,
            },
        };
        Variables { length: v.length.clamp(distance, max_length(distance)), ..v }
    }

    /// The two-part approach: the goal has to lie ahead within two lookahead
    /// distances.
    pub open spec fn two_arc_solved(
        self,
        b: Ledger,
        a: Approach,
        heading: Binary64,
        seed: Option<TwoArcSeed>,
        policy: EndpointPolicy,
    ) -> (Ledger, Option<Connection>) {
        let local = a.start.seen(self.math, a.goal);
        let distance = (self.math)(a.start.point().separation(a.goal));
        let reach = Binary64::of(TWO).times(self.config.lookahead_m).min(Binary64::of(TWO));
        if local.x_m.le(Binary64::of(ZERO)) || !(Binary64::of(MILLIONTH).le(distance)
            && distance.le(reach)) {
            (b.counting(Event::DomainRejection), None)
        } else {
            let (b1, granted) = b.charged(1, 0, 0);
            if !granted {
                (b1, None)
            } else {
                self.two_arc_in(
                    b1,
                    a,
                    heading,
                    self.guess(a, heading, seed, local, distance),
                    match seed {
                        Some(seed) => seed.first_fraction,
                        None => Binary64::of(HALF),
                    },
                    distance,
                    seed is Some,
                    policy,
                    8,
                )
            }
        }
    }

    /// A continued approach from a seed.
    pub open spec fn continued(
        self,
        b: Ledger,
        a: Approach,
        heading: Binary64,
        seed: TwoArcSeed,
    ) -> (Ledger, Option<Connection>) {
        let (b1, found) = self.two_arc_solved(
            b.counting(Event::SeedAttempt),
            a,
            heading,
            Some(seed),
            EndpointPolicy::ExactCenter,
        );
        match found {
            None => (b1, None),
            Some(connection) => (b1.counting(Event::SeedAccepted), Some(connection)),
        }
    }

    /// A cold approach, then one from the seed where there is one.
    pub open spec fn approached(
        self,
        b: Ledger,
        a: Approach,
        heading: Binary64,
        seed: Option<TwoArcSeed>,
    ) -> (Ledger, Option<Connection>) {
        let (b1, cold) = self.two_arc_solved(
            b,
            a,
            heading,
            None,
            EndpointPolicy::ExactCenter,
        );
        if cold is Some || seed is None {
            (b1, cold)
        } else {
            self.continued(b1, a, heading, seed->0)
        }
    }

    /// At most `n` iterations of a single arc.
    pub open spec fn single_arc_in(
        self,
        b: Ledger,
        a: Approach,
        heading: Option<Binary64>,
        curvature: Binary64,
        length: Binary64,
        distance: Binary64,
        policy: EndpointPolicy,
        n: nat,
    ) -> (Ledger, Option<Reach>)
        decreases n,
    {
        let primitive = Primitive {
            start: a.start,
            initial_curvature: a.initial_curvature,
            target_curvature: curvature,
            length,
            error: a.error,
        };
        if n == 0 {
            (b.counting(Event::IterationExhaustion), None)
        } else {
            let (b1, granted) = b.charged(0, 1, 0);
            if !granted {
                (b1, None)
            } else {
                match self.driven(b1, primitive) {
                    (b2, None) => (b2, None),
                    (b2, Some(end)) => if self.position_ok(end, a.goal, policy) {
                        (
                            b2,
                            if heading is None || self.heading_ok(
                                end.endpoint,
                                heading->0,
                                end.error,
                            ) {
                                Some(end)
                            } else {
                                None
                            },
                        )
                    } else {
                        match self.bent(b2, a, primitive, distance, end.endpoint) {
                            (b3, None) => (b3, None),
                            (b3, Some((next_curvature, next_length))) => self.single_arc_in(
                                b3,
                                a,
                                heading,
                                next_curvature,
                                next_length,
                                distance,
                                policy,
                                (n - 1) as nat,
                            ),
                        }
                    },
                }
            }
        }
    }

    /// The next curvature and length of a single arc.
    pub open spec fn bent(
        self,
        b: Ledger,
        a: Approach,
        p: Primitive,
        distance: Binary64,
        end: Pose2,
    ) -> (Ledger, Option<(Binary64, Binary64)>) {
        let k = self.config.max_curvature_per_m;
        let dk = nudge(p.target_curvature, self.curvature_step(), k);
        let ds = nudge(p.length, length_step(distance), max_length(distance));
        let (b1, turn) = self.driven(
            b,
            Primitive { target_curvature: p.target_curvature.plus(dk), ..p },
        );
        let (b2, travel) = self.driven(b1, Primitive { length: p.length.plus(ds), ..p });
        if turn is None {
            (b1, None)
        } else if travel is None {
            (b2, None)
        } else {
            let dx_k = turn->0.endpoint.x_m.minus(end.x_m).over(dk);
            let dy_k = turn->0.endpoint.y_m.minus(end.y_m).over(dk);
            let dx_s = travel->0.endpoint.x_m.minus(end.x_m).over(ds);
            let dy_s = travel->0.endpoint.y_m.minus(end.y_m).over(ds);
            let ex = end.x_m.minus(a.goal.x_m);
            let ey = end.y_m.minus(a.goal.y_m);
            let determinant = dx_k.times(dy_s).minus(dx_s.times(dy_k));
            if !determinant.finite() || determinant.abs().lt(Binary64::of(TRILLIONTH)) {
                (b2, None)
            } else {
                (
                    b2,
                    Some(
                        (
                            p.target_curvature.minus(
                                ex.times(dy_s).minus(ey.times(dx_s)).over(determinant),
                            ).clamp(k.negated(), k),
                            p.length.minus(
                                dx_k.times(ey).minus(dy_k.times(ex)).over(determinant),
                            ).clamp(distance, max_length(distance)),
                        ),
                    ),
                )
            }
        }
    }

    /// The single arc: the goal has to lie ahead and near.
    pub open spec fn single_arc_solved(
        self,
        b: Ledger,
        a: Approach,
        heading: Option<Binary64>,
        policy: EndpointPolicy,
    ) -> (Ledger, Option<Reach>) {
        let k = self.config.max_curvature_per_m;
        let local = a.start.seen(self.math, a.goal);
        let distance = (self.math)(a.start.point().separation(a.goal));
        let circle = Binary64::of(TWO).times(local.y_m).over(distance.times(distance));
        if local.x_m.le(Binary64::of(ZERO)) || !(Binary64::of(BILLIONTH).le(distance)
            && distance.lt(Binary64::of(SEVEN_TWENTIETHS))) {
            (b.counting(Event::DomainRejection), None)
        } else {
            let (b1, granted) = b.charged(1, 0, 0);
            if !granted {
                (b1, None)
            } else {
                self.single_arc_in(
                    b1,
                    a,
                    heading,
                    circle.clamp(k.negated(), k),
                    if circle.abs().lt(Binary64::of(BILLIONTH)) {
                        local.x_m
                    } else {
                        Binary64::of(TWO).times(
                            (self.math)(Elementary::Bearing { y: local.y_m, x: local.x_m }),
                        ).over(circle)
                    },
                    distance,
                    policy,
                    8,
                )
            }
        }
    }

    /// The fallback to any endpoint within half the tolerances: a single arc,
    /// then two.
    pub open spec fn region_reached(self, b: Ledger, a: Approach, heading: Binary64) -> (
        Ledger,
        Option<Reach>,
    ) {
        if b.work.budget_exhausted {
            (b, None)
        } else {
            let (b1, single) = self.single_arc_solved(
                b.counting(Event::RegionAttempt),
                a,
                Some(heading),
                EndpointPolicy::ArrivalRegion,
            );
            let (b2, found) = if single is Some {
                (b1, single)
            } else {
                let (b2, double) = self.two_arc_solved(
                    b1,
                    a,
                    heading,
                    None,
                    EndpointPolicy::ArrivalRegion,
                );
                (
                    b2,
                    match double {
                        None => None,
                        Some(c) => Some(
                            Reach {
                                points: c.points,
                                endpoint: c.endpoint,
                                curvature: c.end_curvature,
                                error: c.error,
                            },
                        ),
                    },
                )
            };
            if found is Some {
                (b2.counting(Event::RegionAccepted), found)
            } else {
                (b2, None)
            }
        }
    }
}

/// The longest arc that is searched over a distance.
pub open spec fn max_length(distance: Binary64) -> Binary64 {
    distance.times(Binary64::of(HALF_PI))
}

pub open spec fn length_step(distance: Binary64) -> Binary64 {
    distance.times(Binary64::of(THOUSANDTH)).min(Binary64::of(TEN_THOUSANDTH))
}

fn max_length_of(distance: Binary64) -> (r: Binary64)
    ensures
        r == max_length(distance),
{
    distance.times(Binary64::of(HALF_PI))
}

fn length_step_of(distance: Binary64) -> (r: Binary64)
    ensures
        r == length_step(distance),
{
    distance.times(Binary64::of(THOUSANDTH)).min(Binary64::of(TEN_THOUSANDTH))
}

impl<'a, F: Fn(Elementary) -> Binary64, D: Fn(Primitive) -> Option<Arrival>> Terminal<'a, F, D> {
    /// Whether both calls can always be made.
    pub open spec fn total(&self) -> bool {
        &&& elementary::total(*self.host)
        &&& forall|p: Primitive| #[trigger] call_requires(*self.drive, (p,))
    }

    /// Whether a model gives every answer of the calls.
    pub open spec fn described(&self, m: Model) -> bool {
        &&& m.config == self.config
        &&& m.resolution == self.resolution
        &&& elementary::models(*self.host, m.math)
        &&& forall|p: Primitive, r: Option<Arrival>| #[trigger]
            call_ensures(*self.drive, (p,), r) ==> reached(r) == (m.drive)(p)
    }

    fn turn(&self, to: Binary64, from: Binary64) -> (r: Binary64)
        requires
            self.total(),
        ensures
            forall|m: Model| #[trigger] self.described(m) ==> r == m.turn(to, from),
    {
        let host: &'a F = self.host;
        let r: Binary64 = host(Elementary::Turn { to, from });
        assert forall|m: Model| #[trigger] self.described(m) implies r == m.turn(to, from) by {
            assert(elementary::models(*self.host, m.math));
        }
        r
    }

    fn curvature_step(&self) -> (r: Binary64)
        ensures
            forall|m: Model| #[trigger] self.described(m) ==> r == m.curvature_step(),
    {
        self.config.max_curvature_per_m.times(Binary64::of(THOUSANDTH)).min(
            Binary64::of(THOUSANDTH),
        )
    }

    fn run(&self, budget: &mut TerminalBudget, p: Primitive) -> (r: Option<Arrival>)
        requires
            self.total(),
            old(budget)@.sound(),
            old(budget)@.work.room(1),
        ensures
            final(budget)@.sound(),
            r is Some ==> final(budget)@.work.grown(old(budget)@.work, 0),
            final(budget)@.work.grown(old(budget)@.work, 1),
            forall|m: Model| #[trigger]
                self.described(m) ==> (final(budget)@, reached(r)) == m.driven(old(budget)@, p),
    {
        let samples: usize = p.length.over(super::sample_arc_bound(self.resolution)).ceil().max(
            Binary64::of(ONE),
        ).to_size();
        if !budget.charge(0, 0, samples) {
            return None;
        }
        let drive: &'a D = self.drive;
        let result: Option<Arrival> = drive(p);
        if result.is_none() {
            budget.count(Event::GridRejection);
        }
        result
    }

    fn run_twice(
        &self,
        budget: &mut TerminalBudget,
        a: Approach,
        v: Variables,
        fraction: Binary64,
    ) -> (r: Option<Arrival>)
        requires
            self.total(),
            old(budget)@.sound(),
            old(budget)@.work.room(1),
        ensures
            final(budget)@.sound(),
            r is Some ==> final(budget)@.work.grown(old(budget)@.work, 0),
            final(budget)@.work.grown(old(budget)@.work, 1),
            forall|m: Model| #[trigger]
                self.described(m) ==> (final(budget)@, reached(r)) == m.driven_twice(
                    old(budget)@,
                    a,
                    v,
                    fraction,
                ),
    {
        reveal(Model::driven_twice);
        let first: Primitive = Primitive {
            start: a.start,
            initial_curvature: a.initial_curvature,
            target_curvature: v.first,
            length: v.length.times(fraction),
            error: a.error,
        };
        let middle: Arrival = match self.run(budget, first) {
            None => {
                return None;
            },
            Some(middle) => middle,
        };
        let second: Primitive = Primitive {
            start: middle.endpoint,
            initial_curvature: middle.curvature,
            target_curvature: v.second,
            length: v.length.times(Binary64::of(ONE).minus(fraction)),
            error: middle.error,
        };
        match self.run(budget, second) {
            None => None,
            Some(end) => {
                let mut points: Vec<Point2> = middle.points;
                let mut last: Vec<Point2> = end.points;
                points.append(&mut last);
                Some(
                    Arrival {
                        points,
                        endpoint: end.endpoint,
                        curvature: end.curvature,
                        error: end.error,
                    },
                )
            },
        }
    }

    fn heading_ok(&self, endpoint: Pose2, heading: Binary64, error: ErrorBound) -> (r: bool)
        requires
            self.total(),
        ensures
            forall|m: Model| #[trigger]
                self.described(m) ==> r == m.heading_ok(endpoint, heading, error),
    {
        self.turn(endpoint.yaw_rad, heading).abs().plus(error.heading_rad).at_most(
            self.config.goal_heading_tolerance_rad.times(Binary64::of(HALF)),
        )
    }

    fn position_ok(
        &self,
        endpoint: Pose2,
        error: ErrorBound,
        goal: Point2,
        policy: EndpointPolicy,
        Ghost(reach): Ghost<Reach>,
    ) -> (r: bool)
        requires
            self.total(),
            reach.endpoint == endpoint,
            reach.error == error,
        ensures
            forall|m: Model| #[trigger] self.described(m) ==> r == m.position_ok(reach, goal, policy),
    {
        let host: &'a F = self.host;
        let off: Binary64 = host(
            Elementary::Length {
                x: endpoint.x_m.minus(goal.x_m),
                y: endpoint.y_m.minus(goal.y_m),
            },
        );
        let r: bool = off.plus(error.position_m).less(policy.position_tolerance(self.config));
        assert forall|m: Model| #[trigger] self.described(m) implies r == m.position_ok(
            reach,
            goal,
            policy,
        ) by {
            assert(elementary::models(*self.host, m.math));
        }
        r
    }

    fn slope(
        &self,
        budget: &mut TerminalBudget,
        a: Approach,
        v: Variables,
        fraction: Binary64,
        distance: Binary64,
        column: u8,
        base: Pose2,
    ) -> (r: Option<Slope>)
        requires
            self.total(),
            old(budget)@.sound(),
            old(budget)@.work.room(1),
        ensures
            final(budget)@.sound(),
            r is Some ==> final(budget)@.work.grown(old(budget)@.work, 0),
            final(budget)@.work.grown(old(budget)@.work, 1),
            forall|m: Model| #[trigger]
                self.described(m) ==> (final(budget)@, r) == m.slope(
                    old(budget)@,
                    a,
                    v,
                    fraction,
                    distance,
                    column,
                    base,
                ),
    {
        let k: Binary64 = self.config.max_curvature_per_m;
        let delta: Binary64;
        let moved: Variables;
        if column == 0 {
            delta = nudge_of(v.first, self.curvature_step(), k);
            moved = Variables { first: v.first.plus(delta), second: v.second, length: v.length };
        } else if column == 1 {
            delta = nudge_of(v.second, self.curvature_step(), k);
            moved = Variables { first: v.first, second: v.second.plus(delta), length: v.length };
        } else {
            delta = nudge_of(v.length, length_step_of(distance), max_length_of(distance));
            moved = Variables { first: v.first, second: v.second, length: v.length.plus(delta) };
        }
        match self.run_twice(budget, a, moved, fraction) {
            None => None,
            Some(end) => {
                let turned: Binary64 = self.turn(end.endpoint.yaw_rad, base.yaw_rad);
                Some(
                    Slope {
                        x: end.endpoint.x_m.minus(base.x_m).over(delta),
                        y: end.endpoint.y_m.minus(base.y_m).over(delta),
                        yaw: turned.over(delta),
                    },
                )
            },
        }
    }

    fn improve(
        &self,
        budget: &mut TerminalBudget,
        a: Approach,
        heading: Binary64,
        v: Variables,
        fraction: Binary64,
        distance: Binary64,
        end: Pose2,
    ) -> (r: Option<Variables>)
        requires
            self.total(),
            old(budget)@.sound(),
            old(budget)@.work.room(1),
        ensures
            final(budget)@.sound(),
            r is Some ==> final(budget)@.work.grown(old(budget)@.work, 0),
            final(budget)@.work.grown(old(budget)@.work, 1),
            forall|m: Model| #[trigger]
                self.described(m) ==> (final(budget)@, r) == m.improved(
                    old(budget)@,
                    a,
                    heading,
                    v,
                    fraction,
                    distance,
                    end,
                ),
    {
        reveal(Model::improved);
        let s0: Slope = match self.slope(budget, a, v, fraction, distance, 0, end) {
            None => {
                return None;
            },
            Some(s) => s,
        };
        let s1: Slope = match self.slope(budget, a, v, fraction, distance, 1, end) {
            None => {
                return None;
            },
            Some(s) => s,
        };
        let s2: Slope = match self.slope(budget, a, v, fraction, distance, 2, end) {
            None => {
                return None;
            },
            Some(s) => s,
        };
        let turned: Binary64 = self.turn(end.yaw_rad, heading);
        let system: System = System {
            top: Row { a: s0.x, b: s1.x, c: s2.x, rhs: end.x_m.minus(a.goal.x_m) },
            middle: Row { a: s0.y, b: s1.y, c: s2.y, rhs: end.y_m.minus(a.goal.y_m) },
            bottom: Row { a: s0.yaw, b: s1.yaw, c: s2.yaw, rhs: turned },
        };
        let change: (Binary64, Binary64, Binary64) = match correction::solve_endpoint_correction(
            system,
        ) {
            None => {
                return None;
            },
            Some(change) => change,
        };
        let k: Binary64 = self.config.max_curvature_per_m;
        let first: Binary64 = v.first.minus(change.0);
        let second: Binary64 = v.second.minus(change.1);
        let length: Binary64 = v.length.minus(change.2);
        if first.is_finite() && second.is_finite() && length.is_finite() {
            Some(
                Variables {
                    first: first.clamp(k.negated(), k),
                    second: second.clamp(k.negated(), k),
                    length: length.clamp(distance, max_length_of(distance)),
                },
            )
        } else {
            None
        }
    }

    /// A short approach in two parts with three bounded variables: the target
    /// curvatures and the total length. A cold start takes equal parts, a seed
    /// keeps its parts. Every sample is driven and charged.
    #[verifier::rlimit(60)]
    #[verifier::spinoff_prover]
    pub fn solve_two_arc(
        &self,
        budget: &mut TerminalBudget,
        a: Approach,
        heading: Binary64,
        seed: Option<TwoArcSeed>,
        policy: EndpointPolicy,
    ) -> (r: Option<TwoArcConnection>)
        requires
            self.total(),
            old(budget)@.sound(),
            old(budget)@.work.room(1),
        ensures
            final(budget)@.sound(),
            final(budget)@.work.grown(old(budget)@.work, 1),
            forall|m: Model| #[trigger]
                self.described(m) ==> (final(budget)@, connected(r)) == m.two_arc_solved(
                    old(budget)@,
                    a,
                    heading,
                    seed,
                    policy,
                ),
    {
        let local: Point2 = a.start.world_to_body(a.goal, self.host);
        let distance: Binary64 = a.start.point().distance(a.goal, self.host);
        let ghost start = budget@;
        assert forall|m: Model| #[trigger] self.described(m) implies local == a.start.seen(
            m.math,
            a.goal,
        ) && distance == (m.math)(a.start.point().separation(a.goal)) by {
            assert(elementary::models(*self.host, m.math));
        }
        let reach: Binary64 = Binary64::of(TWO).times(self.config.lookahead_m).min(
            Binary64::of(TWO),
        );
        if local.x_m.at_most(Binary64::of(ZERO)) || !(Binary64::of(MILLIONTH).at_most(distance)
            && distance.at_most(reach)) {
            budget.count(Event::DomainRejection);
            return None;
        }
        let change: Binary64 = self.turn(heading, a.start.yaw_rad);
        if !budget.charge(1, 0, 0) {
            return None;
        }
        let k: Binary64 = self.config.max_curvature_per_m;
        let offset: Binary64 = Binary64::of(FOUR).times(local.y_m).over(distance.times(distance));
        let fraction: Binary64 = match seed {
            Some(seed) => seed.first_fraction,
            None => Binary64::of(HALF),
        };
        let guess: Variables = match seed {
            Some(seed) => seed.variables,
            None => Variables {
                first: offset.minus(change.over(distance)).clamp(k.negated(), k),
                second: Binary64::of(THREE).times(change).over(distance).minus(offset).clamp(
                    k.negated(),
                    k,
                ),
                length: distance,
            },
        };
        let mut v: Variables = Variables {
            first: guess.first,
            second: guess.second,
            length: guess.length.clamp(distance, max_length_of(distance)),
        };
        assert(forall|m: Model| #[trigger]
            self.described(m) ==> v == m.guess(a, heading, seed, local, distance));
        let mut n: u32 = 8;
        while n > 0
            invariant
                n <= 8,
                self.total(),
                budget@.sound(),
                start.work.room(1),
                budget@.work.grown(start.work, 0),
                start == old(budget)@,
                forall|m: Model| #[trigger]
                    self.described(m) ==> m.two_arc_solved(start, a, heading, seed, policy)
                        == m.two_arc_in(
                        budget@,
                        a,
                        heading,
                        v,
                        fraction,
                        distance,
                        seed is Some,
                        policy,
                        n as nat,
                    ),
            decreases n,
        {
            if !budget.charge(0, 1, 0) {
                return None;
            }
            let end: Arrival = match self.run_twice(budget, a, v, fraction) {
                None => {
                    return None;
                },
                Some(end) => end,
            };
            let placed: bool = self.position_ok(
                end.endpoint,
                end.error,
                a.goal,
                policy,
                Ghost(end@),
            );
            let aligned: bool = self.heading_ok(end.endpoint, heading, end.error);
            if placed && aligned {
                return Some(
                    TwoArcConnection {
                        used_seed: seed.is_some(),
                        points: end.points,
                        endpoint: end.endpoint,
                        end_curvature: end.curvature,
                        seed: TwoArcSeed { variables: v, first_fraction: fraction },
                        error: end.error,
                    },
                );
            }
            v =
            match self.improve(budget, a, heading, v, fraction, distance, end.endpoint) {
                None => {
                    return None;
                },
                Some(next) => next,
            };
            n -= 1;
        }
        budget.count(Event::IterationExhaustion);
        None
    }

    /// Continues an approach from a seed.
    pub fn continue_two_arc(
        &self,
        budget: &mut TerminalBudget,
        a: Approach,
        heading: Binary64,
        seed: TwoArcSeed,
    ) -> (r: Option<TwoArcConnection>)
        requires
            self.total(),
            old(budget)@.sound(),
            old(budget)@.work.room(3),
        ensures
            final(budget)@.sound(),
            final(budget)@.work.grown(old(budget)@.work, 3),
            forall|m: Model| #[trigger]
                self.described(m) ==> (final(budget)@, connected(r)) == m.continued(
                    old(budget)@,
                    a,
                    heading,
                    seed,
                ),
    {
        budget.count(Event::SeedAttempt);
        let connection: TwoArcConnection = match self.solve_two_arc(
            budget,
            a,
            heading,
            Some(seed),
            EndpointPolicy::ExactCenter,
        ) {
            None => {
                return None;
            },
            Some(connection) => connection,
        };
        budget.count(Event::SeedAccepted);
        Some(connection)
    }

    /// A cold approach, then one from the seed where there is one.
    pub fn two_arc(
        &self,
        budget: &mut TerminalBudget,
        a: Approach,
        heading: Binary64,
        seed: Option<TwoArcSeed>,
    ) -> (r: Option<TwoArcConnection>)
        requires
            self.total(),
            old(budget)@.sound(),
            old(budget)@.work.room(4),
        ensures
            final(budget)@.sound(),
            final(budget)@.work.grown(old(budget)@.work, 4),
            forall|m: Model| #[trigger]
                self.described(m) ==> (final(budget)@, connected(r)) == m.approached(
                    old(budget)@,
                    a,
                    heading,
                    seed,
                ),
    {
        match self.solve_two_arc(budget, a, heading, None, EndpointPolicy::ExactCenter) {
            Some(connection) => Some(connection),
            None => match seed {
                None => None,
                Some(seed) => self.continue_two_arc(budget, a, heading, seed),
            },
        }
    }

    fn bend(
        &self,
        budget: &mut TerminalBudget,
        a: Approach,
        p: Primitive,
        distance: Binary64,
        end: Pose2,
    ) -> (r: Option<(Binary64, Binary64)>)
        requires
            self.total(),
            old(budget)@.sound(),
            old(budget)@.work.room(1),
        ensures
            final(budget)@.sound(),
            r is Some ==> final(budget)@.work.grown(old(budget)@.work, 0),
            final(budget)@.work.grown(old(budget)@.work, 1),
            forall|m: Model| #[trigger]
                self.described(m) ==> (final(budget)@, r) == m.bent(
                    old(budget)@,
                    a,
                    p,
                    distance,
                    end,
                ),
    {
        let k: Binary64 = self.config.max_curvature_per_m;
        let dk: Binary64 = nudge_of(p.target_curvature, self.curvature_step(), k);
        let ds: Binary64 = nudge_of(p.length, length_step_of(distance), max_length_of(distance));
        let bent: Primitive = Primitive {
            start: p.start,
            initial_curvature: p.initial_curvature,
            target_curvature: p.target_curvature.plus(dk),
            length: p.length,
            error: p.error,
        };
        let turn: Pose2 = match self.run(budget, bent) {
            None => {
                return None;
            },
            Some(turn) => turn.endpoint,
        };
        let longer: Primitive = Primitive {
            start: p.start,
            initial_curvature: p.initial_curvature,
            target_curvature: p.target_curvature,
            length: p.length.plus(ds),
            error: p.error,
        };
        let travel: Pose2 = match self.run(budget, longer) {
            None => {
                return None;
            },
            Some(travel) => travel.endpoint,
        };
        let dx_k: Binary64 = turn.x_m.minus(end.x_m).over(dk);
        let dy_k: Binary64 = turn.y_m.minus(end.y_m).over(dk);
        let dx_s: Binary64 = travel.x_m.minus(end.x_m).over(ds);
        let dy_s: Binary64 = travel.y_m.minus(end.y_m).over(ds);
        let ex: Binary64 = end.x_m.minus(a.goal.x_m);
        let ey: Binary64 = end.y_m.minus(a.goal.y_m);
        let determinant: Binary64 = dx_k.times(dy_s).minus(dx_s.times(dy_k));
        if !determinant.is_finite() || determinant.abs().less(Binary64::of(TRILLIONTH)) {
            return None;
        }
        Some(
            (
                p.target_curvature.minus(
                    ex.times(dy_s).minus(ey.times(dx_s)).over(determinant),
                ).clamp(k.negated(), k),
                p.length.minus(dx_k.times(ey).minus(dy_k.times(ex)).over(determinant)).clamp(
                    distance,
                    max_length_of(distance),
                ),
            ),
        )
    }

    /// Connects a near goal by one arc with a steering ramp. The circle through
    /// the goal is only a first guess; what is accepted is the endpoint that
    /// was driven.
    pub fn solve_single_arc(
        &self,
        budget: &mut TerminalBudget,
        a: Approach,
        heading: Option<Binary64>,
        policy: EndpointPolicy,
    ) -> (r: Option<Arrival>)
        requires
            self.total(),
            old(budget)@.sound(),
            old(budget)@.work.room(1),
        ensures
            final(budget)@.sound(),
            final(budget)@.work.grown(old(budget)@.work, 1),
            forall|m: Model| #[trigger]
                self.described(m) ==> (final(budget)@, reached(r)) == m.single_arc_solved(
                    old(budget)@,
                    a,
                    heading,
                    policy,
                ),
    {
        let local: Point2 = a.start.world_to_body(a.goal, self.host);
        let distance: Binary64 = a.start.point().distance(a.goal, self.host);
        let ghost start = budget@;
        assert forall|m: Model| #[trigger] self.described(m) implies local == a.start.seen(
            m.math,
            a.goal,
        ) && distance == (m.math)(a.start.point().separation(a.goal)) by {
            assert(elementary::models(*self.host, m.math));
        }
        if local.x_m.at_most(Binary64::of(ZERO)) || !(Binary64::of(BILLIONTH).at_most(distance)
            && distance.less(Binary64::of(SEVEN_TWENTIETHS))) {
            budget.count(Event::DomainRejection);
            return None;
        }
        if !budget.charge(1, 0, 0) {
            return None;
        }
        let k: Binary64 = self.config.max_curvature_per_m;
        let circle: Binary64 = Binary64::of(TWO).times(local.y_m).over(distance.times(distance));
        let mut curvature: Binary64 = circle.clamp(k.negated(), k);
        let host: &'a F = self.host;
        let bearing: Binary64 = host(Elementary::Bearing { y: local.y_m, x: local.x_m });
        let mut length: Binary64 = if circle.abs().less(Binary64::of(BILLIONTH)) {
            local.x_m
        } else {
            Binary64::of(TWO).times(bearing).over(circle)
        };
        assert forall|m: Model| #[trigger] self.described(m) implies bearing == (m.math)(
            Elementary::Bearing { y: local.y_m, x: local.x_m },
        ) by {
            assert(elementary::models(*self.host, m.math));
        }
        let mut n: u32 = 8;
        while n > 0
            invariant
                n <= 8,
                self.total(),
                budget@.sound(),
                start.work.room(1),
                budget@.work.grown(start.work, 0),
                start == old(budget)@,
                forall|m: Model| #[trigger]
                    self.described(m) ==> m.single_arc_solved(start, a, heading, policy)
                        == m.single_arc_in(
                        budget@,
                        a,
                        heading,
                        curvature,
                        length,
                        distance,
                        policy,
                        n as nat,
                    ),
            decreases n,
        {
            if !budget.charge(0, 1, 0) {
                return None;
            }
            let primitive: Primitive = Primitive {
                start: a.start,
                initial_curvature: a.initial_curvature,
                target_curvature: curvature,
                length,
                error: a.error,
            };
            let end: Arrival = match self.run(budget, primitive) {
                None => {
                    return None;
                },
                Some(end) => end,
            };
            if self.position_ok(end.endpoint, end.error, a.goal, policy, Ghost(end@)) {
                let aligned: bool = match heading {
                    None => true,
                    Some(heading) => self.heading_ok(end.endpoint, heading, end.error),
                };
                return if aligned {
                    Some(end)
                } else {
                    None
                };
            }
            match self.bend(budget, a, primitive, distance, end.endpoint) {
                None => {
                    return None;
                },
                Some((next_curvature, next_length)) => {
                    curvature = next_curvature;
                    length = next_length;
                },
            }
            n -= 1;
        }
        budget.count(Event::IterationExhaustion);
        None
    }

    /// A single arc to the goal's centre.
    pub fn single_arc(&self, budget: &mut TerminalBudget, a: Approach, heading: Option<Binary64>) -> (r:
        Option<Arrival>)
        requires
            self.total(),
            old(budget)@.sound(),
            old(budget)@.work.room(1),
        ensures
            final(budget)@.sound(),
            final(budget)@.work.grown(old(budget)@.work, 1),
            forall|m: Model| #[trigger]
                self.described(m) ==> (final(budget)@, reached(r)) == m.single_arc_solved(
                    old(budget)@,
                    a,
                    heading,
                    EndpointPolicy::ExactCenter,
                ),
    {
        self.solve_single_arc(budget, a, heading, EndpointPolicy::ExactCenter)
    }

    /// The fallback after every exact search: an endpoint that was driven to
    /// strictly within half the position tolerance and half the heading
    /// tolerance, with the whole error of the model. It is never replaced by
    /// the goal.
    pub fn oriented_arrival_region(
        &self,
        budget: &mut TerminalBudget,
        a: Approach,
        heading: Binary64,
    ) -> (r: Option<Arrival>)
        requires
            self.total(),
            old(budget)@.sound(),
            old(budget)@.work.room(4),
        ensures
            final(budget)@.sound(),
            final(budget)@.work.grown(old(budget)@.work, 4),
            forall|m: Model| #[trigger]
                self.described(m) ==> (final(budget)@, reached(r)) == m.region_reached(
                    old(budget)@,
                    a,
                    heading,
                ),
    {
        if budget.snapshot().budget_exhausted {
            return None;
        }
        budget.count(Event::RegionAttempt);
        let single: Option<Arrival> = self.solve_single_arc(
            budget,
            a,
            Some(heading),
            EndpointPolicy::ArrivalRegion,
        );
        let found: Option<Arrival> = match single {
            Some(arrival) => Some(arrival),
            None => match self.solve_two_arc(
                budget,
                a,
                heading,
                None,
                EndpointPolicy::ArrivalRegion,
            ) {
                None => None,
                Some(c) => Some(
                    Arrival {
                        points: c.points,
                        endpoint: c.endpoint,
                        curvature: c.end_curvature,
                        error: c.error,
                    },
                ),
            },
        };
        if found.is_some() {
            budget.count(Event::RegionAccepted);
        }
        found
    }
}

proof fn lemma_two_arc_certified(
    m: Model,
    b: Ledger,
    a: Approach,
    heading: Binary64,
    v: Variables,
    fraction: Binary64,
    distance: Binary64,
    used_seed: bool,
    policy: EndpointPolicy,
    n: nat,
)
    ensures
        m.two_arc_in(b, a, heading, v, fraction, distance, used_seed, policy, n).1 matches Some(c)
            ==> {
            &&& m.certifies(c.endpoint, c.error, a.goal, Some(heading), policy)
            &&& c.used_seed == used_seed
        },
    decreases n,
{
    if n > 0 {
        let (b1, granted) = b.charged(0, 1, 0);
        if let (b2, Some(end)) = m.driven_twice(b1, a, v, fraction) {
            if let (b3, Some(next)) = m.improved(
                b2,
                a,
                heading,
                v,
                fraction,
                distance,
                end.endpoint,
            ) {
                lemma_two_arc_certified(
                    m,
                    b3,
                    a,
                    heading,
                    next,
                    fraction,
                    distance,
                    used_seed,
                    policy,
                    (n - 1) as nat,
                );
            }
        }
    }
}

proof fn lemma_single_arc_certified(
    m: Model,
    b: Ledger,
    a: Approach,
    heading: Option<Binary64>,
    curvature: Binary64,
    length: Binary64,
    distance: Binary64,
    policy: EndpointPolicy,
    n: nat,
)
    ensures
        m.single_arc_in(b, a, heading, curvature, length, distance, policy, n).1 matches Some(r)
            ==> m.certifies(r.endpoint, r.error, a.goal, heading, policy),
    decreases n,
{
    if n > 0 {
        let (b1, granted) = b.charged(0, 1, 0);
        let primitive = Primitive {
            start: a.start,
            initial_curvature: a.initial_curvature,
            target_curvature: curvature,
            length,
            error: a.error,
        };
        if let (b2, Some(end)) = m.driven(b1, primitive) {
            if let (b3, Some((k, l))) = m.bent(b2, a, primitive, distance, end.endpoint) {
                lemma_single_arc_certified(
                    m,
                    b3,
                    a,
                    heading,
                    k,
                    l,
                    distance,
                    policy,
                    (n - 1) as nat,
                );
            }
        }
    }
}

impl Model {
    /// Whether an endpoint, with its whole model error, meets the tolerances.
    pub open spec fn certifies(
        self,
        endpoint: Pose2,
        error: ErrorBound,
        goal: Point2,
        heading: Option<Binary64>,
        policy: EndpointPolicy,
    ) -> bool {
        &&& self.length(
            endpoint.x_m.minus(goal.x_m),
            endpoint.y_m.minus(goal.y_m),
        ).plus(error.position_m).lt(policy.position_tolerance(self.config))
        &&& heading matches Some(yaw) ==> self.heading_ok(endpoint, yaw, error)
    }
}

/// Whatever a solver returns ends, with the whole error of the model, within
/// the tolerances of its policy.
pub proof fn law_connections_are_certified(
    m: Model,
    b: Ledger,
    a: Approach,
    heading: Binary64,
    seed: Option<TwoArcSeed>,
    policy: EndpointPolicy,
)
    ensures
        m.two_arc_solved(b, a, heading, seed, policy).1 matches Some(c) ==> {
            &&& m.certifies(c.endpoint, c.error, a.goal, Some(heading), policy)
            &&& c.used_seed == (seed is Some)
        },
        m.single_arc_solved(b, a, Some(heading), policy).1 matches Some(r) ==> m.certifies(
            r.endpoint,
            r.error,
            a.goal,
            Some(heading),
            policy,
        ),
        m.single_arc_solved(b, a, None, policy).1 matches Some(r) ==> m.certifies(
            r.endpoint,
            r.error,
            a.goal,
            None,
            policy,
        ),
{
    let k = m.config.max_curvature_per_m;
    let local = a.start.seen(m.math, a.goal);
    let distance = (m.math)(a.start.point().separation(a.goal));
    let b1 = b.charged(1, 0, 0).0;
    lemma_two_arc_certified(
        m,
        b1,
        a,
        heading,
        m.guess(a, heading, seed, local, distance),
        match seed {
            Some(seed) => seed.first_fraction,
            None => Binary64::of(HALF),
        },
        distance,
        seed is Some,
        policy,
        8,
    );
    let circle = Binary64::of(TWO).times(local.y_m).over(distance.times(distance));
    let length = if circle.abs().lt(Binary64::of(BILLIONTH)) {
        local.x_m
    } else {
        Binary64::of(TWO).times(
            (m.math)(Elementary::Bearing { y: local.y_m, x: local.x_m }),
        ).over(circle)
    };
    lemma_single_arc_certified(
        m,
        b1,
        a,
        Some(heading),
        circle.clamp(k.negated(), k),
        length,
        distance,
        policy,
        8,
    );
    lemma_single_arc_certified(
        m,
        b1,
        a,
        None,
        circle.clamp(k.negated(), k),
        length,
        distance,
        policy,
        8,
    );
}

/// An approach that succeeded cold did not use its seed, and one that used it
/// was counted as continued.
pub proof fn law_seed_comes_second(
    m: Model,
    b: Ledger,
    a: Approach,
    heading: Binary64,
    seed: Option<TwoArcSeed>,
)
    ensures
        m.approached(b, a, heading, seed).1 matches Some(c) ==> (c.used_seed ==> {
            &&& seed is Some
            &&& m.two_arc_solved(b, a, heading, None, EndpointPolicy::ExactCenter).1 is None
        }),
{
    law_connections_are_certified(m, b, a, heading, None, EndpointPolicy::ExactCenter);
}

/// The arrival region accepts only an endpoint within half the position
/// tolerance and half the heading tolerance.
pub proof fn law_region_arrivals_are_certified(
    m: Model,
    b: Ledger,
    a: Approach,
    heading: Binary64,
)
    ensures
        m.region_reached(b, a, heading).1 matches Some(r) ==> m.certifies(
            r.endpoint,
            r.error,
            a.goal,
            Some(heading),
            EndpointPolicy::ArrivalRegion,
        ),
{
    let b1 = b.counting(Event::RegionAttempt);
    let policy = EndpointPolicy::ArrivalRegion;
    law_connections_are_certified(m, b1, a, heading, None, policy);
    let b2 = m.single_arc_solved(b1, a, Some(heading), policy).0;
    law_connections_are_certified(m, b2, a, heading, None, policy);
}

} // verus!
