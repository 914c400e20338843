//! The choice of the next element, and of targets in known free space.
use super::scene::{Policy, Scene};
use super::{first_of, wrap, Draft, OnlineBehavior, ProcessedCone, Proposal, Task};
use crate::online_mission;
use crate::autonomy::{Footprint, HalfPlane, Outline, Point2, Pose2, Stance};
use crate::binary64::values::{
    HALF, HALF_PI, ONE, PI, QUARTER, QUARTER_PI, SIX, SIXTEEN, THREE_QUARTERS, TWELVE, TWO, ZERO,
};
use crate::binary64::Binary64;
use crate::elementary::Elementary;
use crate::local_world::{ElementColor, ElementKind, ElementTrack, Space, SpaceState, TrackId};
use crate::mission::{ArrivalBehavior, MissionOutput, MissionPhase};
use crate::safety;
use crate::sensors::Timestamp;
use vstd::prelude::*;

verus! {

/// The parts of a horizon that are tried in turn.
pub open spec fn scale(k: nat) -> Binary64 {
    if k == 0 {
        Binary64::of(ONE)
    } else if k == 1 {
        Binary64::of(THREE_QUARTERS)
    } else if k == 2 {
        Binary64::of(HALF)
    } else {
        Binary64::of(QUARTER)
    }
}

fn scale_at(k: u8) -> (r: Binary64)
    ensures
        r == scale(k as nat),
{
    if k == 0 {
        Binary64::of(ONE)
    } else if k == 1 {
        Binary64::of(THREE_QUARTERS)
    } else if k == 2 {
        Binary64::of(HALF)
    } else {
        Binary64::of(QUARTER)
    }
}

/// The parts into which a sweep is cut.
pub open spec fn pieces(sweep: Binary64) -> usize {
    let n = sweep.abs().over(Binary64::of(PI).over(Binary64::of(SIXTEEN))).ceil().truncated(
        usize::MAX as u64,
    );
    if n < 1 {
        1
    } else {
        n as usize
    }
}

fn count_pieces(sweep: Binary64) -> (r: usize)
    ensures
        r == pieces(sweep),
        r >= 1,
{
    let n: usize = sweep.abs().over(
        Binary64::of(PI).over(Binary64::of(SIXTEEN)),
    ).ceil().to_size();
    if n < 1 {
        1
    } else {
        n
    }
}

/// An arc about a center, along which a body is swept with its side to the
/// center.
#[derive(Clone, Copy, Debug, PartialEq, Eq, Structural)]
pub struct Arc {
    pub center: Point2,
    pub radius: Binary64,
    pub start: Binary64,
    pub sweep: Binary64,
}

impl Arc {
    pub open spec fn finite(self) -> bool {
        self.center.finite() && safety::positive(self.radius) && self.start.finite()
            && self.sweep.finite()
    }

    pub open spec fn step(self) -> Binary64 {
        self.sweep.over(Binary64::from_natural(pieces(self.sweep) as u64))
    }

    /// The angle at which a piece begins.
    pub open spec fn angle(self, i: nat) -> Binary64 {
        self.start.plus(Binary64::from_natural(i as u64).times(self.step()))
    }
}

impl Scene {
    pub open spec fn body_at(self, arc: Arc, angle: Binary64) -> Outline {
        let point = self.polar(arc.center, arc.radius, angle);
        self.limits.footprint.outline(
            self.math,
            Pose2 {
                x_m: point.x_m,
                y_m: point.y_m,
                yaw_rad: wrap(angle.plus(arc.sweep.signum().times(Binary64::of(HALF_PI)))),
            },
        )
    }

    /// A margin that covers what an arc bulges over its chord.
    pub open spec fn arc_padding(self, arc: Arc) -> Binary64 {
        let body = self.limits.footprint;
        let outer = (self.math)(
            Elementary::Length {
                x: arc.radius.plus(body.half_width_m),
                y: body.front_m.max(body.rear_m),
            },
        );
        self.limits.clearance_m.plus(
            outer.times(
                Binary64::of(ONE).minus(
                    (self.math)(Elementary::Cosine(arc.step().times(Binary64::of(HALF)))),
                ),
            ),
        )
    }

    /// What is known of the space that one piece of an arc sweeps: the hull of
    /// the bodies at both ends, with a margin.
    pub open spec fn piece_state(self, arc: Arc, i: nat) -> SpaceState {
        (self.space)(
            Space::Sweep {
                first: self.body_at(arc, arc.angle(i)),
                last: self.body_at(arc, arc.angle(i + 1)),
                padding_m: self.arc_padding(arc),
            },
        )
    }

    /// What is known of the space that an arc sweeps. Nothing is where the arc
    /// is longer than half a turn.
    pub open spec fn arc_state(self, arc: Arc) -> SpaceState {
        let n = pieces(arc.sweep);
        if !arc.finite() || n > 8 {
            SpaceState::Unknown
        } else if exists|i: nat| i < n && #[trigger] self.piece_state(arc, i) == SpaceState::Obstacle {
            SpaceState::Obstacle
        } else if forall|i: nat|
            i < n ==> #[trigger] self.piece_state(arc, i) == SpaceState::KnownFree {
            SpaceState::KnownFree
        } else {
            SpaceState::Unknown
        }
    }

    /// The farthest of the tried parts of the horizon that is known free.
    pub open spec fn reachable(self, from: Point2, heading: Binary64, k: nat) -> Option<Point2>
        decreases 4 - k,
    {
        let goal = self.polar(from, self.limits.search_horizon_m.times(scale(k)), heading);
        if k >= 4 {
            None
        } else if self.free_segment(from, goal) {
            Some(goal)
        } else {
            self.reachable(from, heading, k + 1)
        }
    }

    pub open spec fn approach_to(
        self,
        point: Point2,
        heading: Option<Binary64>,
        behavior: OnlineBehavior,
        reason: Seq<char>,
    ) -> Draft {
        Draft {
            output: MissionOutput::Target {
                point,
                max_speed_mps: self.limits.approach_speed_mps,
                arrival: ArrivalBehavior::Stop,
            },
            heading,
            behavior,
            reason,
        }
    }

    /// A search ahead; for the first cone, to the left first.
    #[verifier::opaque]
    pub open spec fn exploration(self, t: Task, pose: Pose2) -> Draft {
        let heading = t.outlook();
        let from = pose.point();
        let left = self.reachable(
            from,
            heading.plus(Binary64::of(PI).over(Binary64::of(SIX))),
            0,
        );
        let half_left = self.reachable(
            from,
            heading.plus(Binary64::of(PI).over(Binary64::of(TWELVE))),
            0,
        );
        let ahead = self.reachable(from, heading.plus(Binary64::of(ZERO)), 0);
        let biased = t.phase is Cones && t.active is None && t.cone_index == 0;
        if biased && left is Some {
            self.approach_to(
                left->0,
                None,
                OnlineBehavior::Search,
                "bounded left-forward cone search in observed free space"@,
            )
        } else if biased && half_left is Some {
            self.approach_to(
                half_left->0,
                None,
                OnlineBehavior::Search,
                "bounded left-forward cone search in observed free space"@,
            )
        } else if ahead is Some {
            self.approach_to(
                ahead->0,
                Some(heading),
                OnlineBehavior::Search,
                "bounded search along task departure direction in observed free space"@,
            )
        } else {
            Draft::halt(OnlineBehavior::Search, "search corridor is blocked or unknown"@)
        }
    }

    /// A bounded search.
    pub open spec fn searched(self, t: Task, now: Timestamp, pose: Pose2) -> (
        Task,
        Result<Draft, Seq<char>>,
    ) {
        let since = online_mission::since_or(t.search_since, now);
        let after = Task { search_since: Some(since), ..t };
        if online_mission::elapsed(since, now) >= self.limits.max_search_ms || self.limits.max_search_distance_m.le(
            t.search_distance,
        ) {
            (
                after,
                Err("bounded element search exhausted without an identified next task element"@),
            )
        } else {
            (after, Ok(self.exploration(after, pose)))
        }
    }

    /// A target on the way to a goal, or the goal itself where it is within
    /// the horizon and the body there is in known free space.
    #[verifier::opaque]
    pub open spec fn local_target(
        self,
        pose: Pose2,
        goal: Point2,
        heading: Option<Binary64>,
        continuation: Option<(Point2, Binary64)>,
        approach: bool,
        behavior: OnlineBehavior,
        reason: Seq<char>,
    ) -> Draft {
        let horizon = self.limits.search_horizon_m.times(
            if heading is Some {
                Binary64::of(TWO)
            } else {
                Binary64::of(ONE)
            },
        );
        if horizon.lt(self.distance(pose.point(), goal)) {
            let yaw = (self.math)(
                Elementary::Bearing { y: goal.y_m.minus(pose.y_m), x: goal.x_m.minus(pose.x_m) },
            );
            match self.reachable(pose.point(), yaw, 0) {
                Some(point) => self.approach_to(point, None, behavior, reason),
                None => Draft::halt(behavior, "approach corridor not yet observed free"@),
            }
        } else if !(match heading {
            None => self.free_segment(goal, goal),
            Some(yaw_rad) => self.free_body(Pose2 { x_m: goal.x_m, y_m: goal.y_m, yaw_rad }),
        }) {
            Draft::halt(behavior, "short target body envelope is unknown or blocked"@)
        } else {
            let speed = if approach {
                self.limits.approach_speed_mps
            } else {
                self.limits.cruise_speed_mps
            };
            Draft {
                output: MissionOutput::Target {
                    point: goal,
                    max_speed_mps: speed,
                    arrival: self.beyond(goal, continuation, speed),
                },
                heading,
                behavior,
                reason,
            }
        }
    }

    /// What to do at a goal: pass through where the way on is known free.
    pub open spec fn beyond(
        self,
        goal: Point2,
        continuation: Option<(Point2, Binary64)>,
        speed: Binary64,
    ) -> ArrivalBehavior {
        match continuation {
            Some((next, next_heading)) if !next.same(goal) && self.free_segment(
                goal,
                next,
            ) => ArrivalBehavior::PassThrough {
                next,
                next_heading_rad: Some(next_heading),
                next_max_speed_mps: speed,
                admission_radius_m: self.limits.goal_tolerance_m,
            },
            _ => ArrivalBehavior::Stop,
        }
    }

    /// Whether a track is at a cone that has been passed.
    pub open spec fn repeats(self, old: Option<ProcessedCone>, track: ElementTrack) -> bool {
        old is Some && self.distance(old->0.position, track.position).le(
            self.limits.processed_exclusion_m.max(
                old->0.radius_m.times(Binary64::of(TWO)),
            ).plus(old->0.position_error_m).plus(track.position_error_m),
        )
    }

    pub open spec fn relative(self, t: Task, pose: Pose2, track: ElementTrack) -> Point2 {
        Pose2 { yaw_rad: t.outlook(), ..pose }.seen(self.math, track.position)
    }

    pub open spec fn cone_color(self, t: Task) -> Option<ElementColor> {
        self.limits.required_cone_colors@[if t.cone_index < 1 {
            0
        } else {
            1
        }]
    }

    /// Whether a track can be the next element.
    pub open spec fn eligible(
        self,
        t: Task,
        pose: Pose2,
        kind: ElementKind,
        track: ElementTrack,
    ) -> bool {
        let relative = self.relative(t, pose, track);
        &&& track.kind == kind
        &&& !track.processed
        &&& self.limits.min_detection_confidence.le(track.confidence)
        &&& if kind is Cone {
            &&& self.cone_color(t) is Some ==> self.cone_color(t)->0 == track.color
            &&& self.limits.goal_tolerance_m.lt(relative.x_m)
            &&& t.cone_index == 1 || track.position_error_m.negated().le(relative.y_m)
            &&& relative.y_m.abs().le(relative.x_m)
            &&& !self.repeats(t.processed.0, track)
            &&& !self.repeats(t.processed.1, track)
        } else {
            &&& self.limits.search_horizon_m.negated().le(relative.x_m)
            &&& track.heading_rad is Some
            &&& wrap((track.heading_rad->0).minus(t.outlook())).abs().le(Binary64::of(QUARTER_PI))
        }
    }

    /// By what tracks are preferred: cones by their bearing and how far ahead
    /// they are, regions by their distance.
    pub open spec fn preference(
        self,
        t: Task,
        pose: Pose2,
        kind: ElementKind,
        track: ElementTrack,
    ) -> (int, int) {
        let relative = self.relative(t, pose, track);
        if kind is Cone {
            (
                (self.math)(
                    Elementary::Bearing { y: relative.y_m, x: relative.x_m },
                ).abs().total_rank(),
                relative.x_m.total_rank(),
            )
        } else {
            (self.distance(pose.point(), track.position).total_rank(), 0)
        }
    }

    pub open spec fn prefers(
        self,
        t: Task,
        pose: Pose2,
        kind: ElementKind,
        a: ElementTrack,
        b: ElementTrack,
    ) -> bool {
        let x = self.preference(t, pose, kind, a);
        let y = self.preference(t, pose, kind, b);
        x.0 < y.0 || (x.0 == y.0 && x.1 < y.1)
    }

    /// The preferred eligible one of the first tracks, the first of equals.
    pub open spec fn selected(
        self,
        t: Task,
        pose: Pose2,
        kind: ElementKind,
        n: nat,
    ) -> Option<ElementTrack>
        decreases n,
    {
        if n == 0 {
            None
        } else {
            let before = self.selected(t, pose, kind, (n - 1) as nat);
            let track = self.tracks[n - 1];
            if self.eligible(t, pose, kind, track) && (before is None || self.prefers(
                t,
                pose,
                kind,
                track,
                before->0,
            )) {
                Some(track)
            } else {
                before
            }
        }
    }

    /// The next element, where there is one.
    pub open spec fn choice(self, t: Task, pose: Pose2, kind: ElementKind) -> Option<ElementTrack> {
        self.selected(t, pose, kind, self.tracks.len())
    }

    /// The current element, chosen where there is none yet.
    pub open spec fn acquired(self, t: Task, pose: Pose2, kind: ElementKind) -> (
        Task,
        Option<ElementTrack>,
    ) {
        if t.active is Some {
            (t, t.active_geometry)
        } else {
            match self.choice(t, pose, kind) {
                None => (t, None),
                Some(track) => (
                    Task {
                        active: Some(track.id),
                        active_geometry: Some(track),
                        search_since: None,
                        search_distance: Binary64::of(ZERO),
                        ..t
                    },
                    Some(track),
                ),
            }
        }
    }
}

impl<
    'a,
    F: Fn(Elementary) -> Binary64,
    S: Fn(Space) -> SpaceState,
    V: Fn(HalfPlane) -> Option<String>,
    E: Fn(HalfPlane, Footprint, Pose2) -> Stance,
> Policy<'a, F, S, V, E> {
    fn body_at(&self, arc: Arc, angle: Binary64) -> (r: Outline)
        requires
            self.total(),
        ensures
            forall|c: Scene| #[trigger] self.described(c) ==> r == c.body_at(arc, angle),
    {
        let point: Point2 = self.polar(arc.center, arc.radius, angle);
        self.outline(
            Pose2 {
                x_m: point.x_m,
                y_m: point.y_m,
                yaw_rad: wrap(angle.plus(arc.sweep.signum().times(Binary64::of(HALF_PI)))),
            },
        )
    }

    fn piece_state(&self, arc: Arc, i: usize, step: Binary64, padding_m: Binary64) -> (r: SpaceState)
        requires
            self.total(),
            i < 8,
            step == arc.step(),
            forall|c: Scene| #[trigger] self.described(c) ==> padding_m == c.arc_padding(arc),
        ensures
            forall|c: Scene| #[trigger] self.described(c) ==> r == c.piece_state(arc, i as nat),
    {
        let from: Binary64 = arc.start.plus(Binary64::from_natural(i as u64).times(step));
        let to: Binary64 = arc.start.plus(Binary64::from_natural(i as u64 + 1).times(step));
        let first: Outline = self.body_at(arc, from);
        let last: Outline = self.body_at(arc, to);
        self.look(Space::Sweep { first, last, padding_m })
    }

    /// What is known of the space that a body sweeps along an arc. Every corner
    /// follows a circular arc, so the hull of both ends with the largest bulge
    /// contains every body between.
    pub fn arc_space_state(&self, arc: Arc) -> (r: SpaceState)
        requires
            self.total(),
        ensures
            forall|c: Scene| #[trigger] self.described(c) ==> r == c.arc_state(arc),
    {
        if !arc.center.valid() || !safety::is_positive(arc.radius) || !arc.start.is_finite()
            || !arc.sweep.is_finite() {
            return SpaceState::Unknown;
        }
        let n: usize = count_pieces(arc.sweep);
        if n > 8 {
            return SpaceState::Unknown;
        }
        let step: Binary64 = arc.sweep.over(Binary64::from_natural(n as u64));
        let body: Footprint = self.limits.footprint;
        let outer: Binary64 = self.ask(
            Elementary::Length {
                x: arc.radius.plus(body.half_width_m),
                y: body.front_m.max(body.rear_m),
            },
        );
        let cos: Binary64 = self.ask(Elementary::Cosine(step.times(Binary64::of(HALF))));
        let padding_m: Binary64 = self.limits.clearance_m.plus(
            outer.times(Binary64::of(ONE).minus(cos)),
        );
        let mut state: SpaceState = SpaceState::KnownFree;
        let mut i: usize = 0;
        while i < n
            invariant
                self.total(),
                i <= n <= 8,
                n == pieces(arc.sweep),
                arc.finite(),
                step == arc.step(),
                state != SpaceState::Obstacle,
                forall|c: Scene| #[trigger] self.described(c) ==> padding_m == c.arc_padding(arc),
                forall|c: Scene| #[trigger]
                    self.described(c) ==> {
                        &&& forall|j: nat|
                            j < i ==> #[trigger] c.piece_state(arc, j) != SpaceState::Obstacle
                        &&& state == SpaceState::KnownFree <==> forall|j: nat|
                            j < i ==> #[trigger] c.piece_state(arc, j) == SpaceState::KnownFree
                    },
            decreases n - i,
        {
            let piece: SpaceState = self.piece_state(arc, i, step, padding_m);
            if piece == SpaceState::Obstacle {
                assert forall|c: Scene| #[trigger] self.described(c) implies c.arc_state(arc)
                    == SpaceState::Obstacle by {
                    assert(c.piece_state(arc, i as nat) == SpaceState::Obstacle);
                }
                return SpaceState::Obstacle;
            }
            if piece == SpaceState::Unknown {
                state = SpaceState::Unknown;
            }
            assert forall|c: Scene| #[trigger] self.described(c) implies (state
                == SpaceState::KnownFree <==> forall|j: nat|
                j < i + 1 ==> #[trigger] c.piece_state(arc, j) == SpaceState::KnownFree) by {
                if state == SpaceState::KnownFree {
                    assert forall|j: nat| j < i + 1 implies #[trigger] c.piece_state(arc, j)
                        == SpaceState::KnownFree by {
                        if j < i {
                        } else {
                            assert(j == i);
                        }
                    }
                } else if piece == SpaceState::Unknown {
                    assert(c.piece_state(arc, i as nat) != SpaceState::KnownFree);
                }
            }
            i += 1;
        }
        state
    }

    fn farthest(&self, from: Point2, heading: Binary64) -> (r: Option<Point2>)
        requires
            self.total(),
        ensures
            forall|c: Scene| #[trigger] self.described(c) ==> r == c.reachable(from, heading, 0),
    {
        let mut k: u8 = 0;
        while k < 4
            invariant
                self.total(),
                k <= 4,
                forall|c: Scene| #[trigger]
                    self.described(c) ==> c.reachable(from, heading, 0) == c.reachable(
                        from,
                        heading,
                        k as nat,
                    ),
            decreases 4 - k,
        {
            let goal: Point2 = self.polar(
                from,
                self.limits.search_horizon_m.times(scale_at(k)),
                heading,
            );
            if self.free_segment(from, goal) {
                return Some(goal);
            }
            k += 1;
        }
        None
    }

    fn approach_to(
        &self,
        point: Point2,
        heading: Option<Binary64>,
        behavior: OnlineBehavior,
        reason: &'static str,
    ) -> (r: Proposal)
        ensures
            forall|c: Scene| #[trigger]
                self.described(c) ==> r@ == c.approach_to(point, heading, behavior, reason@),
    {
        Proposal {
            output: MissionOutput::Target {
                point,
                max_speed_mps: self.limits.approach_speed_mps,
                arrival: ArrivalBehavior::Stop,
            },
            heading,
            behavior,
            reason,
        }
    }

    fn explore(&self, t: Task, pose: Pose2) -> (r: Proposal)
        requires
            self.total(),
        ensures
            forall|c: Scene| #[trigger] self.described(c) ==> r@ == c.exploration(t, pose),
    {
        proof {
            reveal(Scene::exploration);
        }
        let heading: Binary64 = t.search_heading();
        let from: Point2 = pose.point();
        if t.phase == MissionPhase::Cones && t.active.is_none() && t.cone_index == 0 {
            let left: Option<Point2> = self.farthest(
                from,
                heading.plus(Binary64::of(PI).over(Binary64::of(SIX))),
            );
            if let Some(goal) = left {
                return self.approach_to(
                    goal,
                    None,
                    OnlineBehavior::Search,
                    "bounded left-forward cone search in observed free space",
                );
            }
            let half_left: Option<Point2> = self.farthest(
                from,
                heading.plus(Binary64::of(PI).over(Binary64::of(TWELVE))),
            );
            if let Some(goal) = half_left {
                return self.approach_to(
                    goal,
                    None,
                    OnlineBehavior::Search,
                    "bounded left-forward cone search in observed free space",
                );
            }
        }
        match self.farthest(from, heading.plus(Binary64::of(ZERO))) {
            Some(goal) => self.approach_to(
                goal,
                Some(heading),
                OnlineBehavior::Search,
                "bounded search along task departure direction in observed free space",
            ),
            None => Proposal::stop(
                OnlineBehavior::Search,
                "search corridor is blocked or unknown",
            ),
        }
    }

    pub fn search(&self, t: Task, now: Timestamp, pose: Pose2) -> (r: (
        Task,
        Result<Proposal, String>,
    ))
        requires
            self.total(),
            online_mission::by_then(t.search_since, Some(now)),
        ensures
            r.0 == (Task { search_since: r.0.search_since, ..t }),
            r.0.steady(t, now),
            forall|c: Scene| #[trigger]
                self.described(c) ==> (r.0, online_mission::plain(r.1)) == c.searched(t, now, pose),
    {
        let since: Timestamp = first_of(t.search_since, now);
        let after: Task = Task { search_since: Some(since), ..t };
        if now.0 - since.0 >= self.limits.max_search_ms || self.limits.max_search_distance_m.at_most(
            t.search_distance,
        ) {
            return (
                after,
                Err(
                    "bounded element search exhausted without an identified next task element".to_owned(),
                ),
            );
        }
        (after, Ok(self.explore(after, pose)))
    }

    fn after_goal(
        &self,
        goal: Point2,
        continuation: Option<(Point2, Binary64)>,
        speed: Binary64,
    ) -> (r: ArrivalBehavior)
        requires
            self.total(),
        ensures
            forall|c: Scene| #[trigger]
                self.described(c) ==> r == c.beyond(goal, continuation, speed),
    {
        match continuation {
            None => ArrivalBehavior::Stop,
            Some((next, next_heading)) => {
                if !next.equals(goal) && self.free_segment(goal, next) {
                    ArrivalBehavior::PassThrough {
                        next,
                        next_heading_rad: Some(next_heading),
                        next_max_speed_mps: speed,
                        admission_radius_m: self.limits.goal_tolerance_m,
                    }
                } else {
                    ArrivalBehavior::Stop
                }
            },
        }
    }

    pub fn local_target(
        &self,
        pose: Pose2,
        goal: Point2,
        heading: Option<Binary64>,
        continuation: Option<(Point2, Binary64)>,
        approach: bool,
        behavior: OnlineBehavior,
        reason: &'static str,
    ) -> (r: Proposal)
        requires
            self.total(),
        ensures
            forall|c: Scene| #[trigger]
                self.described(c) ==> r@ == c.local_target(
                    pose,
                    goal,
                    heading,
                    continuation,
                    approach,
                    behavior,
                    reason@,
                ),
    {
        proof {
            reveal(Scene::local_target);
        }
        let distance: Binary64 = self.distance(pose.point(), goal);
        let horizons: Binary64 = if heading.is_some() {
            Binary64::of(TWO)
        } else {
            Binary64::of(ONE)
        };
        if self.limits.search_horizon_m.times(horizons).less(distance) {
            let yaw: Binary64 = self.ask(
                Elementary::Bearing { y: goal.y_m.minus(pose.y_m), x: goal.x_m.minus(pose.x_m) },
            );
            return match self.farthest(pose.point(), yaw) {
                Some(point) => self.approach_to(point, None, behavior, reason),
                None => Proposal::stop(behavior, "approach corridor not yet observed free"),
            };
        }
        let free: bool = match heading {
            None => self.free_segment(goal, goal),
            Some(yaw_rad) => self.free_body(Pose2 { x_m: goal.x_m, y_m: goal.y_m, yaw_rad }),
        };
        if !free {
            return Proposal::stop(behavior, "short target body envelope is unknown or blocked");
        }
        let speed: Binary64 = if approach {
            self.limits.approach_speed_mps
        } else {
            self.limits.cruise_speed_mps
        };
        let arrival: ArrivalBehavior = self.after_goal(goal, continuation, speed);
        Proposal {
            output: MissionOutput::Target { point: goal, max_speed_mps: speed, arrival },
            heading,
            behavior,
            reason,
        }
    }

    fn repeats(&self, old: Option<ProcessedCone>, track: ElementTrack) -> (r: bool)
        requires
            self.total(),
        ensures
            forall|c: Scene| #[trigger] self.described(c) ==> r == c.repeats(old, track),
    {
        match old {
            None => false,
            Some(cone) => {
                let distance: Binary64 = self.distance(cone.position, track.position);
                distance.at_most(
                    self.limits.processed_exclusion_m.max(
                        cone.radius_m.times(Binary64::of(TWO)),
                    ).plus(cone.position_error_m).plus(track.position_error_m),
                )
            },
        }
    }

    fn relative(&self, t: Task, pose: Pose2, track: ElementTrack) -> (r: Point2)
        requires
            self.total(),
        ensures
            forall|c: Scene| #[trigger] self.described(c) ==> r == c.relative(t, pose, track),
    {
        self.seen(Pose2 { yaw_rad: t.search_heading(), ..pose }, track.position)
    }

    fn eligible(&self, t: Task, pose: Pose2, kind: ElementKind, track: ElementTrack) -> (r: bool)
        requires
            self.total(),
        ensures
            forall|c: Scene| #[trigger]
                self.described(c) ==> r == c.eligible(t, pose, kind, track),
    {
        if track.kind != kind || track.processed || !self.limits.min_detection_confidence.at_most(
            track.confidence,
        ) {
            return false;
        }
        let relative: Point2 = self.relative(t, pose, track);
        if kind == ElementKind::Cone {
            let index: usize = if t.cone_index < 1 {
                0
            } else {
                1
            };
            let color_matches: bool = match self.limits.required_cone_colors[index] {
                None => true,
                Some(color) => color == track.color,
            };
            color_matches && self.limits.goal_tolerance_m.less(relative.x_m) && (t.cone_index == 1
                || track.position_error_m.negated().at_most(relative.y_m))
                && relative.y_m.abs().at_most(relative.x_m) && !self.repeats(
                t.processed.0,
                track,
            ) && !self.repeats(t.processed.1, track)
        } else {
            let along: bool = match track.heading_rad {
                None => false,
                Some(yaw) => wrap(yaw.minus(t.search_heading())).abs().at_most(
                    Binary64::of(QUARTER_PI),
                ),
            };
            self.limits.search_horizon_m.negated().at_most(relative.x_m) && along
        }
    }

    fn prefers(
        &self,
        t: Task,
        pose: Pose2,
        kind: ElementKind,
        a: ElementTrack,
        b: ElementTrack,
    ) -> (r: bool)
        requires
            self.total(),
        ensures
            forall|c: Scene| #[trigger]
                self.described(c) ==> r == c.prefers(t, pose, kind, a, b),
    {
        if kind == ElementKind::Cone {
            let ar: Point2 = self.relative(t, pose, a);
            let br: Point2 = self.relative(t, pose, b);
            let x: Binary64 = self.ask(Elementary::Bearing { y: ar.y_m, x: ar.x_m }).abs();
            let y: Binary64 = self.ask(Elementary::Bearing { y: br.y_m, x: br.x_m }).abs();
            x.precedes(y) || (!y.precedes(x) && ar.x_m.precedes(br.x_m))
        } else {
            let x: Binary64 = self.distance(pose.point(), a.position);
            let y: Binary64 = self.distance(pose.point(), b.position);
            x.precedes(y)
        }
    }

    pub fn select_track(&self, t: Task, pose: Pose2, kind: ElementKind) -> (r: Option<ElementTrack>)
        requires
            self.total(),
        ensures
            forall|c: Scene| #[trigger] self.described(c) ==> r == c.choice(t, pose, kind),
    {
        let mut best: Option<ElementTrack> = None;
        let mut i: usize = 0;
        while i < self.tracks.len()
            invariant
                self.total(),
                i <= self.tracks@.len(),
                forall|c: Scene| #[trigger]
                    self.described(c) ==> best == c.selected(t, pose, kind, i as nat),
            decreases self.tracks@.len() - i,
        {
            let track: ElementTrack = self.tracks[i];
            if self.eligible(t, pose, kind, track) {
                let better: bool = match best {
                    None => true,
                    Some(before) => self.prefers(t, pose, kind, track, before),
                };
                if better {
                    best = Some(track);
                }
            }
            i += 1;
        }
        best
    }

    pub fn acquire(&self, t: Task, pose: Pose2, kind: ElementKind) -> (r: (
        Task,
        Option<ElementTrack>,
    ))
        requires
            self.total(),
        ensures
            r.1 is None ==> r.0 == t,
            t.active is Some ==> r == (t, t.active_geometry),
            t.active is None && r.1 is Some ==> r.0.active is Some && r.0.active_geometry == r.1,
            r.0.search_since is Some ==> r.0 == t,
            r.0 == (Task {
                active: r.0.active,
                active_geometry: r.0.active_geometry,
                search_since: r.0.search_since,
                search_distance: r.0.search_distance,
                ..t
            }),
            forall|c: Scene| #[trigger] self.described(c) ==> r == c.acquired(t, pose, kind),
    {
        if t.active.is_some() {
            return (t, t.active_geometry);
        }
        match self.select_track(t, pose, kind) {
            None => (t, None),
            Some(track) => (
                Task {
                    active: Some(track.id),
                    active_geometry: Some(track),
                    search_since: None,
                    search_distance: Binary64::of(ZERO),
                    ..t
                },
                Some(track),
            ),
        }
    }
}

/// What is selected is eligible, and nothing eligible is preferred to it.
pub proof fn law_selection_is_the_preferred_track(c: Scene, t: Task, pose: Pose2, kind: ElementKind)
    ensures
        match c.choice(t, pose, kind) {
            None => forall|i: int|
                0 <= i < c.tracks.len() ==> !c.eligible(t, pose, kind, #[trigger] c.tracks[i]),
            Some(best) => {
                &&& c.eligible(t, pose, kind, best)
                &&& c.tracks.contains(best)
                &&& forall|i: int|
                    0 <= i < c.tracks.len() && c.eligible(t, pose, kind, #[trigger] c.tracks[i])
                        ==> !c.prefers(t, pose, kind, c.tracks[i], best)
            },
        },
{
    lemma_selection(c, t, pose, kind, c.tracks.len());
}

proof fn lemma_selection(c: Scene, t: Task, pose: Pose2, kind: ElementKind, n: nat)
    requires
        n <= c.tracks.len(),
    ensures
        match c.selected(t, pose, kind, n) {
            None => forall|i: int|
                0 <= i < n ==> !c.eligible(t, pose, kind, #[trigger] c.tracks[i]),
            Some(best) => {
                &&& c.eligible(t, pose, kind, best)
                &&& c.tracks.contains(best)
                &&& forall|i: int|
                    0 <= i < n && c.eligible(t, pose, kind, #[trigger] c.tracks[i])
                        ==> !c.prefers(t, pose, kind, c.tracks[i], best)
            },
        },
    decreases n,
{
    if n > 0 {
        lemma_selection(c, t, pose, kind, (n - 1) as nat);
        assert(c.tracks.contains(c.tracks[n - 1]));
    }
}

} // verus!
