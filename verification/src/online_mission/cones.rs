//! The half-turns round the two cones.
use super::scene;
use super::scene::{Policy, Scene};
use super::targets::Arc;
use super::{wrap, Draft, OnlineBehavior, Orbit, ProcessedCone, Proposal, Task};
use crate::autonomy::{Footprint, HalfPlane, Point2, Pose2, PoseEstimate, Stance};
use crate::binary64::values::{FOUR, HALF_PI, ONE, PI, SEVEN_TENTHS, TWO, ZERO};
use crate::binary64::Binary64;
use crate::elementary::Elementary;
use crate::local_world::{ElementGeometry, ElementKind, ElementTrack, Space, SpaceState, TrackId};
use crate::mission::{MissionOutput, MissionPhase};
use crate::online_mission;
use crate::sensors::Timestamp;
use vstd::prelude::*;

verus! {

/// How a cone is passed: from the side of the initial heading's right, the
/// first one counterclockwise and the second one clockwise.
#[derive(Clone, Copy, Debug, PartialEq, Eq, Structural)]
pub struct Bend {
    pub center: Point2,
    pub error_m: Binary64,
    pub cone_radius_m: Binary64,
    pub axis: Binary64,
    /// One counterclockwise, minus one clockwise.
    pub direction: Binary64,
    pub entry_angle: Binary64,
    pub entry_heading: Binary64,
    pub exit_heading: Binary64,
    /// The smallest radius that both the body and the steering allow.
    pub minimum_radius: Binary64,
}

impl Bend {
    /// The angle after some progress.
    pub open spec fn at(self, progress: Binary64) -> Binary64 {
        self.entry_angle.plus(self.direction.times(progress))
    }

    /// The heading of the tangent at an angle.
    pub open spec fn tangent(self, angle: Binary64) -> Binary64 {
        wrap(angle.plus(self.direction.times(Binary64::of(HALF_PI))))
    }

    fn angle_at(self, progress: Binary64) -> (r: Binary64)
        ensures
            r == self.at(progress),
    {
        self.entry_angle.plus(self.direction.times(progress))
    }

    fn tangent_at(self, angle: Binary64) -> (r: Binary64)
        ensures
            r == self.tangent(angle),
    {
        wrap(angle.plus(self.direction.times(Binary64::of(HALF_PI))))
    }
}

impl Scene {
    pub open spec fn bend(
        self,
        t: Task,
        pose: Pose2,
        track: ElementTrack,
        cone_radius_m: Binary64,
    ) -> Bend {
        let axis = match t.initial_heading {
            Some(heading) => heading,
            None => pose.yaw_rad,
        };
        let first = t.cone_index == 0;
        Bend {
            center: track.position,
            error_m: track.position_error_m,
            cone_radius_m,
            axis,
            direction: if first {
                Binary64::of(ONE)
            } else {
                Binary64::of(ONE).negated()
            },
            entry_angle: axis.minus(Binary64::of(HALF_PI)),
            entry_heading: wrap(
                axis.plus(
                    if first {
                        Binary64::of(ZERO)
                    } else {
                        Binary64::of(PI)
                    },
                ),
            ),
            exit_heading: wrap(
                axis.plus(
                    if first {
                        Binary64::of(PI)
                    } else {
                        Binary64::of(ZERO)
                    },
                ),
            ),
            minimum_radius: cone_radius_m.plus(self.limits.footprint.half_width_m).plus(
                self.limits.clearance_m,
            ).plus(track.position_error_m).max(
                Binary64::of(ONE).over(self.limits.max_curvature_per_m),
            ),
        }
    }

    /// The orbit so far, or one of the preferred radius.
    pub open spec fn orbit_of(self, t: Task, b: Bend, pose: Pose2) -> Orbit {
        match t.orbit {
            Some(orbit) => orbit,
            None => Orbit {
                radius_m: self.limits.preferred_cone_radius_m.max(b.minimum_radius),
                entry_aligned: false,
                entered: false,
                progress_rad: Binary64::of(ZERO),
                saw_outer_side: false,
                last_position: pose.point(),
            },
        }
    }

    /// The radius that is tried in one step, from the upper one down to the
    /// smallest one.
    pub open spec fn tried_radius(self, b: Bend, upper: Binary64, step: nat) -> Binary64 {
        upper.minus(
            upper.minus(b.minimum_radius).times(Binary64::from_natural(step as u64)).over(
                Binary64::of(FOUR),
            ),
        )
    }

    /// The first arc of a radius: two lookaheads, at most a quarter turn.
    pub open spec fn opening(self, b: Bend, radius: Binary64) -> Arc {
        Arc {
            center: b.center,
            radius,
            start: b.entry_angle,
            sweep: b.direction.times(
                Binary64::of(TWO).times(self.limits.arc_lookahead_rad).min(Binary64::of(HALF_PI)),
            ),
        }
    }

    /// The largest of the tried radii whose first arc meets no obstacle. An
    /// arc that is not yet seen stays a hypothesis.
    pub open spec fn fitting_radius(self, b: Bend, upper: Binary64, step: nat) -> Option<Binary64>
        decreases 5 - step,
    {
        let radius = self.tried_radius(b, upper, step);
        if step >= 5 {
            None
        } else if self.arc_state(self.opening(b, radius)) != SpaceState::Obstacle {
            Some(radius)
        } else {
            self.fitting_radius(b, upper, step + 1)
        }
    }

    pub open spec fn entry(self, b: Bend, radius: Binary64) -> Point2 {
        self.polar(b.center, radius, b.entry_angle)
    }

    /// A point on the entrance's tangent, one horizon before the entrance.
    pub open spec fn guide(self, b: Bend, radius: Binary64) -> Point2 {
        self.polar(
            self.entry(b, radius),
            self.limits.search_horizon_m,
            b.entry_heading.plus(Binary64::of(PI)),
        )
    }

    pub open spec fn to_guide(
        self,
        pose: Pose2,
        b: Bend,
        radius: Binary64,
        reason: Seq<char>,
    ) -> Draft {
        self.local_target(
            pose,
            self.guide(b, radius),
            Some(b.entry_heading),
            None,
            true,
            OnlineBehavior::ConeEntry,
            reason,
        )
    }

    /// Where every tried radius meets an obstacle: only the guide may be
    /// approached, for another observation.
    pub open spec fn unfit(self, pose: Pose2, b: Bend, o: Orbit) -> Draft {
        if !self.near(pose, self.guide(b, o.radius_m), b.entry_heading) {
            self.to_guide(
                pose,
                b,
                o.radius_m,
                "approaching observed entrance tangent to resolve hidden arc"@,
            )
        } else {
            Draft::halt(
                OnlineBehavior::ConeEntry,
                "no observed whole-body arc supports a cone entry radius"@,
            )
        }
    }

    /// Whether a pose is on the tangent before the entrance.
    pub open spec fn on_tangent(self, pose: Pose2, b: Bend, o: Orbit) -> bool {
        let entry = self.entry(b, o.radius_m);
        let approach = Pose2 { x_m: entry.x_m, y_m: entry.y_m, yaw_rad: b.entry_heading }.seen(
            self.math,
            pose.point(),
        );
        &&& approach.x_m.le(Binary64::of(ZERO))
        &&& self.limits.search_horizon_m.negated().minus(self.limits.goal_tolerance_m).le(
            approach.x_m,
        )
        &&& approach.y_m.abs().le(self.limits.goal_tolerance_m)
        &&& wrap(pose.yaw_rad.minus(b.entry_heading)).abs().le(
            self.limits.goal_heading_tolerance_rad,
        )
    }

    /// Whether the entrance's tangent is acquired: at once on the first
    /// approach, later by a stop at the guide.
    pub open spec fn aligned(
        self,
        estimate: PoseEstimate,
        b: Bend,
        o: Orbit,
        first_approach: bool,
    ) -> bool {
        o.entry_aligned || ((first_approach || (self.near(
            estimate.pose,
            self.guide(b, o.radius_m),
            b.entry_heading,
        ) && self.stopped(estimate))) && self.on_tangent(estimate.pose, b, o))
    }

    /// The way to the entrance: to the guide first, then along the tangent.
    pub open spec fn entering(
        self,
        estimate: PoseEstimate,
        b: Bend,
        o: Orbit,
        first_approach: bool,
    ) -> (Orbit, Draft) {
        let aligned = self.aligned(estimate, b, o, first_approach);
        let after = Orbit { entry_aligned: aligned, ..o };
        if !aligned {
            (
                after,
                self.to_guide(
                    estimate.pose,
                    b,
                    o.radius_m,
                    "stopping on observed cone entrance tangent before entry"@,
                ),
            )
        } else {
            let lookahead = self.limits.arc_lookahead_rad;
            let draft = self.local_target(
                estimate.pose,
                self.entry(b, o.radius_m),
                Some(b.entry_heading),
                Some(
                    (
                        self.polar(b.center, o.radius_m, b.at(lookahead)),
                        wrap(b.entry_heading.plus(b.direction.times(lookahead))),
                    ),
                ),
                false,
                OnlineBehavior::ConeEntry,
                "approaching current tracked cone entrance"@,
            );
            (
                after,
                if draft.output is Target {
                    Draft { heading: Some(b.entry_heading), ..draft }
                } else {
                    draft
                },
            )
        }
    }

    /// How far a pose is beyond the center, along the initial heading.
    pub open spec fn along(self, pose: Pose2, b: Bend) -> Binary64 {
        pose.x_m.minus(b.center.x_m).times((self.math)(Elementary::Cosine(b.axis))).plus(
            pose.y_m.minus(b.center.y_m).times((self.math)(Elementary::Sine(b.axis))),
        )
    }

    pub open spec fn bearing(self, b: Bend, p: Point2) -> Binary64 {
        (self.math)(
            Elementary::Bearing { y: p.y_m.minus(b.center.y_m), x: p.x_m.minus(b.center.x_m) },
        )
    }

    /// The angle travelled since the last position. Both positions are seen
    /// from the newest center, so that a changed center is no progress.
    pub open spec fn advance(self, pose: Pose2, b: Bend, o: Orbit) -> Binary64 {
        b.direction.times(
            wrap(self.bearing(b, pose.point()).minus(self.bearing(b, o.last_position))),
        )
    }

    /// The orbit after a new pose.
    pub open spec fn progressed(self, pose: Pose2, b: Bend, o: Orbit) -> Orbit {
        Orbit {
            progress_rad: o.progress_rad.plus(self.advance(pose, b, o)).clamp(
                Binary64::of(ZERO),
                Binary64::of(PI),
            ),
            last_position: pose.point(),
            saw_outer_side: o.saw_outer_side || o.radius_m.times(Binary64::of(SEVEN_TENTHS)).plus(
                b.error_m,
            ).le(b.direction.times(self.along(pose, b))),
            ..o
        }
    }

    /// The goal beyond the far end of the half-turn, past the error of the
    /// center.
    pub open spec fn exit_goal(self, b: Bend, o: Orbit) -> Point2 {
        self.polar(
            self.polar(b.center, o.radius_m, b.at(Binary64::of(PI))),
            b.error_m.plus(Binary64::of(TWO).times(self.limits.goal_tolerance_m)),
            b.exit_heading,
        )
    }

    /// Whether the half-turn is done on the right side of the cone.
    pub open spec fn passed(self, pose: Pose2, b: Bend, o: Orbit) -> bool {
        &&& o.saw_outer_side
        &&& Binary64::of(PI).minus(self.limits.goal_heading_tolerance_rad).le(o.progress_rad)
        &&& b.error_m.le(b.direction.negated().times(self.along(pose, b)))
        &&& self.near(pose, self.exit_goal(b, o), b.exit_heading)
    }

    /// The point of the half-turn after some progress.
    pub open spec fn turn_point(self, b: Bend, o: Orbit, progress: Binary64) -> Point2 {
        if progress.same(Binary64::of(PI)) {
            self.exit_goal(b, o)
        } else {
            self.polar(b.center, o.radius_m, b.at(progress))
        }
    }

    /// The next short arc.
    pub open spec fn following(self, pose: Pose2, b: Bend, o: Orbit) -> Draft {
        let lookahead = self.limits.arc_lookahead_rad;
        let progress = o.progress_rad.plus(lookahead).min(Binary64::of(PI));
        let onward = progress.plus(lookahead).min(Binary64::of(PI));
        let exit_goal = self.exit_goal(b, o);
        let next = if progress.lt(onward) {
            (self.turn_point(b, o, onward), b.tangent(b.at(onward)))
        } else {
            (
                self.polar(exit_goal, self.limits.search_horizon_m, b.exit_heading),
                b.exit_heading,
            )
        };
        let ahead = Arc {
            center: b.center,
            radius: o.radius_m,
            start: b.at(o.progress_rad),
            sweep: b.direction.times(progress.minus(o.progress_rad)),
        };
        self.local_target(
            pose,
            self.turn_point(b, o, progress),
            Some(b.tangent(b.at(progress))),
            Some(next),
            self.arc_state(ahead) != SpaceState::KnownFree,
            OnlineBehavior::OrbitCone,
            "following short arc about current tracked cone"@,
        )
    }

    /// The task with a cone passed.
    pub open spec fn remembered(self, t: Task, b: Bend) -> Task {
        let cone = ProcessedCone {
            position: b.center,
            radius_m: b.cone_radius_m,
            position_error_m: b.error_m,
        };
        Task {
            processed: if t.cone_index == 0 {
                (Some(cone), t.processed.1)
            } else {
                (t.processed.0, Some(cone))
            },
            ..t
        }
    }

    /// The end of a half-turn: the cone is retired and the next element looked
    /// for.
    pub open spec fn leaving(
        self,
        t: Task,
        now: Timestamp,
        pose: Pose2,
        b: Bend,
        id: TrackId,
    ) -> (Task, Result<Draft, Seq<char>>) {
        let remembered = self.remembered(t, b);
        match (self.retire)(id) {
            Some(message) => (remembered, Err(message)),
            None => {
                let index = (t.cone_index + 1) as usize;
                self.searched(
                    Task { cone_index: index, ..remembered }.moved(
                        if index == 2 {
                            MissionPhase::ApproachLight
                        } else {
                            MissionPhase::Cones
                        },
                    ),
                    now,
                    pose,
                )
            },
        }
    }

    /// On the half-turn.
    pub open spec fn orbiting(
        self,
        t: Task,
        now: Timestamp,
        pose: Pose2,
        fresh: bool,
        b: Bend,
        id: TrackId,
        o: Orbit,
    ) -> (Task, Result<Draft, Seq<char>>) {
        let after = if fresh {
            self.progressed(pose, b, o)
        } else {
            o
        };
        if fresh && Binary64::of(HALF_PI).lt(self.advance(pose, b, o).abs()) {
            (t, Err("cone progress discontinuity; cannot certify passing relation"@))
        } else if self.passed(pose, b, after) {
            self.leaving(t, now, pose, b, id)
        } else {
            (Task { orbit: Some(after), ..t }, Ok(self.following(pose, b, after)))
        }
    }

    /// Whether the half-turn is done with an estimate.
    pub open spec fn completes(self, pose: Pose2, fresh: bool, b: Bend, o: Orbit) -> bool {
        let after = if fresh {
            self.progressed(pose, b, o)
        } else {
            o
        };
        &&& !(fresh && Binary64::of(HALF_PI).lt(self.advance(pose, b, o).abs()))
        &&& self.passed(pose, b, after)
    }

    /// Whether a half-turn with a radius that fits is done with an estimate.
    pub open spec fn concludes(self, pose: Pose2, fresh: bool, b: Bend, o: Orbit) -> bool {
        &&& !o.radius_m.lt(b.minimum_radius)
        &&& if o.entered {
            self.completes(pose, fresh, b, o)
        } else {
            self.near(pose, self.entry(b, o.radius_m), b.entry_heading) && self.completes(
                pose,
                fresh,
                b,
                Orbit { entered: true, last_position: pose.point(), ..o },
            )
        }
    }

    /// The cone that a tick retires: the one tracked, where the half-turn round
    /// it is done.
    #[verifier::opaque]
    pub open spec fn cone_retires(self, t: Task, estimate: PoseEstimate, fresh: bool) -> Option<
        TrackId,
    > {
        match self.acquired(t, estimate.pose, ElementKind::Cone) {
            (after, Some(track)) => match track.geometry {
                ElementGeometry::LineRegion { .. } => None,
                ElementGeometry::Cone { radius_m } => {
                    let b = self.bend(after, estimate.pose, track, radius_m);
                    let o = self.orbit_of(after, b, estimate.pose);
                    let fitting = self.fitting_radius(b, o.radius_m.max(b.minimum_radius), 0);
                    let done = if o.entered || o.entry_aligned {
                        self.concludes(estimate.pose, fresh, b, o)
                    } else {
                        fitting is Some && self.concludes(
                            estimate.pose,
                            fresh,
                            b,
                            Orbit { radius_m: fitting->0, ..o },
                        )
                    };
                    if done {
                        Some(track.id)
                    } else {
                        None
                    }
                },
            },
            _ => None,
        }
    }

    /// A half-turn, with a radius that fits.
    pub open spec fn committed(
        self,
        t: Task,
        now: Timestamp,
        estimate: PoseEstimate,
        fresh: bool,
        b: Bend,
        id: TrackId,
        o: Orbit,
    ) -> (Task, Result<Draft, Seq<char>>) {
        let pose = estimate.pose;
        if o.radius_m.lt(b.minimum_radius) {
            (
                Task { orbit: Some(o), ..t },
                Ok(
                    Draft::halt(
                        OnlineBehavior::OrbitCone,
                        "updated cone uncertainty invalidated the committed orbit clearance"@,
                    ),
                ),
            )
        } else if o.entered {
            self.orbiting(t, now, pose, fresh, b, id, o)
        } else if self.near(pose, self.entry(b, o.radius_m), b.entry_heading) {
            self.orbiting(
                t,
                now,
                pose,
                fresh,
                b,
                id,
                Orbit { entered: true, last_position: pose.point(), ..o },
            )
        } else {
            let (after, draft) = self.entering(estimate, b, o, t.orbit is None);
            (Task { orbit: Some(after), ..t }, Ok(draft))
        }
    }

    /// A half-turn round a tracked cone.
    pub open spec fn rounding(
        self,
        t: Task,
        now: Timestamp,
        estimate: PoseEstimate,
        fresh: bool,
        b: Bend,
        id: TrackId,
    ) -> (Task, Result<Draft, Seq<char>>) {
        let o = self.orbit_of(t, b, estimate.pose);
        if o.entered || o.entry_aligned {
            self.committed(t, now, estimate, fresh, b, id, o)
        } else {
            match self.fitting_radius(b, o.radius_m.max(b.minimum_radius), 0) {
                None => (Task { orbit: Some(o), ..t }, Ok(self.unfit(estimate.pose, b, o))),
                Some(radius_m) => self.committed(
                    t,
                    now,
                    estimate,
                    fresh,
                    b,
                    id,
                    Orbit { radius_m, ..o },
                ),
            }
        }
    }

    /// One tick of the phase with the cones.
    #[verifier::opaque]
    pub open spec fn cone_tick(
        self,
        t: Task,
        now: Timestamp,
        estimate: PoseEstimate,
        fresh: bool,
    ) -> (Task, Result<Draft, Seq<char>>) {
        let (after, found) = self.acquired(t, estimate.pose, ElementKind::Cone);
        match found {
            None => self.searched(after, now, estimate.pose),
            Some(track) => match track.geometry {
                ElementGeometry::LineRegion { .. } => (
                    after,
                    Err("cone track has incompatible geometry"@),
                ),
                ElementGeometry::Cone { radius_m } => self.rounding(
                    after,
                    now,
                    estimate,
                    fresh,
                    self.bend(after, estimate.pose, track, radius_m),
                    track.id,
                ),
            },
        }
    }
}

impl<
    'a,
    F: Fn(Elementary) -> Binary64,
    S: Fn(Space) -> SpaceState,
    V: Fn(HalfPlane) -> Option<String>,
    E: Fn(HalfPlane, Footprint, Pose2) -> Stance,
> Policy<'a, F, S, V, E> {
    fn bend(&self, t: Task, pose: Pose2, track: ElementTrack, cone_radius_m: Binary64) -> (r: Bend)
        ensures
            forall|c: Scene| #[trigger]
                self.described(c) ==> r == c.bend(t, pose, track, cone_radius_m),
    {
        let axis: Binary64 = match t.initial_heading {
            Some(heading) => heading,
            None => pose.yaw_rad,
        };
        let zero: Binary64 = Binary64::of(ZERO);
        let half_turn: Binary64 = Binary64::of(PI);
        let one: Binary64 = Binary64::of(ONE);
        let (direction, entry, exit): (Binary64, Binary64, Binary64) = if t.cone_index == 0 {
            (one, zero, half_turn)
        } else {
            (one.negated(), half_turn, zero)
        };
        Bend {
            center: track.position,
            error_m: track.position_error_m,
            cone_radius_m,
            axis,
            direction,
            entry_angle: axis.minus(Binary64::of(HALF_PI)),
            entry_heading: wrap(axis.plus(entry)),
            exit_heading: wrap(axis.plus(exit)),
            minimum_radius: cone_radius_m.plus(self.limits.footprint.half_width_m).plus(
                self.limits.clearance_m,
            ).plus(track.position_error_m).max(one.over(self.limits.max_curvature_per_m)),
        }
    }

    fn orbit_of(&self, t: Task, b: Bend, pose: Pose2) -> (r: Orbit)
        ensures
            forall|c: Scene| #[trigger] self.described(c) ==> r == c.orbit_of(t, b, pose),
    {
        match t.orbit {
            Some(orbit) => orbit,
            None => Orbit {
                radius_m: self.limits.preferred_cone_radius_m.max(b.minimum_radius),
                entry_aligned: false,
                entered: false,
                progress_rad: Binary64::of(ZERO),
                saw_outer_side: false,
                last_position: pose.point(),
            },
        }
    }

    fn fitting_radius(&self, b: Bend, upper: Binary64) -> (r: Option<Binary64>)
        requires
            self.total(),
        ensures
            forall|c: Scene| #[trigger] self.described(c) ==> r == c.fitting_radius(b, upper, 0),
    {
        let mut step: u64 = 0;
        while step < 5
            invariant
                self.total(),
                step <= 5,
                forall|c: Scene| #[trigger]
                    self.described(c) ==> c.fitting_radius(b, upper, 0) == c.fitting_radius(
                        b,
                        upper,
                        step as nat,
                    ),
            decreases 5 - step,
        {
            let radius: Binary64 = upper.minus(
                upper.minus(b.minimum_radius).times(Binary64::from_natural(step)).over(
                    Binary64::of(FOUR),
                ),
            );
            let arc: Arc = Arc {
                center: b.center,
                radius,
                start: b.entry_angle,
                sweep: b.direction.times(
                    Binary64::of(TWO).times(self.limits.arc_lookahead_rad).min(
                        Binary64::of(HALF_PI),
                    ),
                ),
            };
            assert(forall|c: Scene| #[trigger]
                self.described(c) ==> radius == c.tried_radius(b, upper, step as nat) && arc
                    == c.opening(b, radius));
            let state: SpaceState = self.arc_space_state(arc);
            if state != SpaceState::Obstacle {
                return Some(radius);
            }
            step += 1;
        }
        None
    }

    fn entry(&self, b: Bend, radius: Binary64) -> (r: Point2)
        requires
            self.total(),
        ensures
            forall|c: Scene| #[trigger] self.described(c) ==> r == c.entry(b, radius),
    {
        self.polar(b.center, radius, b.entry_angle)
    }

    fn guide(&self, b: Bend, radius: Binary64) -> (r: Point2)
        requires
            self.total(),
        ensures
            forall|c: Scene| #[trigger] self.described(c) ==> r == c.guide(b, radius),
    {
        let entry: Point2 = self.entry(b, radius);
        self.polar(entry, self.limits.search_horizon_m, b.entry_heading.plus(Binary64::of(PI)))
    }

    fn to_guide(&self, pose: Pose2, b: Bend, radius: Binary64, reason: &'static str) -> (r: Proposal)
        requires
            self.total(),
        ensures
            forall|c: Scene| #[trigger]
                self.described(c) ==> r@ == c.to_guide(pose, b, radius, reason@),
    {
        let guide: Point2 = self.guide(b, radius);
        self.local_target(
            pose,
            guide,
            Some(b.entry_heading),
            None,
            true,
            OnlineBehavior::ConeEntry,
            reason,
        )
    }

    fn unfit(&self, pose: Pose2, b: Bend, o: Orbit) -> (r: Proposal)
        requires
            self.total(),
        ensures
            forall|c: Scene| #[trigger] self.described(c) ==> r@ == c.unfit(pose, b, o),
    {
        let guide: Point2 = self.guide(b, o.radius_m);
        if !self.near(pose, guide, b.entry_heading) {
            self.to_guide(
                pose,
                b,
                o.radius_m,
                "approaching observed entrance tangent to resolve hidden arc",
            )
        } else {
            Proposal::stop(
                OnlineBehavior::ConeEntry,
                "no observed whole-body arc supports a cone entry radius",
            )
        }
    }

    fn on_tangent(&self, pose: Pose2, b: Bend, o: Orbit) -> (r: bool)
        requires
            self.total(),
        ensures
            forall|c: Scene| #[trigger] self.described(c) ==> r == c.on_tangent(pose, b, o),
    {
        let entry: Point2 = self.entry(b, o.radius_m);
        let approach: Point2 = self.seen(
            Pose2 { x_m: entry.x_m, y_m: entry.y_m, yaw_rad: b.entry_heading },
            pose.point(),
        );
        approach.x_m.at_most(Binary64::of(ZERO)) && self.limits.search_horizon_m.negated().minus(
            self.limits.goal_tolerance_m,
        ).at_most(approach.x_m) && approach.y_m.abs().at_most(self.limits.goal_tolerance_m)
            && wrap(pose.yaw_rad.minus(b.entry_heading)).abs().at_most(
            self.limits.goal_heading_tolerance_rad,
        )
    }

    fn aligned(&self, estimate: &PoseEstimate, b: Bend, o: Orbit, first_approach: bool) -> (r: bool)
        requires
            self.total(),
        ensures
            forall|c: Scene| #[trigger]
                self.described(c) ==> r == c.aligned(*estimate, b, o, first_approach),
    {
        let guide: Point2 = self.guide(b, o.radius_m);
        o.entry_aligned || ((first_approach || (self.near(estimate.pose, guide, b.entry_heading)
            && self.stopped(estimate))) && self.on_tangent(estimate.pose, b, o))
    }

    fn enter(&self, estimate: &PoseEstimate, b: Bend, o: Orbit, first_approach: bool) -> (r: (
        Orbit,
        Proposal,
    ))
        requires
            self.total(),
        ensures
            forall|c: Scene| #[trigger]
                self.described(c) ==> (r.0, r.1@) == c.entering(*estimate, b, o, first_approach),
    {
        let aligned: bool = self.aligned(estimate, b, o, first_approach);
        let after: Orbit = Orbit { entry_aligned: aligned, ..o };
        if !aligned {
            return (
                after,
                self.to_guide(
                    estimate.pose,
                    b,
                    o.radius_m,
                    "stopping on observed cone entrance tangent before entry",
                ),
            );
        }
        let lookahead: Binary64 = self.limits.arc_lookahead_rad;
        let entry: Point2 = self.entry(b, o.radius_m);
        let next: Point2 = self.polar(b.center, o.radius_m, b.angle_at(lookahead));
        let mut proposal: Proposal = self.local_target(
            estimate.pose,
            entry,
            Some(b.entry_heading),
            Some((next, wrap(b.entry_heading.plus(b.direction.times(lookahead))))),
            false,
            OnlineBehavior::ConeEntry,
            "approaching current tracked cone entrance",
        );
        if let MissionOutput::Target { .. } = proposal.output {
            proposal.heading = Some(b.entry_heading);
        }
        (after, proposal)
    }

    fn along(&self, pose: Pose2, b: Bend) -> (r: Binary64)
        requires
            self.total(),
        ensures
            forall|c: Scene| #[trigger] self.described(c) ==> r == c.along(pose, b),
    {
        let cos: Binary64 = self.ask(Elementary::Cosine(b.axis));
        let sin: Binary64 = self.ask(Elementary::Sine(b.axis));
        pose.x_m.minus(b.center.x_m).times(cos).plus(pose.y_m.minus(b.center.y_m).times(sin))
    }

    fn bearing(&self, b: Bend, p: Point2) -> (r: Binary64)
        requires
            self.total(),
        ensures
            forall|c: Scene| #[trigger] self.described(c) ==> r == c.bearing(b, p),
    {
        self.ask(
            Elementary::Bearing { y: p.y_m.minus(b.center.y_m), x: p.x_m.minus(b.center.x_m) },
        )
    }

    fn advance(&self, pose: Pose2, b: Bend, o: Orbit) -> (r: Binary64)
        requires
            self.total(),
        ensures
            forall|c: Scene| #[trigger] self.described(c) ==> r == c.advance(pose, b, o),
    {
        let current: Binary64 = self.bearing(b, pose.point());
        let previous: Binary64 = self.bearing(b, o.last_position);
        b.direction.times(wrap(current.minus(previous)))
    }

    fn progressed(&self, pose: Pose2, b: Bend, o: Orbit) -> (r: Orbit)
        requires
            self.total(),
        ensures
            forall|c: Scene| #[trigger] self.described(c) ==> r == c.progressed(pose, b, o),
    {
        let delta: Binary64 = self.advance(pose, b, o);
        let along: Binary64 = self.along(pose, b);
        Orbit {
            progress_rad: o.progress_rad.plus(delta).clamp(Binary64::of(ZERO), Binary64::of(PI)),
            last_position: pose.point(),
            saw_outer_side: o.saw_outer_side || o.radius_m.times(Binary64::of(SEVEN_TENTHS)).plus(
                b.error_m,
            ).at_most(b.direction.times(along)),
            ..o
        }
    }

    fn exit_goal(&self, b: Bend, o: Orbit) -> (r: Point2)
        requires
            self.total(),
        ensures
            forall|c: Scene| #[trigger] self.described(c) ==> r == c.exit_goal(b, o),
    {
        let exit: Point2 = self.polar(b.center, o.radius_m, b.angle_at(Binary64::of(PI)));
        self.polar(
            exit,
            b.error_m.plus(Binary64::of(TWO).times(self.limits.goal_tolerance_m)),
            b.exit_heading,
        )
    }

    fn passed(&self, pose: Pose2, b: Bend, o: Orbit) -> (r: bool)
        requires
            self.total(),
        ensures
            forall|c: Scene| #[trigger] self.described(c) ==> r == c.passed(pose, b, o),
    {
        let along: Binary64 = self.along(pose, b);
        let exit_goal: Point2 = self.exit_goal(b, o);
        o.saw_outer_side && Binary64::of(PI).minus(self.limits.goal_heading_tolerance_rad).at_most(
            o.progress_rad,
        ) && b.error_m.at_most(b.direction.negated().times(along)) && self.near(
            pose,
            exit_goal,
            b.exit_heading,
        )
    }

    fn turn_point(&self, b: Bend, o: Orbit, progress: Binary64) -> (r: Point2)
        requires
            self.total(),
        ensures
            forall|c: Scene| #[trigger] self.described(c) ==> r == c.turn_point(b, o, progress),
    {
        if progress.equals(Binary64::of(PI)) {
            self.exit_goal(b, o)
        } else {
            self.polar(b.center, o.radius_m, b.angle_at(progress))
        }
    }

    fn follow(&self, pose: Pose2, b: Bend, o: Orbit) -> (r: Proposal)
        requires
            self.total(),
        ensures
            forall|c: Scene| #[trigger] self.described(c) ==> r@ == c.following(pose, b, o),
    {
        let lookahead: Binary64 = self.limits.arc_lookahead_rad;
        let progress: Binary64 = o.progress_rad.plus(lookahead).min(Binary64::of(PI));
        let onward: Binary64 = progress.plus(lookahead).min(Binary64::of(PI));
        let goal: Point2 = self.turn_point(b, o, progress);
        let next: (Point2, Binary64) = if progress.less(onward) {
            (self.turn_point(b, o, onward), b.tangent_at(b.angle_at(onward)))
        } else {
            let exit_goal: Point2 = self.exit_goal(b, o);
            (
                self.polar(exit_goal, self.limits.search_horizon_m, b.exit_heading),
                b.exit_heading,
            )
        };
        let ahead: SpaceState = self.arc_space_state(
            Arc {
                center: b.center,
                radius: o.radius_m,
                start: b.angle_at(o.progress_rad),
                sweep: b.direction.times(progress.minus(o.progress_rad)),
            },
        );
        self.local_target(
            pose,
            goal,
            Some(b.tangent_at(b.angle_at(progress))),
            Some(next),
            ahead != SpaceState::KnownFree,
            OnlineBehavior::OrbitCone,
            "following short arc about current tracked cone",
        )
    }

    fn leave<R: FnOnce(TrackId) -> Option<String>>(
        &self,
        t: Task,
        now: Timestamp,
        pose: Pose2,
        b: Bend,
        id: TrackId,
        retire: R,
    ) -> (r: (Task, Result<Proposal, String>))
        requires
            self.total(),
            call_requires(retire, (id,)),
            t.cone_index < 2,
            t.active is Some ==> t.active_geometry is Some,
            online_mission::by_then(t.search_since, Some(now)),
        ensures
            r.0.steady(t, now),
            r.0.cone_index <= 2,
            r.0.phase == t.phase || r.0.phase is ApproachLight || r.0.phase is Cones,
            r.0.phase is Cones ==> r.0.cone_index < 2,
            r.0.active is Some ==> r.0.active_geometry is Some,
            forall|c: Scene| #[trigger]
                self.described(c) && scene::answers(retire, c) ==> (r.0, online_mission::plain(r.1)) == c.leaving(
                    t,
                    now,
                    pose,
                    b,
                    id,
                ),
    {
        let cone: ProcessedCone = ProcessedCone {
            position: b.center,
            radius_m: b.cone_radius_m,
            position_error_m: b.error_m,
        };
        let remembered: Task = Task {
            processed: if t.cone_index == 0 {
                (Some(cone), t.processed.1)
            } else {
                (t.processed.0, Some(cone))
            },
            ..t
        };
        match retire(id) {
            Some(message) => (remembered, Err(message)),
            None => {
                let index: usize = t.cone_index + 1;
                let phase: MissionPhase = if index == 2 {
                    MissionPhase::ApproachLight
                } else {
                    MissionPhase::Cones
                };
                self.search(
                    Task { cone_index: index, ..remembered }.transition(phase),
                    now,
                    pose,
                )
            },
        }
    }

    fn orbit<R: FnOnce(TrackId) -> Option<String>>(
        &self,
        t: Task,
        now: Timestamp,
        pose: Pose2,
        fresh: bool,
        b: Bend,
        id: TrackId,
        o: Orbit,
        retire: R,
    ) -> (r: (Task, Result<Proposal, String>))
        requires
            self.total(),
            self.retirable(
                retire,
                |c: Scene|
                    if c.completes(pose, fresh, b, o) {
                        Some(id)
                    } else {
                        None
                    },
            ),
            t.cone_index < 2,
            t.active is Some ==> t.active_geometry is Some,
            online_mission::by_then(t.search_since, Some(now)),
        ensures
            r.0.steady(t, now),
            r.0.cone_index <= 2,
            r.0.phase == t.phase || r.0.phase is ApproachLight || r.0.phase is Cones,
            r.0.phase is Cones ==> r.0.cone_index < 2,
            r.0.active is Some ==> r.0.active_geometry is Some,
            forall|c: Scene| #[trigger]
                self.described(c) && scene::answers(retire, c) ==> (r.0, online_mission::plain(r.1)) == c.orbiting(
                    t,
                    now,
                    pose,
                    fresh,
                    b,
                    id,
                    o,
                ),
    {
        let mut after: Orbit = o;
        if fresh {
            let delta: Binary64 = self.advance(pose, b, o);
            if Binary64::of(HALF_PI).less(delta.abs()) {
                return (
                    t,
                    Err(
                        "cone progress discontinuity; cannot certify passing relation".to_owned(),
                    ),
                );
            }
            after = self.progressed(pose, b, o);
        }
        if self.passed(pose, b, after) {
            return self.leave(t, now, pose, b, id, retire);
        }
        (Task { orbit: Some(after), ..t }, Ok(self.follow(pose, b, after)))
    }

    fn commit<R: FnOnce(TrackId) -> Option<String>>(
        &self,
        t: Task,
        now: Timestamp,
        estimate: &PoseEstimate,
        fresh: bool,
        b: Bend,
        id: TrackId,
        o: Orbit,
        retire: R,
    ) -> (r: (Task, Result<Proposal, String>))
        requires
            self.total(),
            self.retirable(
                retire,
                |c: Scene|
                    if c.concludes(estimate.pose, fresh, b, o) {
                        Some(id)
                    } else {
                        None
                    },
            ),
            t.cone_index < 2,
            t.active is Some ==> t.active_geometry is Some,
            online_mission::by_then(t.search_since, Some(now)),
        ensures
            r.0.steady(t, now),
            r.0.cone_index <= 2,
            r.0.phase == t.phase || r.0.phase is ApproachLight || r.0.phase is Cones,
            r.0.phase is Cones ==> r.0.cone_index < 2,
            r.0.active is Some ==> r.0.active_geometry is Some,
            forall|c: Scene| #[trigger]
                self.described(c) && scene::answers(retire, c) ==> (r.0, online_mission::plain(r.1)) == c.committed(
                    t,
                    now,
                    *estimate,
                    fresh,
                    b,
                    id,
                    o,
                ),
    {
        let pose: Pose2 = estimate.pose;
        if o.radius_m.less(b.minimum_radius) {
            return (
                Task { orbit: Some(o), ..t },
                Ok(
                    Proposal::stop(
                        OnlineBehavior::OrbitCone,
                        "updated cone uncertainty invalidated the committed orbit clearance",
                    ),
                ),
            );
        }
        if o.entered {
            return self.orbit(t, now, pose, fresh, b, id, o, retire);
        }
        let entry: Point2 = self.entry(b, o.radius_m);
        if self.near(pose, entry, b.entry_heading) {
            return self.orbit(
                t,
                now,
                pose,
                fresh,
                b,
                id,
                Orbit { entered: true, last_position: pose.point(), ..o },
                retire,
            );
        }
        let (after, proposal): (Orbit, Proposal) = self.enter(estimate, b, o, t.orbit.is_none());
        (Task { orbit: Some(after), ..t }, Ok(proposal))
    }

    /// One tick of the phase with the cones. The cone is retired once the
    /// half-turn round it is done.
    pub fn cone_step<R: FnOnce(TrackId) -> Option<String>>(
        &self,
        t: Task,
        now: Timestamp,
        estimate: &PoseEstimate,
        fresh: bool,
        retire: R,
    ) -> (r: (Task, Result<Proposal, String>))
        requires
            self.total(),
            self.retirable(retire, |c: Scene| c.cone_retires(t, *estimate, fresh)),
            t.cone_index < 2,
            t.active is Some ==> t.active_geometry is Some,
            online_mission::by_then(t.search_since, Some(now)),
        ensures
            r.0.steady(t, now),
            r.0.cone_index <= 2,
            r.0.phase == t.phase || r.0.phase is ApproachLight || r.0.phase is Cones,
            r.0.phase is Cones ==> r.0.cone_index < 2,
            r.0.active is Some ==> r.0.active_geometry is Some,
            forall|c: Scene| #[trigger]
                self.described(c) && scene::answers(retire, c) ==> (r.0, online_mission::plain(r.1)) == c.cone_tick(
                    t,
                    now,
                    *estimate,
                    fresh,
                ),
    {
        proof {
            reveal(Scene::cone_tick);
            reveal(Scene::cone_retires);
        }
        let (after, found): (Task, Option<ElementTrack>) = self.acquire(
            t,
            estimate.pose,
            ElementKind::Cone,
        );
        let track: ElementTrack = match found {
            None => {
                return self.search(after, now, estimate.pose);
            },
            Some(track) => track,
        };
        let cone_radius_m: Binary64 = match track.geometry {
            ElementGeometry::LineRegion { .. } => {
                return (after, Err("cone track has incompatible geometry".to_owned()));
            },
            ElementGeometry::Cone { radius_m } => radius_m,
        };
        let b: Bend = self.bend(after, estimate.pose, track, cone_radius_m);
        let o: Orbit = self.orbit_of(after, b, estimate.pose);
        if o.entered || o.entry_aligned {
            return self.commit(after, now, estimate, fresh, b, track.id, o, retire);
        }
        match self.fitting_radius(b, o.radius_m.max(b.minimum_radius)) {
            None => (Task { orbit: Some(o), ..after }, Ok(self.unfit(estimate.pose, b, o))),
            Some(radius_m) => self.commit(
                after,
                now,
                estimate,
                fresh,
                b,
                track.id,
                Orbit { radius_m, ..o },
                retire,
            ),
        }
    }
}

} // verus!
