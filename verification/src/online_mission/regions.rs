//! The stops at the crosswalk, at the light and in the finish.
use super::scene;
use super::scene::{Policy, Scene};
use super::{first_of, frame, Draft, OnlineBehavior, Proposal, Task};
use crate::autonomy::{
    Footprint, HalfPlane, LightState, Point2, Pose2, PoseEstimate, Road, RoadObservation, Stance,
};
use crate::binary64::values::{TWO, ZERO};
use crate::binary64::Binary64;
use crate::elementary::Elementary;
use crate::local_world::{ElementKind, ElementTrack, Space, SpaceState, TrackId};
use crate::local_world;
use crate::mission::MissionPhase;
use crate::online_mission;
use crate::sensors::Timestamp;
use vstd::prelude::*;

verus! {

impl Scene {
    /// The goal before a crosswalk: with the front a margin before the edge,
    /// whatever the region's error.
    pub open spec fn crosswalk_goal(self, track: ElementTrack) -> Point2 {
        frame(track).placed(
            self.math,
            Point2 {
                x_m: self.limits.footprint.front_m.negated().minus(
                    self.limits.crosswalk_stop_margin_m,
                ).minus(online_mission::region_margin(self.math, track)),
                y_m: Binary64::of(ZERO),
            },
        )
    }

    /// The task while standing before a crosswalk. Only a new pose counts.
    pub open spec fn standing(self, t: Task, captured_at: Timestamp, fresh: bool) -> Task {
        let since = online_mission::since_or(t.stop_since, captured_at);
        if fresh {
            Task {
                phase: MissionPhase::CrosswalkStop,
                stop_since: Some(since),
                stop_elapsed_ms: online_mission::elapsed(since, captured_at),
                ..t
            }
        } else {
            Task { phase: MissionPhase::CrosswalkStop, ..t }
        }
    }

    /// The hold before a crosswalk, until its time is over.
    pub open spec fn held(self, t: Task, captured_at: Timestamp, fresh: bool, id: TrackId) -> (
        Task,
        Result<Draft, Seq<char>>,
    ) {
        let after = self.standing(t, captured_at, fresh);
        if after.stop_elapsed_ms < self.limits.crosswalk_hold_ms {
            (
                after,
                Ok(
                    Draft::halt(
                        OnlineBehavior::HoldCrosswalk,
                        "holding before observed crosswalk"@,
                    ),
                ),
            )
        } else {
            match (self.retire)(id) {
                Some(message) => (after, Err(message)),
                None => (
                    after.moved(MissionPhase::Cones),
                    Ok(
                        Draft::halt(
                            OnlineBehavior::Search,
                            "observed crosswalk stop completed"@,
                        ),
                    ),
                ),
            }
        }
    }

    /// Before a tracked crosswalk.
    pub open spec fn before_crosswalk(
        self,
        t: Task,
        estimate: PoseEstimate,
        fresh: bool,
        track: ElementTrack,
        heading: Binary64,
    ) -> (Task, Result<Draft, Seq<char>>) {
        let goal = self.crosswalk_goal(track);
        match self.edge(track, false) {
            Err(message) => (t, Err(message)),
            Ok(edge) => if !(self.stance)(edge, self.limits.footprint, estimate.pose).inside {
                (t, Err("crosswalk crossed before required observed stop"@))
            } else if self.stopped(estimate) && self.near(estimate.pose, goal, heading) {
                self.held(t, estimate.captured_at, fresh, track.id)
            } else {
                (
                    Task {
                        phase: MissionPhase::ApproachCrosswalk,
                        stop_since: None,
                        stop_elapsed_ms: 0,
                        ..t
                    },
                    Ok(
                        self.local_target(
                            estimate.pose,
                            goal,
                            Some(heading),
                            None,
                            true,
                            OnlineBehavior::ApproachRegion,
                            "approaching observed crosswalk"@,
                        ),
                    ),
                )
            },
        }
    }

    /// One tick of the phases with the crosswalk.
    #[verifier::opaque]
    pub open spec fn crosswalk_tick(
        self,
        t: Task,
        now: Timestamp,
        estimate: PoseEstimate,
        fresh: bool,
    ) -> (Task, Result<Draft, Seq<char>>) {
        let (after, found) = self.acquired(t, estimate.pose, ElementKind::Crosswalk);
        match found {
            None => self.searched(after, now, estimate.pose),
            Some(track) => match track.heading_rad {
                None => (after, Err("crosswalk has no observed heading"@)),
                Some(heading) => self.before_crosswalk(after, estimate, fresh, track, heading),
            },
        }
    }

    /// The crosswalk that a tick retires: the one tracked, where the hold before
    /// it is over.
    #[verifier::opaque]
    pub open spec fn crosswalk_retires(
        self,
        t: Task,
        estimate: PoseEstimate,
        fresh: bool,
    ) -> Option<TrackId> {
        match self.acquired(t, estimate.pose, ElementKind::Crosswalk) {
            (after, Some(track)) => {
                let edge = self.edge(track, false);
                if track.heading_rad is Some && edge is Ok && (self.stance)(
                    edge->Ok_0,
                    self.limits.footprint,
                    estimate.pose,
                ).inside && self.stopped(estimate) && self.near(
                    estimate.pose,
                    self.crosswalk_goal(track),
                    track.heading_rad->0,
                ) && self.standing(after, estimate.captured_at, fresh).stop_elapsed_ms
                    >= self.limits.crosswalk_hold_ms {
                    Some(track.id)
                } else {
                    None
                }
            },
            _ => None,
        }
    }

    /// Whether the road shows a light with confidence.
    pub open spec fn confident(self, road: Road) -> bool {
        self.limits.min_detection_confidence.le(road.light_confidence)
    }

    pub open spec fn green(self, road: Road) -> bool {
        road.light == LightState::Green && !road.light_confidence.lt(
            self.limits.min_detection_confidence,
        )
    }

    /// The task while it waits in the stop region.
    pub open spec fn waiting(self, t: Task, captured_at: Timestamp) -> Task {
        if t.phase is WaitGreen {
            t
        } else {
            Task {
                phase: MissionPhase::WaitGreen,
                light_wait_since: Some(captured_at),
                ..t
            }.without_green()
        }
    }

    /// The task with a view of green counted, where the view is new.
    pub open spec fn counted(self, t: Task, road: Road, fresh_road: bool) -> Task {
        let since = online_mission::since_or(t.green_since, road.captured_at);
        if fresh_road {
            Task {
                green_since: Some(since),
                green_elapsed_ms: online_mission::elapsed(since, road.captured_at),
                green_frames: if t.green_frames == u32::MAX {
                    u32::MAX
                } else {
                    (t.green_frames + 1) as u32
                },
                ..t
            }
        } else {
            t
        }
    }

    /// Stationary in the stop region: green must be seen long and often enough
    /// after the stop.
    pub open spec fn at_light(
        self,
        t: Task,
        now: Timestamp,
        estimate: PoseEstimate,
        road: Road,
        fresh: bool,
        fresh_road: bool,
        id: TrackId,
    ) -> (Task, Result<Draft, Seq<char>>) {
        let waiting = self.waiting(t, estimate.captured_at);
        let after = self.counted(waiting, road, fresh_road);
        if !self.green(road) || road.captured_at.0 < (waiting.light_wait_since->0).0 {
            (
                waiting.without_green(),
                Ok(
                    Draft::halt(
                        OnlineBehavior::WaitGreen,
                        "waiting for fresh confirmed green inside observed region"@,
                    ),
                ),
            )
        } else if fresh && after.green_elapsed_ms >= self.limits.min_green_ms && after.green_frames
            >= self.limits.min_green_frames {
            match (self.retire)(id) {
                Some(message) => (after, Err(message)),
                None => self.searched(after.moved(MissionPhase::Finish), now, estimate.pose),
            }
        } else {
            (
                after,
                Ok(
                    Draft::halt(
                        OnlineBehavior::WaitGreen,
                        "debouncing green after observed stationary stop"@,
                    ),
                ),
            )
        }
    }

    /// Whether green has been seen long and often enough since the stop.
    pub open spec fn released(
        self,
        t: Task,
        estimate: PoseEstimate,
        road: Road,
        fresh: bool,
        fresh_road: bool,
    ) -> bool {
        let waiting = self.waiting(t, estimate.captured_at);
        let after = self.counted(waiting, road, fresh_road);
        &&& self.green(road)
        &&& road.captured_at.0 >= (waiting.light_wait_since->0).0
        &&& fresh
        &&& after.green_elapsed_ms >= self.limits.min_green_ms
        &&& after.green_frames >= self.limits.min_green_frames
    }

    /// Whether the body stands in a stop region, at its goal and before its far
    /// edge.
    pub open spec fn halted(self, estimate: PoseEstimate, track: ElementTrack) -> bool {
        let goal = self.region_goal(track);
        let edge = self.edge(track, true);
        &&& goal is Ok
        &&& edge is Ok
        &&& (self.stance)(edge->Ok_0, self.limits.footprint, estimate.pose).inside
        &&& self.stopped(estimate)
        &&& self.near(estimate.pose, goal->Ok_0.0, goal->Ok_0.1)
        &&& self.inside_region(estimate.pose, track)
    }

    /// The stop region that a tick retires: the one tracked, where the body
    /// stands in it and green releases it.
    #[verifier::opaque]
    pub open spec fn light_retires(
        self,
        t: Task,
        estimate: PoseEstimate,
        road: Road,
        fresh: bool,
        fresh_road: bool,
    ) -> Option<TrackId> {
        match self.acquired(t, estimate.pose, ElementKind::StopLine) {
            (after, Some(track)) => {
                let seen = Task {
                    observed_signal_without_region: false,
                    light: Some(track),
                    ..after
                };
                if self.halted(estimate, track) && self.released(
                    seen,
                    estimate,
                    road,
                    fresh,
                    fresh_road,
                ) {
                    Some(track.id)
                } else {
                    None
                }
            },
            _ => None,
        }
    }

    /// With a tracked stop region.
    pub open spec fn at_region(
        self,
        t: Task,
        now: Timestamp,
        estimate: PoseEstimate,
        road: Road,
        fresh: bool,
        fresh_road: bool,
        track: ElementTrack,
    ) -> (Task, Result<Draft, Seq<char>>) {
        let inside = self.inside_region(estimate.pose, track);
        match self.region_goal(track) {
            Err(message) => (t, Err(message)),
            Ok((goal, heading)) => match self.edge(track, true) {
                Err(message) => (t, Err(message)),
                Ok(edge) => if !(self.stance)(edge, self.limits.footprint, estimate.pose).inside {
                    (t, Err("observed stop-region far edge crossed without green"@))
                } else if t.phase is WaitGreen && !inside {
                    (t, Err("vehicle left observed light stop region"@))
                } else if self.stopped(estimate) && self.near(estimate.pose, goal, heading)
                    && inside {
                    self.at_light(t, now, estimate, road, fresh, fresh_road, track.id)
                } else if t.phase is WaitGreen {
                    (
                        Task {
                            light_wait_since: Some(estimate.captured_at),
                            ..t
                        }.without_green(),
                        Ok(
                            Draft::halt(
                                OnlineBehavior::WaitGreen,
                                "waiting for whole-body stationary stop"@,
                            ),
                        ),
                    )
                } else {
                    (
                        t,
                        Ok(
                            self.local_target(
                                estimate.pose,
                                goal,
                                Some(heading),
                                None,
                                true,
                                OnlineBehavior::ApproachRegion,
                                "approaching observed light stop region"@,
                            ),
                        ),
                    )
                },
            },
        }
    }

    /// One tick of the phases with the light. A light without a stop region
    /// takes a stop: it warns of a boundary that is nowhere seen.
    #[verifier::opaque]
    pub open spec fn light_tick(
        self,
        t: Task,
        now: Timestamp,
        estimate: PoseEstimate,
        road: Road,
        fresh: bool,
        fresh_road: bool,
    ) -> (Task, Result<Draft, Seq<char>>) {
        let (after, found) = self.acquired(t, estimate.pose, ElementKind::StopLine);
        match found {
            None => {
                let warned = after.observed_signal_without_region || (road.light
                    != LightState::Unknown && self.confident(road));
                let noted = Task { observed_signal_without_region: warned, ..after };
                if warned {
                    (
                        noted,
                        Ok(
                            Draft::halt(
                                OnlineBehavior::Search,
                                "observed light requires confirmed stop-region geometry before motion"@,
                            ),
                        ),
                    )
                } else {
                    self.searched(noted, now, estimate.pose)
                }
            },
            Some(track) => self.at_region(
                Task { observed_signal_without_region: false, light: Some(track), ..after },
                now,
                estimate,
                road,
                fresh,
                fresh_road,
                track,
            ),
        }
    }

    /// Whether the whole body is past the far edge of the stop region,
    /// whatever the region's error.
    pub open spec fn clears(self, pose: Pose2, light: ElementTrack, edge: HalfPlane) -> bool {
        edge.max_projection_m.plus(
            Binary64::of(TWO).times(online_mission::region_margin(self.math, light)),
        ).lt((self.stance)(edge, self.limits.footprint, pose).rear_m)
    }

    /// Whether the body stands in a finish region, at its goal.
    pub open spec fn finished(
        self,
        estimate: PoseEstimate,
        track: ElementTrack,
        goal: Point2,
        heading: Binary64,
    ) -> bool {
        self.near(estimate.pose, goal, heading) && self.stopped(estimate) && self.inside_region(
            estimate.pose,
            track,
        )
    }

    /// On the way to the finish, and in it.
    pub open spec fn toward_finish(self, t: Task, now: Timestamp, estimate: PoseEstimate) -> (
        Task,
        Result<Draft, Seq<char>>,
    ) {
        let (after, found) = self.acquired(t, estimate.pose, ElementKind::FinishMarker);
        match found {
            None => self.searched(after, now, estimate.pose),
            Some(track) => match self.region_goal(track) {
                Err(message) => (after, Err(message)),
                Ok((goal, heading)) => if !self.finished(estimate, track, goal, heading) {
                    (
                        after,
                        Ok(
                            self.local_target(
                                estimate.pose,
                                goal,
                                Some(heading),
                                None,
                                true,
                                OnlineBehavior::ApproachRegion,
                                "approaching observed finish region"@,
                            ),
                        ),
                    )
                } else if !t.light_cleared {
                    (
                        after,
                        Err("observed finish goal reached before whole-vehicle light clearance"@),
                    )
                } else {
                    match (self.retire)(track.id) {
                        Some(message) => (after, Err(message)),
                        None => (
                            Task { phase: MissionPhase::Completed, ..after },
                            Ok(
                                Draft::halt(
                                    OnlineBehavior::Completed,
                                    "observed finish contains whole stationary vehicle"@,
                                ),
                            ),
                        ),
                    }
                },
            },
        }
    }

    /// With fresh geometry of the light, or past it.
    pub open spec fn past_light(
        self,
        t: Task,
        now: Timestamp,
        estimate: PoseEstimate,
        light: ElementTrack,
    ) -> (Task, Result<Draft, Seq<char>>) {
        match self.edge(light, true) {
            Err(message) => (t, Err(message)),
            Ok(edge) => self.toward_finish(
                Task {
                    light_cleared: t.light_cleared || self.clears(estimate.pose, light, edge),
                    ..t
                },
                now,
                estimate,
            ),
        }
    }

    /// The finish that a tick on the way to it retires.
    pub open spec fn arrival_retires(self, t: Task, estimate: PoseEstimate) -> Option<TrackId> {
        match self.acquired(t, estimate.pose, ElementKind::FinishMarker) {
            (_, Some(track)) => {
                let goal = self.region_goal(track);
                if t.light_cleared && goal is Ok && self.finished(
                    estimate,
                    track,
                    goal->Ok_0.0,
                    goal->Ok_0.1,
                ) {
                    Some(track.id)
                } else {
                    None
                }
            },
            _ => None,
        }
    }

    /// The finish that a tick with geometry of the light retires.
    pub open spec fn passage_retires(
        self,
        t: Task,
        estimate: PoseEstimate,
        light: ElementTrack,
    ) -> Option<TrackId> {
        match self.edge(light, true) {
            Err(_) => None,
            Ok(edge) => self.arrival_retires(
                Task {
                    light_cleared: t.light_cleared || self.clears(estimate.pose, light, edge),
                    ..t
                },
                estimate,
            ),
        }
    }

    /// The finish that a tick retires: the one tracked, where the whole body is
    /// past the light and stands in the finish, at its goal.
    #[verifier::opaque]
    pub open spec fn finish_retires(self, t: Task, estimate: PoseEstimate, road: Road) -> Option<
        TrackId,
    > {
        match t.light {
            None => None,
            Some(light) => if t.light_cleared {
                self.passage_retires(t, estimate, light)
            } else if !self.green(road) {
                None
            } else {
                match local_world::known(self.tracks, light.id, 0) {
                    None => None,
                    Some(current) => self.passage_retires(
                        Task { light: Some(current), light_missing_since: None, ..t },
                        estimate,
                        current,
                    ),
                }
            },
        }
    }

    /// One tick of the phase with the finish. Until the whole body is past the
    /// light, green must stay and the stop region be seen.
    #[verifier::opaque]
    pub open spec fn finish_tick(
        self,
        t: Task,
        now: Timestamp,
        estimate: PoseEstimate,
        road: Road,
    ) -> (Task, Result<Draft, Seq<char>>) {
        match t.light {
            None => (t, Err("finish has no previously observed light stop region"@)),
            Some(light) => if t.light_cleared {
                self.past_light(t, now, estimate, light)
            } else if !self.green(road) {
                (t, Err("green lost before entire vehicle cleared observed light boundary"@))
            } else {
                match local_world::known(self.tracks, light.id, 0) {
                    Some(current) => self.past_light(
                        Task { light: Some(current), light_missing_since: None, ..t },
                        now,
                        estimate,
                        current,
                    ),
                    None => {
                        let since = online_mission::since_or(t.light_missing_since, now);
                        let after = Task { light_missing_since: Some(since), ..t };
                        if online_mission::elapsed(since, now) >= self.limits.max_track_loss_ms {
                            (after, Err("light region lost before entire vehicle clearance"@))
                        } else {
                            (
                                after,
                                Ok(
                                    Draft::halt(
                                        OnlineBehavior::Search,
                                        "awaiting fresh light-region geometry before clearing it"@,
                                    ),
                                ),
                            )
                        }
                    },
                }
            },
        }
    }
}

impl<
    'a,
    F: Fn(Elementary) -> Binary64,
    S: Fn(Space) -> SpaceState,
    V: Fn(HalfPlane) -> Option<String>,
    E: Fn(HalfPlane, Footprint, Pose2) -> Stance,
> Policy<'a, F, S, V, E> {
    fn crosswalk_goal(&self, track: ElementTrack) -> (r: Point2)
        requires
            self.total(),
        ensures
            forall|c: Scene| #[trigger] self.described(c) ==> r == c.crosswalk_goal(track),
    {
        let margin: Binary64 = self.region_error(track);
        self.placed(
            frame(track),
            Point2 {
                x_m: self.limits.footprint.front_m.negated().minus(
                    self.limits.crosswalk_stop_margin_m,
                ).minus(margin),
                y_m: Binary64::of(ZERO),
            },
        )
    }

    fn hold<R: FnOnce(TrackId) -> Option<String>>(
        &self,
        t: Task,
        captured_at: Timestamp,
        fresh: bool,
        id: TrackId,
        retire: R,
    ) -> (r: (Task, Result<Proposal, String>))
        requires
            self.total(),
            self.retirable(
                retire,
                |c: Scene|
                    if c.standing(t, captured_at, fresh).stop_elapsed_ms
                        >= c.limits.crosswalk_hold_ms {
                        Some(id)
                    } else {
                        None
                    },
            ),
            t.cone_index < 2,
            t.active is Some,
            t.active_geometry is Some,
            online_mission::by_then(t.stop_since, Some(captured_at)),
        ensures
            r.0.coherent(),
            r.0.phase is Fault ==> t.phase is Fault,
            r.0.last_now == t.last_now,
            forall|n: Option<Timestamp>, a: Option<Timestamp>| #[trigger]
                t.timely(n, Some(captured_at), a) ==> r.0.timely(n, Some(captured_at), a),
            forall|c: Scene| #[trigger]
                self.described(c) && scene::answers(retire, c) ==> (r.0, online_mission::plain(r.1)) == c.held(
                    t,
                    captured_at,
                    fresh,
                    id,
                ),
    {
        let mut after: Task = Task { phase: MissionPhase::CrosswalkStop, ..t };
        if fresh {
            let since: Timestamp = first_of(t.stop_since, captured_at);
            after =
            Task {
                stop_since: Some(since),
                stop_elapsed_ms: captured_at.0 - since.0,
                ..after
            };
        }
        if after.stop_elapsed_ms < self.limits.crosswalk_hold_ms {
            return (
                after,
                Ok(
                    Proposal::stop(
                        OnlineBehavior::HoldCrosswalk,
                        "holding before observed crosswalk",
                    ),
                ),
            );
        }
        match retire(id) {
            Some(message) => (after, Err(message)),
            None => (
                after.transition(MissionPhase::Cones),
                Ok(Proposal::stop(OnlineBehavior::Search, "observed crosswalk stop completed")),
            ),
        }
    }

    /// One tick of the phases with the crosswalk. The crosswalk is retired once
    /// the hold before it is over.
    pub fn crosswalk_step<R: FnOnce(TrackId) -> Option<String>>(
        &self,
        t: Task,
        now: Timestamp,
        estimate: &PoseEstimate,
        fresh: bool,
        retire: R,
    ) -> (r: (Task, Result<Proposal, String>))
        requires
            self.total(),
            self.retirable(retire, |c: Scene| c.crosswalk_retires(t, *estimate, fresh)),
            t.coherent(),
            t.phase is ApproachCrosswalk || t.phase is CrosswalkStop,
            online_mission::by_then(t.search_since, Some(now)),
            online_mission::by_then(t.stop_since, Some(estimate.captured_at)),
        ensures
            r.0.coherent(),
            r.0.phase is Fault ==> t.phase is Fault,
            r.0.last_now == t.last_now,
            forall|a: Option<Timestamp>| #[trigger]
                t.timely(Some(now), Some(estimate.captured_at), a) ==> r.0.timely(
                    Some(now),
                    Some(estimate.captured_at),
                    a,
                ),
            forall|c: Scene| #[trigger]
                self.described(c) && scene::answers(retire, c) ==> (r.0, online_mission::plain(r.1)) == c.crosswalk_tick(
                    t,
                    now,
                    *estimate,
                    fresh,
                ),
    {
        proof {
            reveal(Scene::crosswalk_tick);
            reveal(Scene::crosswalk_retires);
        }
        let (after, found): (Task, Option<ElementTrack>) = self.acquire(
            t,
            estimate.pose,
            ElementKind::Crosswalk,
        );
        let track: ElementTrack = match found {
            None => {
                return self.search(after, now, estimate.pose);
            },
            Some(track) => track,
        };
        let heading: Binary64 = match track.heading_rad {
            None => {
                return (after, Err("crosswalk has no observed heading".to_owned()));
            },
            Some(heading) => heading,
        };
        let goal: Point2 = self.crosswalk_goal(track);
        let edge: HalfPlane = match self.region_boundary(track, false) {
            Err(message) => {
                return (after, Err(message));
            },
            Ok(edge) => edge,
        };
        if !self.stand(edge, estimate.pose).inside {
            return (after, Err("crosswalk crossed before required observed stop".to_owned()));
        }
        if self.stopped(estimate) && self.near(estimate.pose, goal, heading) {
            assert(forall|a: Option<Timestamp>| #[trigger]
                t.timely(Some(now), Some(estimate.captured_at), a) ==> after.timely(
                    Some(now),
                    Some(estimate.captured_at),
                    a,
                ));
            return self.hold(after, estimate.captured_at, fresh, track.id, retire);
        }
        (
            Task {
                phase: MissionPhase::ApproachCrosswalk,
                stop_since: None,
                stop_elapsed_ms: 0,
                ..after
            },
            Ok(
                self.local_target(
                    estimate.pose,
                    goal,
                    Some(heading),
                    None,
                    true,
                    OnlineBehavior::ApproachRegion,
                    "approaching observed crosswalk",
                ),
            ),
        )
    }

    fn green(&self, road: &RoadObservation) -> (r: bool)
        ensures
            forall|c: Scene| #[trigger] self.described(c) ==> r == c.green(road@),
    {
        road.light == LightState::Green && !road.light_confidence.less(
            self.limits.min_detection_confidence,
        )
    }

    fn wait(&self, t: Task, captured_at: Timestamp) -> (r: Task)
        ensures
            forall|c: Scene| #[trigger] self.described(c) ==> r == c.waiting(t, captured_at),
            t.phase is WaitGreen ==> r == t,
            !(t.phase is WaitGreen) ==> r == (Task {
                phase: MissionPhase::WaitGreen,
                light_wait_since: Some(captured_at),
                ..t
            }).without_green(),
    {
        if t.phase == MissionPhase::WaitGreen {
            t
        } else {
            Task {
                phase: MissionPhase::WaitGreen,
                light_wait_since: Some(captured_at),
                ..t
            }.reset_green()
        }
    }

    fn count(&self, t: Task, road: &RoadObservation, fresh_road: bool) -> (r: Task)
        requires
            online_mission::by_then(t.green_since, Some(road.captured_at)),
        ensures
            forall|c: Scene| #[trigger] self.described(c) ==> r == c.counted(t, road@, fresh_road),
            r == (Task {
                green_since: r.green_since,
                green_elapsed_ms: r.green_elapsed_ms,
                green_frames: r.green_frames,
                ..t
            }),
            online_mission::by_then(r.green_since, Some(road.captured_at)),
    {
        if !fresh_road {
            return t;
        }
        let since: Timestamp = first_of(t.green_since, road.captured_at);
        Task {
            green_since: Some(since),
            green_elapsed_ms: road.captured_at.0 - since.0,
            green_frames: t.green_frames.saturating_add(1),
            ..t
        }
    }

    fn light_stop<R: FnOnce(TrackId) -> Option<String>>(
        &self,
        t: Task,
        now: Timestamp,
        estimate: &PoseEstimate,
        road: &RoadObservation,
        fresh: bool,
        fresh_road: bool,
        id: TrackId,
        retire: R,
    ) -> (r: (Task, Result<Proposal, String>))
        requires
            self.total(),
            self.retirable(
                retire,
                |c: Scene|
                    if c.released(t, *estimate, road@, fresh, fresh_road) {
                        Some(id)
                    } else {
                        None
                    },
            ),
            t.coherent(),
            t.active is Some,
            t.timely(Some(now), Some(estimate.captured_at), Some(road.captured_at)),
        ensures
            r.0.coherent(),
            r.0.phase is Fault ==> t.phase is Fault,
            r.0.last_now == t.last_now,
            r.0.timely(Some(now), Some(estimate.captured_at), Some(road.captured_at)),
            forall|c: Scene| #[trigger]
                self.described(c) && scene::answers(retire, c) ==> (r.0, online_mission::plain(r.1)) == c.at_light(
                    t,
                    now,
                    *estimate,
                    road@,
                    fresh,
                    fresh_road,
                    id,
                ),
    {
        let waiting: Task = self.wait(t, estimate.captured_at);
        let since: Timestamp = match waiting.light_wait_since {
            Some(at) => at,
            None => estimate.captured_at,
        };
        if !self.green(road) || road.captured_at.0 < since.0 {
            return (
                waiting.reset_green(),
                Ok(
                    Proposal::stop(
                        OnlineBehavior::WaitGreen,
                        "waiting for fresh confirmed green inside observed region",
                    ),
                ),
            );
        }
        let after: Task = self.count(waiting, road, fresh_road);
        if fresh && after.green_elapsed_ms >= self.limits.min_green_ms && after.green_frames
            >= self.limits.min_green_frames {
            return match retire(id) {
                Some(message) => (after, Err(message)),
                None => self.search(after.transition(MissionPhase::Finish), now, estimate.pose),
            };
        }
        (
            after,
            Ok(
                Proposal::stop(
                    OnlineBehavior::WaitGreen,
                    "debouncing green after observed stationary stop",
                ),
            ),
        )
    }

    fn light_region<R: FnOnce(TrackId) -> Option<String>>(
        &self,
        t: Task,
        now: Timestamp,
        estimate: &PoseEstimate,
        road: &RoadObservation,
        fresh: bool,
        fresh_road: bool,
        track: ElementTrack,
        retire: R,
    ) -> (r: (Task, Result<Proposal, String>))
        requires
            self.total(),
            self.retirable(
                retire,
                |c: Scene|
                    if c.halted(*estimate, track) && c.released(
                        t,
                        *estimate,
                        road@,
                        fresh,
                        fresh_road,
                    ) {
                        Some(track.id)
                    } else {
                        None
                    },
            ),
            t.coherent(),
            t.active is Some,
            t.timely(Some(now), Some(estimate.captured_at), Some(road.captured_at)),
        ensures
            r.0.coherent(),
            r.0.phase is Fault ==> t.phase is Fault,
            r.0.last_now == t.last_now,
            r.0.timely(Some(now), Some(estimate.captured_at), Some(road.captured_at)),
            forall|c: Scene| #[trigger]
                self.described(c) && scene::answers(retire, c) ==> (r.0, online_mission::plain(r.1)) == c.at_region(
                    t,
                    now,
                    *estimate,
                    road@,
                    fresh,
                    fresh_road,
                    track,
                ),
    {
        let (goal, heading): (Point2, Binary64) = match self.region_goal(track) {
            Err(message) => {
                return (t, Err(message));
            },
            Ok(goal) => goal,
        };
        let inside: bool = self.inside_region(estimate.pose, track);
        let edge: HalfPlane = match self.region_boundary(track, true) {
            Err(message) => {
                return (t, Err(message));
            },
            Ok(edge) => edge,
        };
        if !self.stand(edge, estimate.pose).inside {
            return (t, Err("observed stop-region far edge crossed without green".to_owned()));
        }
        if t.phase == MissionPhase::WaitGreen && !inside {
            return (t, Err("vehicle left observed light stop region".to_owned()));
        }
        if self.stopped(estimate) && self.near(estimate.pose, goal, heading) && inside {
            return self.light_stop(t, now, estimate, road, fresh, fresh_road, track.id, retire);
        }
        if t.phase == MissionPhase::WaitGreen {
            return (
                Task { light_wait_since: Some(estimate.captured_at), ..t }.reset_green(),
                Ok(
                    Proposal::stop(
                        OnlineBehavior::WaitGreen,
                        "waiting for whole-body stationary stop",
                    ),
                ),
            );
        }
        (
            t,
            Ok(
                self.local_target(
                    estimate.pose,
                    goal,
                    Some(heading),
                    None,
                    true,
                    OnlineBehavior::ApproachRegion,
                    "approaching observed light stop region",
                ),
            ),
        )
    }

    /// One tick of the phases with the light. The stop region is retired once
    /// green releases the body that stands in it.
    pub fn light_step<R: FnOnce(TrackId) -> Option<String>>(
        &self,
        t: Task,
        now: Timestamp,
        estimate: &PoseEstimate,
        road: &RoadObservation,
        fresh: bool,
        fresh_road: bool,
        retire: R,
    ) -> (r: (Task, Result<Proposal, String>))
        requires
            self.total(),
            self.retirable(
                retire,
                |c: Scene| c.light_retires(t, *estimate, road@, fresh, fresh_road),
            ),
            t.coherent(),
            t.timely(Some(now), Some(estimate.captured_at), Some(road.captured_at)),
        ensures
            r.0.coherent(),
            r.0.phase is Fault ==> t.phase is Fault,
            r.0.last_now == t.last_now,
            r.0.timely(Some(now), Some(estimate.captured_at), Some(road.captured_at)),
            forall|c: Scene| #[trigger]
                self.described(c) && scene::answers(retire, c) ==> (r.0, online_mission::plain(r.1)) == c.light_tick(
                    t,
                    now,
                    *estimate,
                    road@,
                    fresh,
                    fresh_road,
                ),
    {
        proof {
            reveal(Scene::light_tick);
            reveal(Scene::light_retires);
        }
        let (after, found): (Task, Option<ElementTrack>) = self.acquire(
            t,
            estimate.pose,
            ElementKind::StopLine,
        );
        match found {
            None => {
                let warned: bool = after.observed_signal_without_region || (road.light
                    != LightState::Unknown && self.limits.min_detection_confidence.at_most(
                    road.light_confidence,
                ));
                let noted: Task = Task { observed_signal_without_region: warned, ..after };
                if warned {
                    return (
                        noted,
                        Ok(
                            Proposal::stop(
                                OnlineBehavior::Search,
                                "observed light requires confirmed stop-region geometry before motion",
                            ),
                        ),
                    );
                }
                self.search(noted, now, estimate.pose)
            },
            Some(track) => self.light_region(
                Task { observed_signal_without_region: false, light: Some(track), ..after },
                now,
                estimate,
                road,
                fresh,
                fresh_road,
                track,
                retire,
            ),
        }
    }

    fn to_finish<R: FnOnce(TrackId) -> Option<String>>(
        &self,
        t: Task,
        now: Timestamp,
        estimate: &PoseEstimate,
        retire: R,
    ) -> (r: (Task, Result<Proposal, String>))
        requires
            self.total(),
            self.retirable(retire, |c: Scene| c.arrival_retires(t, *estimate)),
            t.coherent(),
            online_mission::by_then(t.search_since, Some(now)),
        ensures
            r.0.coherent(),
            r.0.phase is Fault ==> t.phase is Fault,
            r.0.last_now == t.last_now,
            forall|p: Option<Timestamp>, a: Option<Timestamp>| #[trigger]
                t.timely(Some(now), p, a) ==> r.0.timely(Some(now), p, a),
            forall|c: Scene| #[trigger]
                self.described(c) && scene::answers(retire, c) ==> (r.0, online_mission::plain(r.1)) == c.toward_finish(
                    t,
                    now,
                    *estimate,
                ),
    {
        let (after, found): (Task, Option<ElementTrack>) = self.acquire(
            t,
            estimate.pose,
            ElementKind::FinishMarker,
        );
        let track: ElementTrack = match found {
            None => {
                return self.search(after, now, estimate.pose);
            },
            Some(track) => track,
        };
        let (goal, heading): (Point2, Binary64) = match self.region_goal(track) {
            Err(message) => {
                return (after, Err(message));
            },
            Ok(goal) => goal,
        };
        let reached: bool = self.near(estimate.pose, goal, heading) && self.stopped(estimate)
            && self.inside_region(estimate.pose, track);
        if reached && !after.light_cleared {
            return (
                after,
                Err(
                    "observed finish goal reached before whole-vehicle light clearance".to_owned(),
                ),
            );
        }
        if reached {
            return match retire(track.id) {
                Some(message) => (after, Err(message)),
                None => (
                    Task { phase: MissionPhase::Completed, ..after },
                    Ok(
                        Proposal::stop(
                            OnlineBehavior::Completed,
                            "observed finish contains whole stationary vehicle",
                        ),
                    ),
                ),
            };
        }
        (
            after,
            Ok(
                self.local_target(
                    estimate.pose,
                    goal,
                    Some(heading),
                    None,
                    true,
                    OnlineBehavior::ApproachRegion,
                    "approaching observed finish region",
                ),
            ),
        )
    }

    fn pass_light<R: FnOnce(TrackId) -> Option<String>>(
        &self,
        t: Task,
        now: Timestamp,
        estimate: &PoseEstimate,
        light: ElementTrack,
        retire: R,
    ) -> (r: (Task, Result<Proposal, String>))
        requires
            self.total(),
            self.retirable(retire, |c: Scene| c.passage_retires(t, *estimate, light)),
            t.coherent(),
            online_mission::by_then(t.search_since, Some(now)),
        ensures
            r.0.coherent(),
            r.0.phase is Fault ==> t.phase is Fault,
            r.0.last_now == t.last_now,
            forall|p: Option<Timestamp>, a: Option<Timestamp>| #[trigger]
                t.timely(Some(now), p, a) ==> r.0.timely(Some(now), p, a),
            forall|c: Scene| #[trigger]
                self.described(c) && scene::answers(retire, c) ==> (r.0, online_mission::plain(r.1)) == c.past_light(
                    t,
                    now,
                    *estimate,
                    light,
                ),
    {
        let edge: HalfPlane = match self.region_boundary(light, true) {
            Err(message) => {
                return (t, Err(message));
            },
            Ok(edge) => edge,
        };
        let rear_m: Binary64 = self.stand(edge, estimate.pose).rear_m;
        let margin: Binary64 = self.region_error(light);
        let cleared: bool = t.light_cleared || edge.max_projection_m.plus(
            Binary64::of(TWO).times(margin),
        ).less(rear_m);
        let after: Task = Task { light_cleared: cleared, ..t };
        assert(forall|p: Option<Timestamp>, a: Option<Timestamp>| #[trigger]
            t.timely(Some(now), p, a) ==> after.timely(Some(now), p, a));
        self.to_finish(after, now, estimate, retire)
    }

    /// One tick of the phase with the finish. The finish is retired once the
    /// whole body is past the light and stands in it.
    pub fn finish_step<R: FnOnce(TrackId) -> Option<String>>(
        &self,
        t: Task,
        now: Timestamp,
        estimate: &PoseEstimate,
        road: &RoadObservation,
        retire: R,
    ) -> (r: (Task, Result<Proposal, String>))
        requires
            self.total(),
            self.retirable(retire, |c: Scene| c.finish_retires(t, *estimate, road@)),
            t.coherent(),
            online_mission::by_then(t.search_since, Some(now)),
            online_mission::by_then(t.light_missing_since, Some(now)),
        ensures
            r.0.coherent(),
            r.0.phase is Fault ==> t.phase is Fault,
            r.0.last_now == t.last_now,
            forall|p: Option<Timestamp>, a: Option<Timestamp>| #[trigger]
                t.timely(Some(now), p, a) ==> r.0.timely(Some(now), p, a),
            forall|c: Scene| #[trigger]
                self.described(c) && scene::answers(retire, c) ==> (r.0, online_mission::plain(r.1)) == c.finish_tick(
                    t,
                    now,
                    *estimate,
                    road@,
                ),
    {
        proof {
            reveal(Scene::finish_tick);
            reveal(Scene::finish_retires);
        }
        let light: ElementTrack = match t.light {
            None => {
                return (t, Err("finish has no previously observed light stop region".to_owned()));
            },
            Some(light) => light,
        };
        if t.light_cleared {
            return self.pass_light(t, now, estimate, light, retire);
        }
        if !self.green(road) {
            return (
                t,
                Err(
                    "green lost before entire vehicle cleared observed light boundary".to_owned(),
                ),
            );
        }
        match local_world::find(self.tracks, light.id) {
            Some(current) => {
                let after: Task = Task { light: Some(current), light_missing_since: None, ..t };
                assert(forall|p: Option<Timestamp>, a: Option<Timestamp>| #[trigger]
                    t.timely(Some(now), p, a) ==> after.timely(Some(now), p, a));
                self.pass_light(after, now, estimate, current, retire)
            },
            None => {
                let since: Timestamp = first_of(t.light_missing_since, now);
                let after: Task = Task { light_missing_since: Some(since), ..t };
                if now.0 - since.0 >= self.limits.max_track_loss_ms {
                    return (
                        after,
                        Err("light region lost before entire vehicle clearance".to_owned()),
                    );
                }
                (
                    after,
                    Ok(
                        Proposal::stop(
                            OnlineBehavior::Search,
                            "awaiting fresh light-region geometry before clearing it",
                        ),
                    ),
                )
            },
        }
    }
}

} // verus!
