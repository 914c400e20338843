//! One tick of a mission: what it observes, decides and reports.
use super::scene::{Policy, Scene};
use super::{
    first_of, wrap, Draft, OnlineBehavior, OnlineMissionConfig, OnlineMissionReport, Proposal, Task,
};
use crate::autonomy::{Footprint, HalfPlane, Pose2, PoseEstimate, Road, RoadObservation, Stance};
use crate::binary64::values::{ONE, ZERO};
use crate::binary64::Binary64;
use crate::elementary::Elementary;
use crate::elementary;
use crate::local_world::{ElementKind, ElementTrack, Space, SpaceState, TrackId};
use crate::local_world;
use crate::mission::{MissionPhase, MissionReport, Statement};
use crate::online_mission;
use crate::online_mission::scene;
use crate::sensors::{FrameId, Timestamp, ValidationError};
use crate::sensors;
use vstd::prelude::*;

verus! {

/// What a mission may ask of its surroundings at one time, with the frames in
/// which they are given.
pub struct Surroundings<
    'a,
    F: Fn(Elementary) -> Binary64,
    S: Fn(Space) -> SpaceState,
    V: Fn(HalfPlane) -> Option<String>,
    E: Fn(HalfPlane, Footprint, Pose2) -> Stance,
> {
    pub host: &'a F,
    pub space: &'a S,
    pub flaw: &'a V,
    pub stance: &'a E,
    pub tracks: &'a Vec<ElementTrack>,
    pub world_frame: &'a FrameId,
    pub body_frame: &'a FrameId,
}

impl<
    'a,
    F: Fn(Elementary) -> Binary64,
    S: Fn(Space) -> SpaceState,
    V: Fn(HalfPlane) -> Option<String>,
    E: Fn(HalfPlane, Footprint, Pose2) -> Stance,
> Surroundings<'a, F, S, V, E> {
    /// Whether the surroundings can be asked anything.
    pub open spec fn total(&self) -> bool {
        &&& elementary::total(*self.host)
        &&& scene::flaw_total(*self.flaw)
        &&& forall|q: Space| #[trigger] call_requires(*self.space, (q,))
        &&& forall|h: HalfPlane, b: Footprint, p: Pose2| #[trigger]
            call_requires(*self.stance, (h, b, p))
    }

    /// Whether mathematical values give every answer of the surroundings.
    pub open spec fn described(&self, c: Scene) -> bool {
        &&& c.tracks == self.tracks@
        &&& elementary::models(*self.host, c.math)
        &&& scene::flaw_modelled(*self.flaw, c.flaw)
        &&& forall|q: Space, r: SpaceState| #[trigger]
            call_ensures(*self.space, (q,), r) ==> r == (c.space)(q)
        &&& forall|h: HalfPlane, b: Footprint, p: Pose2, r: Stance| #[trigger]
            call_ensures(*self.stance, (h, b, p), r) ==> r == (c.stance)(h, b, p)
    }
}

/// What a report of an online mission says.
pub struct Account {
    pub mission: Statement,
    pub goal_heading_rad: Option<Binary64>,
    pub travel_boundary: Option<HalfPlane>,
    pub behavior: OnlineBehavior,
    pub active_track_id: Option<TrackId>,
    pub active_track: Option<ElementTrack>,
    pub processed_cones: usize,
    pub cone_progress_rad: Binary64,
    pub search_distance_m: Binary64,
    pub execution_space_rejected: bool,
}

impl View for OnlineMissionReport {
    type V = Account;

    open spec fn view(&self) -> Account {
        Account {
            mission: self.mission@,
            goal_heading_rad: self.goal_heading_rad,
            travel_boundary: self.travel_boundary,
            behavior: self.behavior,
            active_track_id: self.active_track_id,
            active_track: self.active_track,
            processed_cones: self.processed_cones,
            cone_progress_rad: self.cone_progress_rad,
            search_distance_m: self.search_distance_m,
            execution_space_rejected: self.execution_space_rejected,
        }
    }
}

/// A task with the reason of its fault, where there is one.
pub struct Standing {
    pub task: Task,
    pub reason: Option<Seq<char>>,
}

impl Scene {
    /// The boundary of travel: before the crosswalk its near edge, before the
    /// light the far edge of the stop region.
    #[verifier::opaque]
    pub open spec fn boundary(self, t: Task) -> Option<HalfPlane> {
        let edge = if (t.phase is ApproachCrosswalk || t.phase is CrosswalkStop)
            && t.active_geometry is Some {
            self.edge(t.active_geometry->0, false)
        } else if !(t.phase is Finish || t.phase is Completed) && t.light is Some {
            self.edge(t.light->0, true)
        } else {
            Err(""@)
        };
        match edge {
            Ok(edge) => Some(edge),
            Err(_) => None,
        }
    }

    /// One tick of the phase that the task is in.
    pub open spec fn act(
        self,
        t: Task,
        now: Timestamp,
        estimate: PoseEstimate,
        road: Road,
        fresh: bool,
        fresh_road: bool,
    ) -> (Task, Result<Draft, Seq<char>>) {
        match t.phase {
            MissionPhase::Idle => (t, Ok(Draft::halt(OnlineBehavior::Idle, "not started"@))),
            MissionPhase::ApproachCrosswalk | MissionPhase::CrosswalkStop => self.crosswalk_tick(
                t,
                now,
                estimate,
                fresh,
            ),
            MissionPhase::Cones => self.cone_tick(t, now, estimate, fresh),
            MissionPhase::ApproachLight | MissionPhase::WaitGreen => self.light_tick(
                t,
                now,
                estimate,
                road,
                fresh,
                fresh_road,
            ),
            _ => self.finish_tick(t, now, estimate, road),
        }
    }

    /// The track that the phase which the task is in retires in a tick.
    pub open spec fn act_retires(
        self,
        t: Task,
        estimate: PoseEstimate,
        road: Road,
        fresh: bool,
        fresh_road: bool,
    ) -> Option<TrackId> {
        match t.phase {
            MissionPhase::Idle => None,
            MissionPhase::ApproachCrosswalk
            | MissionPhase::CrosswalkStop => self.crosswalk_retires(t, estimate, fresh),
            MissionPhase::Cones => self.cone_retires(t, estimate, fresh),
            MissionPhase::ApproachLight | MissionPhase::WaitGreen => self.light_retires(
                t,
                estimate,
                road,
                fresh,
                fresh_road,
            ),
            _ => self.finish_retires(t, estimate, road),
        }
    }

    /// The track that a tick retires once its input has been noted: none beyond
    /// the boundary of travel, nor while the current element is not seen.
    pub open spec fn tick_retires(
        self,
        t: Task,
        estimate: PoseEstimate,
        road: Road,
        fresh: bool,
        fresh_road: bool,
    ) -> Option<TrackId> {
        let edge = self.boundary(t);
        if edge is Some && !(self.stance)(edge->0, self.limits.footprint, estimate.pose).inside {
            None
        } else if t.active is None {
            self.act_retires(t, estimate, road, fresh, fresh_road)
        } else {
            match local_world::known(self.tracks, t.active->0, 0) {
                None => None,
                Some(track) => self.act_retires(
                    Task { active_geometry: Some(track), missing_since: None, ..t },
                    estimate,
                    road,
                    fresh,
                    fresh_road,
                ),
            }
        }
    }
}

impl Standing {
    pub open spec fn account(self, c: Scene, at: Timestamp, draft: Draft) -> Account {
        self.account_at(c.boundary(self.task), at, draft)
    }

    /// The account of a standing with a boundary of travel.
    pub open spec fn account_at(
        self,
        boundary: Option<HalfPlane>,
        at: Timestamp,
        draft: Draft,
    ) -> Account {
        Account {
            mission: Statement {
                at,
                phase: self.task.phase,
                output: draft.output,
                reason: match self.reason {
                    Some(reason) => reason,
                    None => draft.reason,
                },
                crosswalk_stop_elapsed_ms: self.task.stop_elapsed_ms,
                green_elapsed_ms: self.task.green_elapsed_ms,
                waypoint_index: self.task.cone_index,
            },
            goal_heading_rad: draft.heading,
            travel_boundary: boundary,
            behavior: draft.behavior,
            active_track_id: self.task.active,
            active_track: self.task.active_geometry,
            processed_cones: self.task.cone_index,
            cone_progress_rad: match self.task.orbit {
                Some(orbit) => orbit.progress_rad,
                None => Binary64::of(ZERO),
            },
            search_distance_m: self.task.search_distance,
            execution_space_rejected: false,
        }
    }

    /// A fault: the first reason stays.
    pub open spec fn faulted(self, c: Scene, at: Timestamp, reason: Seq<char>) -> (
        Standing,
        Account,
    ) {
        self.faulted_at(
            c.boundary(Task { phase: MissionPhase::Fault, ..self.task }),
            at,
            reason,
        )
    }

    /// A fault with a boundary of travel.
    pub open spec fn faulted_at(
        self,
        boundary: Option<HalfPlane>,
        at: Timestamp,
        reason: Seq<char>,
    ) -> (Standing, Account) {
        let after = Standing {
            task: Task { phase: MissionPhase::Fault, ..self.task },
            reason: match self.reason {
                Some(first) => Some(first),
                None => Some(reason),
            },
        };
        let latest = match self.task.last_now {
            Some(old) if old.0 > at.0 => old,
            _ => at,
        };
        (
            after,
            after.account_at(
                boundary,
                latest,
                Draft::halt(OnlineBehavior::Fault, "fault latched"@),
            ),
        )
    }

    /// The end of a tick. A stop that no task asks for may not last.
    pub open spec fn settled(
        self,
        c: Scene,
        now: Timestamp,
        estimate: PoseEstimate,
        fresh: bool,
        draft: Draft,
    ) -> (Standing, Account) {
        let p = self.task.phase;
        let since = online_mission::since_or(self.task.ordinary_stop_since, estimate.captured_at);
        let timed = Standing {
            task: Task { ordinary_stop_since: Some(since), ..self.task },
            ..self
        };
        let moving = Standing { task: Task { ordinary_stop_since: None, ..self.task }, ..self };
        if p is Idle || p is CrosswalkStop || p is WaitGreen || p is Completed || !c.stopped(
            estimate,
        ) {
            (moving, moving.account(c, now, draft))
        } else if !fresh {
            (self, self.account(c, now, draft))
        } else if online_mission::elapsed(since, estimate.captured_at) > 10_000 {
            timed.faulted(c, now, "ordinary stop exceeded 10 seconds"@)
        } else {
            (timed, timed.account(c, now, draft))
        }
    }

    /// The action of the phase, and the end of the tick.
    pub open spec fn acted(
        self,
        c: Scene,
        now: Timestamp,
        estimate: PoseEstimate,
        road: Road,
        fresh: bool,
        fresh_road: bool,
    ) -> (Standing, Account) {
        let (t, result) = c.act(self.task, now, estimate, road, fresh, fresh_road);
        let after = Standing { task: t, ..self };
        match result {
            Ok(draft) => after.settled(c, now, estimate, fresh, draft),
            Err(reason) => after.faulted(c, now, reason),
        }
    }

    /// Where the current element is not seen: a hold, for a bounded time.
    pub open spec fn bereft(
        self,
        c: Scene,
        now: Timestamp,
        estimate: PoseEstimate,
        fresh: bool,
    ) -> (Standing, Account) {
        let since = online_mission::since_or(self.task.missing_since, now);
        let after = Standing {
            task: Task {
                stop_since: None,
                stop_elapsed_ms: 0,
                missing_since: Some(since),
                ..self.task
            }.without_green(),
            ..self
        };
        if online_mission::elapsed(since, now) >= c.limits.max_track_loss_ms {
            after.faulted(c, now, "current element lost beyond bounded reacquisition time"@)
        } else {
            after.settled(
                c,
                now,
                estimate,
                fresh,
                Draft::halt(
                    OnlineBehavior::Search,
                    "current tracked element unavailable; holding for reacquisition"@,
                ),
            )
        }
    }

    /// A tick after its input has been noted.
    pub open spec fn ticked(
        self,
        c: Scene,
        now: Timestamp,
        estimate: PoseEstimate,
        road: Road,
        fresh: bool,
        fresh_road: bool,
    ) -> (Standing, Account) {
        let edge = c.boundary(self.task);
        if edge is Some && !(c.stance)(edge->0, c.limits.footprint, estimate.pose).inside {
            self.faulted(c, now, "observed task boundary crossed before permission"@)
        } else if self.task.active is None {
            self.acted(c, now, estimate, road, fresh, fresh_road)
        } else {
            match local_world::known(c.tracks, self.task.active->0, 0) {
                None => self.bereft(c, now, estimate, fresh),
                Some(track) => Standing {
                    task: Task {
                        active_geometry: Some(track),
                        missing_since: None,
                        ..self.task
                    },
                    ..self
                }.acted(c, now, estimate, road, fresh, fresh_road),
            }
        }
    }
}

/// A mission as a mathematical value.
pub struct Mission {
    pub config: OnlineMissionConfig,
    pub standing: Standing,
    pub last_pose: Option<PoseEstimate>,
    pub last_road: Option<Road>,
}

impl Mission {
    pub open spec fn pose_at(self) -> Option<Timestamp> {
        match self.last_pose {
            None => None,
            Some(pose) => Some(pose.captured_at),
        }
    }

    pub open spec fn road_at(self) -> Option<Timestamp> {
        match self.last_road {
            None => None,
            Some(road) => Some(road.captured_at),
        }
    }

    /// Whether the phase agrees with the rest and everything began in time.
    pub open spec fn sound(self) -> bool {
        &&& self.standing.task.coherent()
        &&& self.standing.task.timely(
            self.standing.task.last_now,
            self.pose_at(),
            self.road_at(),
        )
        &&& self.standing.task.phase is Fault ==> self.standing.reason is Some
    }

    /// Whether one observation is inadmissible by itself.
    pub open spec fn inadmissible(
        self,
        now: Timestamp,
        pose: PoseEstimate,
        road: Road,
        world_frame: Seq<char>,
        body_frame: Seq<char>,
    ) -> bool {
        let last_now = self.standing.task.last_now;
        ||| last_now is Some && now.0 < (last_now->0).0
        ||| pose.frame_id@ != self.config.world_frame@
        ||| road.frame != self.config.body_frame@
        ||| world_frame != self.config.world_frame@
        ||| body_frame != self.config.body_frame@
        ||| !pose.pose.finite()
        ||| !pose.speed_mps.finite()
        ||| !pose.yaw_rate_radps.finite()
        ||| !pose.quality.finite()
        ||| !(self.config.min_pose_quality.le(pose.quality) && pose.quality.le(Binary64::of(ONE)))
        ||| !road.light_confidence.finite()
        ||| !(Binary64::of(ZERO).le(road.light_confidence) && road.light_confidence.le(
            Binary64::of(ONE),
        ))
        ||| pose.captured_at.0 > now.0
        ||| road.captured_at.0 > now.0
        ||| now.0 - pose.captured_at.0 >= self.config.max_pose_age_ms
        ||| now.0 - road.captured_at.0 >= self.config.max_road_age_ms
        ||| pose.captured_at.0 - road.captured_at.0 > self.config.max_observation_skew_ms
        ||| road.captured_at.0 - pose.captured_at.0 > self.config.max_observation_skew_ms
    }

    /// Whether a pose cannot follow the last one.
    pub open spec fn pose_broken(self, pose: PoseEstimate) -> bool {
        match self.last_pose {
            None => false,
            Some(old) => {
                ||| pose.captured_at.0 < old.captured_at.0
                ||| pose.captured_at == old.captured_at && !pose.same(&old)
                ||| pose.captured_at.0 - old.captured_at.0 > self.config.max_pose_gap_ms
            },
        }
    }

    /// Whether a view of the road cannot follow the last one.
    pub open spec fn road_broken(self, road: Road) -> bool {
        match self.last_road {
            None => false,
            Some(old) => {
                ||| road.captured_at.0 < old.captured_at.0
                ||| road.captured_at == old.captured_at && !road.same(old)
                ||| road.captured_at.0 - old.captured_at.0 > self.config.max_road_gap_ms
            },
        }
    }

    /// What is wrong with an input, the first of these that applies.
    pub open spec fn input_fault(
        self,
        now: Timestamp,
        pose: PoseEstimate,
        road: Road,
        world_frame: Seq<char>,
        body_frame: Seq<char>,
    ) -> Option<Seq<char>> {
        if self.inadmissible(now, pose, road, world_frame, body_frame) {
            Some("invalid, stale or mismatched online mission observation"@)
        } else if self.pose_broken(pose) {
            Some("pose timestamp/continuity invalid in online mission"@)
        } else if self.road_broken(road) {
            Some("road timestamp/continuity invalid in online mission"@)
        } else {
            None
        }
    }

    pub open spec fn fresh(self, pose: PoseEstimate) -> bool {
        self.last_pose is None || pose.captured_at.0 > self.last_pose->0.captured_at.0
    }

    pub open spec fn fresh_road(self, road: Road) -> bool {
        self.last_road is None || road.captured_at.0 > self.last_road->0.captured_at.0
    }

    /// The task with an input noted: the way searched, the heading at the
    /// start, and the stop region, which is kept once seen.
    pub open spec fn noted(self, c: Scene, now: Timestamp, pose: PoseEstimate) -> Task {
        let t = self.standing.task;
        let started = Task {
            last_now: Some(now),
            search_distance: if t.active is None && self.fresh(pose) && self.last_pose is Some {
                t.search_distance.plus(
                    c.distance(pose.pose.point(), self.last_pose->0.pose.point()),
                )
            } else {
                t.search_distance
            },
            initial_heading: match t.initial_heading {
                Some(heading) => Some(heading),
                None => Some(wrap(pose.pose.yaw_rad)),
            },
            ..t
        };
        Task {
            light: match t.light {
                None => c.choice(started, pose.pose, ElementKind::StopLine),
                Some(light) => match local_world::known(c.tracks, light.id, 0) {
                    Some(updated) => Some(updated),
                    None => Some(light),
                },
            },
            ..started
        }
    }

    /// Whether the mission has come to its end.
    pub open spec fn ended(self) -> bool {
        self.standing.task.phase is Completed || self.standing.task.phase is Fault
    }

    /// What a mission says once it has ended.
    pub open spec fn last_words(self) -> Draft {
        Draft::halt(
            if self.standing.task.phase is Fault {
                OnlineBehavior::Fault
            } else {
                OnlineBehavior::Completed
            },
            "terminal task state"@,
        )
    }

    /// The track that a tick retires, where it retires one.
    pub open spec fn retires(
        self,
        c: Scene,
        now: Timestamp,
        pose: PoseEstimate,
        road: Road,
        world_frame: Seq<char>,
        body_frame: Seq<char>,
    ) -> Option<TrackId> {
        if self.ended() || self.input_fault(now, pose, road, world_frame, body_frame) is Some {
            None
        } else {
            c.tick_retires(
                self.noted(c, now, pose),
                pose,
                road,
                self.fresh(pose),
                self.fresh_road(road),
            )
        }
    }

    /// One tick.
    pub open spec fn step(
        self,
        c: Scene,
        now: Timestamp,
        pose: PoseEstimate,
        road: Road,
        world_frame: Seq<char>,
        body_frame: Seq<char>,
    ) -> (Mission, Account) {
        if self.ended() {
            (self, self.standing.account(c, now, self.last_words()))
        } else {
            match self.input_fault(now, pose, road, world_frame, body_frame) {
                Some(reason) => {
                    let (standing, account) = self.standing.faulted(c, now, reason);
                    (Mission { standing, ..self }, account)
                },
                None => {
                    let (standing, account) = Standing {
                        task: self.noted(c, now, pose),
                        ..self.standing
                    }.ticked(c, now, pose, road, self.fresh(pose), self.fresh_road(road));
                    (
                        Mission {
                            standing,
                            last_pose: Some(pose),
                            last_road: Some(road),
                            ..self
                        },
                        account,
                    )
                },
            }
        }
    }
}

/// A mission that observes its course.
#[derive(Debug)]
pub struct OnlineMission {
    pub config: OnlineMissionConfig,
    pub task: Task,
    pub last_pose: Option<PoseEstimate>,
    pub last_road: Option<RoadObservation>,
    pub fault_reason: Option<String>,
}

impl View for OnlineMission {
    type V = Mission;

    open spec fn view(&self) -> Mission {
        Mission {
            config: self.config,
            standing: Standing { task: self.task, reason: scene::said(self.fault_reason) },
            last_pose: self.last_pose,
            last_road: match self.last_road {
                None => None,
                Some(road) => Some(road@),
            },
        }
    }
}

/// The result of a tick.
struct Outcome {
    task: Task,
    /// The reason of a fault that the tick has met.
    fault: Option<String>,
    report: OnlineMissionReport,
}

impl Outcome {
    /// The standing and the report, where a fault may already have a reason.
    pub closed spec fn says(self, first: Option<String>) -> (Standing, Account) {
        (
            Standing {
                task: self.task,
                reason: match first {
                    Some(reason) => Some(reason@),
                    None => scene::said(self.fault),
                },
            },
            self.report@,
        )
    }
}

impl<
    'a,
    F: Fn(Elementary) -> Binary64,
    S: Fn(Space) -> SpaceState,
    V: Fn(HalfPlane) -> Option<String>,
    E: Fn(HalfPlane, Footprint, Pose2) -> Stance,
> Policy<'a, F, S, V, E> {
    /// The boundary of travel.
    pub fn travel_boundary(&self, t: Task) -> (r: Option<HalfPlane>)
        requires
            self.total(),
        ensures
            forall|c: Scene| #[trigger] self.described(c) ==> r == c.boundary(t),
    {
        proof {
            reveal(Scene::boundary);
        }
        if t.phase == MissionPhase::ApproachCrosswalk || t.phase == MissionPhase::CrosswalkStop {
            if let Some(track) = t.active_geometry {
                return match self.region_boundary(track, false) {
                    Ok(edge) => Some(edge),
                    Err(_) => None,
                };
            }
        }
        if t.phase != MissionPhase::Finish && t.phase != MissionPhase::Completed {
            if let Some(track) = t.light {
                return match self.region_boundary(track, true) {
                    Ok(edge) => Some(edge),
                    Err(_) => None,
                };
            }
        }
        None
    }

    fn report(&self, t: Task, at: Timestamp, reason: String, proposal: Proposal) -> (r:
        OnlineMissionReport)
        requires
            self.total(),
        ensures
            r@ == (Standing { task: t, reason: Some(reason@) }).account_at(
                r@.travel_boundary,
                at,
                proposal@,
            ),
            forall|c: Scene| #[trigger]
                self.described(c) ==> r@ == (Standing { task: t, reason: Some(reason@) }).account(
                    c,
                    at,
                    proposal@,
                ),
    {
        OnlineMissionReport {
            mission: MissionReport {
                at,
                phase: t.phase,
                output: proposal.output,
                reason,
                crosswalk_stop_elapsed_ms: t.stop_elapsed_ms,
                green_elapsed_ms: t.green_elapsed_ms,
                waypoint_index: t.cone_index,
            },
            goal_heading_rad: proposal.heading,
            travel_boundary: self.travel_boundary(t),
            behavior: proposal.behavior,
            active_track_id: t.active,
            active_track: t.active_geometry,
            processed_cones: t.cone_index,
            cone_progress_rad: match t.orbit {
                Some(orbit) => orbit.progress_rad,
                None => Binary64::of(ZERO),
            },
            search_distance_m: t.search_distance,
            execution_space_rejected: false,
        }
    }

    /// A report of a standing without a new fault.
    fn tell(&self, t: Task, first: &Option<String>, at: Timestamp, proposal: Proposal) -> (r:
        Outcome)
        requires
            self.total(),
        ensures
            r.task == t,
            ({
                let s = Standing { task: t, reason: scene::said(*first) };
                r.says(*first) == (
                    s,
                    s.account_at(r.report@.travel_boundary, at, proposal@),
                )
            }),
            forall|c: Scene| #[trigger]
                self.described(c) ==> ({
                    let s = Standing { task: t, reason: scene::said(*first) };
                    r.says(*first) == (s, s.account(c, at, proposal@))
                }),
    {
        let reason: String = match first {
            Some(reason) => reason.clone(),
            None => proposal.reason.to_owned(),
        };
        Outcome { task: t, fault: None, report: self.report(t, at, reason, proposal) }
    }

    fn fault(&self, t: Task, first: &Option<String>, at: Timestamp, reason: String) -> (r: Outcome)
        requires
            self.total(),
        ensures
            r.task == (Task { phase: MissionPhase::Fault, ..t }),
            r.fault is Some,
            r.says(*first) == (Standing { task: t, reason: scene::said(*first) }).faulted_at(
                r.report@.travel_boundary,
                at,
                reason@,
            ),
            forall|c: Scene| #[trigger]
                self.described(c) ==> r.says(*first) == (Standing {
                    task: t,
                    reason: scene::said(*first),
                }).faulted(c, at, reason@),
    {
        let after: Task = Task { phase: MissionPhase::Fault, ..t };
        let latest: Timestamp = match t.last_now {
            Some(old) => if old.0 > at.0 {
                old
            } else {
                at
            },
            None => at,
        };
        let told: String = match first {
            Some(reason) => reason.clone(),
            None => reason.clone(),
        };
        let proposal: Proposal = Proposal::stop(OnlineBehavior::Fault, "fault latched");
        Outcome {
            task: after,
            fault: Some(reason),
            report: self.report(after, latest, told, proposal),
        }
    }

    fn settle(
        &self,
        t: Task,
        first: &Option<String>,
        now: Timestamp,
        estimate: &PoseEstimate,
        fresh: bool,
        proposal: Proposal,
    ) -> (r: Outcome)
        requires
            self.total(),
            t.coherent(),
            !(t.phase is Fault),
            online_mission::by_then(t.ordinary_stop_since, Some(estimate.captured_at)),
        ensures
            r.task.coherent(),
            r.task.phase is Fault ==> r.fault is Some,
            r.task.last_now == t.last_now,
            forall|a: Option<Timestamp>| #[trigger]
                t.timely(Some(now), Some(estimate.captured_at), a) ==> r.task.timely(
                    Some(now),
                    Some(estimate.captured_at),
                    a,
                ),
            forall|c: Scene| #[trigger]
                self.described(c) ==> r.says(*first) == (Standing {
                    task: t,
                    reason: scene::said(*first),
                }).settled(c, now, *estimate, fresh, proposal@),
    {
        let exempt: bool = t.phase == MissionPhase::Idle || t.phase == MissionPhase::CrosswalkStop
            || t.phase == MissionPhase::WaitGreen || t.phase == MissionPhase::Completed;
        if exempt || !self.stopped(estimate) {
            return self.tell(Task { ordinary_stop_since: None, ..t }, first, now, proposal);
        }
        if !fresh {
            return self.tell(t, first, now, proposal);
        }
        let since: Timestamp = first_of(t.ordinary_stop_since, estimate.captured_at);
        let timed: Task = Task { ordinary_stop_since: Some(since), ..t };
        if estimate.captured_at.0 - since.0 > 10_000 {
            return self.fault(
                timed,
                first,
                now,
                "ordinary stop exceeded 10 seconds".to_owned(),
            );
        }
        self.tell(timed, first, now, proposal)
    }

    /// One tick of the phase that the task is in.
    pub fn act<R: FnOnce(TrackId) -> Option<String>>(
        &self,
        t: Task,
        now: Timestamp,
        estimate: &PoseEstimate,
        road: &RoadObservation,
        fresh: bool,
        fresh_road: bool,
        retire: R,
    ) -> (r: (Task, Result<Proposal, String>))
        requires
            self.total(),
            self.retirable(
                retire,
                |c: Scene| c.act_retires(t, *estimate, road@, fresh, fresh_road),
            ),
            t.coherent(),
            t.timely(Some(now), Some(estimate.captured_at), Some(road.captured_at)),
            !(t.phase is Completed) && !(t.phase is Fault),
        ensures
            r.0.coherent(),
            !(r.0.phase is Fault),
            r.0.last_now == t.last_now,
            r.0.timely(Some(now), Some(estimate.captured_at), Some(road.captured_at)),
            forall|c: Scene| #[trigger]
                self.described(c) && scene::answers(retire, c) ==> (r.0, online_mission::plain(r.1)) == c.act(
                    t,
                    now,
                    *estimate,
                    road@,
                    fresh,
                    fresh_road,
                ),
    {
        match t.phase {
            MissionPhase::Idle => (t, Ok(Proposal::stop(OnlineBehavior::Idle, "not started"))),
            MissionPhase::ApproachCrosswalk | MissionPhase::CrosswalkStop => self.crosswalk_step(
                t,
                now,
                estimate,
                fresh,
                retire,
            ),
            MissionPhase::Cones => self.cone_step(t, now, estimate, fresh, retire),
            MissionPhase::ApproachLight | MissionPhase::WaitGreen => self.light_step(
                t,
                now,
                estimate,
                road,
                fresh,
                fresh_road,
                retire,
            ),
            _ => self.finish_step(t, now, estimate, road, retire),
        }
    }

    fn respond<R: FnOnce(TrackId) -> Option<String>>(
        &self,
        t: Task,
        first: &Option<String>,
        now: Timestamp,
        estimate: &PoseEstimate,
        road: &RoadObservation,
        fresh: bool,
        fresh_road: bool,
        retire: R,
    ) -> (r: Outcome)
        requires
            self.total(),
            self.retirable(
                retire,
                |c: Scene| c.act_retires(t, *estimate, road@, fresh, fresh_road),
            ),
            t.coherent(),
            t.timely(Some(now), Some(estimate.captured_at), Some(road.captured_at)),
            !(t.phase is Completed) && !(t.phase is Fault),
        ensures
            r.task.coherent(),
            r.task.phase is Fault ==> r.fault is Some,
            r.task.last_now == t.last_now,
            r.task.timely(Some(now), Some(estimate.captured_at), Some(road.captured_at)),
            forall|c: Scene| #[trigger]
                self.described(c) && scene::answers(retire, c) ==> r.says(*first) == (Standing {
                    task: t,
                    reason: scene::said(*first),
                }).acted(c, now, *estimate, road@, fresh, fresh_road),
    {
        let (after, result): (Task, Result<Proposal, String>) = self.act(
            t,
            now,
            estimate,
            road,
            fresh,
            fresh_road,
            retire,
        );
        match result {
            Ok(proposal) => self.settle(after, first, now, estimate, fresh, proposal),
            Err(reason) => self.fault(after, first, now, reason),
        }
    }

    fn miss(
        &self,
        t: Task,
        first: &Option<String>,
        now: Timestamp,
        estimate: &PoseEstimate,
        fresh: bool,
    ) -> (r: Outcome)
        requires
            self.total(),
            t.coherent(),
            !(t.phase is Fault),
            online_mission::by_then(t.missing_since, Some(now)),
            online_mission::by_then(t.ordinary_stop_since, Some(estimate.captured_at)),
        ensures
            r.task.coherent(),
            r.task.phase is Fault ==> r.fault is Some,
            r.task.last_now == t.last_now,
            forall|a: Option<Timestamp>| #[trigger]
                t.timely(Some(now), Some(estimate.captured_at), a) ==> r.task.timely(
                    Some(now),
                    Some(estimate.captured_at),
                    a,
                ),
            forall|c: Scene| #[trigger]
                self.described(c) ==> r.says(*first) == (Standing {
                    task: t,
                    reason: scene::said(*first),
                }).bereft(c, now, *estimate, fresh),
    {
        let since: Timestamp = first_of(t.missing_since, now);
        let after: Task = Task {
            stop_since: None,
            stop_elapsed_ms: 0,
            missing_since: Some(since),
            ..t
        }.reset_green();
        assert(forall|a: Option<Timestamp>| #[trigger]
            t.timely(Some(now), Some(estimate.captured_at), a) ==> after.timely(
                Some(now),
                Some(estimate.captured_at),
                a,
            ));
        if now.0 - since.0 >= self.limits.max_track_loss_ms {
            return self.fault(
                after,
                first,
                now,
                "current element lost beyond bounded reacquisition time".to_owned(),
            );
        }
        self.settle(
            after,
            first,
            now,
            estimate,
            fresh,
            Proposal::stop(
                OnlineBehavior::Search,
                "current tracked element unavailable; holding for reacquisition",
            ),
        )
    }

    fn tick<R: FnOnce(TrackId) -> Option<String>>(
        &self,
        t: Task,
        first: &Option<String>,
        now: Timestamp,
        estimate: &PoseEstimate,
        road: &RoadObservation,
        fresh: bool,
        fresh_road: bool,
        retire: R,
    ) -> (r: Outcome)
        requires
            self.total(),
            self.retirable(
                retire,
                |c: Scene| c.tick_retires(t, *estimate, road@, fresh, fresh_road),
            ),
            t.coherent(),
            t.timely(Some(now), Some(estimate.captured_at), Some(road.captured_at)),
            !(t.phase is Completed) && !(t.phase is Fault),
        ensures
            r.task.coherent(),
            r.task.phase is Fault ==> r.fault is Some,
            r.task.last_now == t.last_now,
            r.task.timely(Some(now), Some(estimate.captured_at), Some(road.captured_at)),
            forall|c: Scene| #[trigger]
                self.described(c) && scene::answers(retire, c) ==> r.says(*first) == (Standing {
                    task: t,
                    reason: scene::said(*first),
                }).ticked(c, now, *estimate, road@, fresh, fresh_road),
    {
        if let Some(edge) = self.travel_boundary(t) {
            if !self.stand(edge, estimate.pose).inside {
                return self.fault(
                    t,
                    first,
                    now,
                    "observed task boundary crossed before permission".to_owned(),
                );
            }
        }
        match t.active {
            None => self.respond(t, first, now, estimate, road, fresh, fresh_road, retire),
            Some(id) => match local_world::find(self.tracks, id) {
                None => self.miss(t, first, now, estimate, fresh),
                Some(track) => self.respond(
                    Task { active_geometry: Some(track), missing_since: None, ..t },
                    first,
                    now,
                    estimate,
                    road,
                    fresh,
                    fresh_road,
                    retire,
                ),
            },
        }
    }
}

impl OnlineMission {
    pub fn new(config: OnlineMissionConfig) -> (r: Result<Self, ValidationError>)
        ensures
            sensors::refusal(r) == config.fault(),
            r matches Ok(mission) ==> {
                &&& mission@ == (Mission {
                    config,
                    standing: Standing { task: Task::begun(), reason: None },
                    last_pose: None,
                    last_road: None,
                })
                &&& mission@.sound()
            },
    {
        config.validate()?;
        Ok(
            OnlineMission {
                config,
                task: Task::new(),
                last_pose: None,
                last_road: None,
                fault_reason: None,
            },
        )
    }

    pub fn config(&self) -> (r: &OnlineMissionConfig)
        ensures
            *r == self.config,
    {
        &self.config
    }

    pub fn phase(&self) -> (r: MissionPhase)
        ensures
            r == self.task.phase,
    {
        self.task.phase
    }

    /// The last accepted observation of the stop region. It may be stale, and
    /// to keep it is no permission to cross its edge.
    pub fn last_observed_light_region(&self) -> (r: Option<ElementTrack>)
        ensures
            r == self.task.light,
    {
        self.task.light
    }

    pub fn start(&mut self) -> (r: Result<(), ValidationError>)
        requires
            old(self)@.sound(),
        ensures
            final(self)@.sound(),
            match r {
                Ok(()) => {
                    &&& old(self).task.phase is Idle
                    &&& final(self)@ == (Mission {
                        standing: Standing {
                            task: Task {
                                phase: MissionPhase::ApproachCrosswalk,
                                ..old(self).task
                            },
                            ..old(self)@.standing
                        },
                        ..old(self)@
                    })
                },
                Err(error) => {
                    &&& !(old(self).task.phase is Idle)
                    &&& error.0@ == "online mission can only start once"@
                    &&& final(self)@ == old(self)@
                },
            },
    {
        if self.task.phase != MissionPhase::Idle {
            return Err(ValidationError::new("online mission can only start once"));
        }
        self.task = Task { phase: MissionPhase::ApproachCrosswalk, ..self.task };
        Ok(())
    }

    fn inadmissible(
        &self,
        now: Timestamp,
        pose: &PoseEstimate,
        road: &RoadObservation,
        world_frame: &FrameId,
        body_frame: &FrameId,
    ) -> (r: bool)
        ensures
            r == self@.inadmissible(now, *pose, road@, world_frame@, body_frame@),
    {
        if let Some(old) = self.task.last_now {
            if now.0 < old.0 {
                return true;
            }
        }
        if !pose.frame_id.same_as(&self.config.world_frame) || !road.frame_id.same_as(
            &self.config.body_frame,
        ) || !world_frame.same_as(&self.config.world_frame) || !body_frame.same_as(
            &self.config.body_frame,
        ) {
            return true;
        }
        if !pose.pose.valid() || !pose.speed_mps.is_finite() || !pose.yaw_rate_radps.is_finite()
            || !pose.quality.is_finite() || !(self.config.min_pose_quality.at_most(pose.quality)
            && pose.quality.at_most(Binary64::of(ONE))) || !road.light_confidence.is_finite()
            || !(Binary64::of(ZERO).at_most(road.light_confidence)
            && road.light_confidence.at_most(Binary64::of(ONE))) {
            return true;
        }
        let pose_at: u64 = pose.captured_at.0;
        let road_at: u64 = road.captured_at.0;
        if pose_at > now.0 || road_at > now.0 || now.0 - pose_at >= self.config.max_pose_age_ms
            || now.0 - road_at >= self.config.max_road_age_ms {
            return true;
        }
        let skew: u64 = if pose_at > road_at {
            pose_at - road_at
        } else {
            road_at - pose_at
        };
        skew > self.config.max_observation_skew_ms
    }

    fn validate_input(
        &self,
        now: Timestamp,
        pose: &PoseEstimate,
        road: &RoadObservation,
        world_frame: &FrameId,
        body_frame: &FrameId,
    ) -> (r: Result<(), String>)
        ensures
            (match r {
                Ok(()) => None,
                Err(message) => Some(message@),
            }) == self@.input_fault(now, *pose, road@, world_frame@, body_frame@),
    {
        if self.inadmissible(now, pose, road, world_frame, body_frame) {
            return Err("invalid, stale or mismatched online mission observation".to_owned());
        }
        if let Some(old) = &self.last_pose {
            if pose.captured_at.0 < old.captured_at.0 || (pose.captured_at == old.captured_at
                && !pose.equals(old)) || pose.captured_at.0 - old.captured_at.0
                > self.config.max_pose_gap_ms {
                return Err("pose timestamp/continuity invalid in online mission".to_owned());
            }
        }
        if let Some(old) = &self.last_road {
            if road.captured_at.0 < old.captured_at.0 || (road.captured_at == old.captured_at
                && !road.equals(old)) || road.captured_at.0 - old.captured_at.0
                > self.config.max_road_gap_ms {
                return Err("road timestamp/continuity invalid in online mission".to_owned());
            }
        }
        Ok(())
    }

    fn note<
        F: Fn(Elementary) -> Binary64,
        S: Fn(Space) -> SpaceState,
        V: Fn(HalfPlane) -> Option<String>,
        E: Fn(HalfPlane, Footprint, Pose2) -> Stance,
    >(&self, now: Timestamp, pose: &PoseEstimate, policy: &Policy<F, S, V, E>) -> (r: Task)
        requires
            policy.total(),
        ensures
            r == (Task {
                last_now: Some(now),
                search_distance: r.search_distance,
                initial_heading: r.initial_heading,
                light: r.light,
                ..self.task
            }),
            forall|c: Scene| #[trigger] policy.described(c) ==> r == self@.noted(c, now, *pose),
    {
        let t: Task = self.task;
        let mut search_distance: Binary64 = t.search_distance;
        if t.active.is_none() {
            if let Some(old) = &self.last_pose {
                if pose.captured_at.0 > old.captured_at.0 {
                    let moved: Binary64 = policy.distance(pose.pose.point(), old.pose.point());
                    search_distance = search_distance.plus(moved);
                }
            }
        }
        let initial_heading: Option<Binary64> = match t.initial_heading {
            Some(heading) => Some(heading),
            None => Some(wrap(pose.pose.yaw_rad)),
        };
        let started: Task = Task { last_now: Some(now), search_distance, initial_heading, ..t };
        let light: Option<ElementTrack> = match t.light {
            None => policy.select_track(started, pose.pose, ElementKind::StopLine),
            Some(light) => match local_world::find(policy.tracks, light.id) {
                Some(updated) => Some(updated),
                None => Some(light),
            },
        };
        Task { light, ..started }
    }

    /// One tick. A track is retired, at most once, in the tick in which its task
    /// is done, and no other track is. A mission that has ended only repeats its
    /// end, and an observation that is refused is a fault: neither retires one.
    pub fn update<
        F: Fn(Elementary) -> Binary64,
        S: Fn(Space) -> SpaceState,
        V: Fn(HalfPlane) -> Option<String>,
        E: Fn(HalfPlane, Footprint, Pose2) -> Stance,
        R: FnOnce(TrackId) -> Option<String>,
    >(
        &mut self,
        now: Timestamp,
        pose: &PoseEstimate,
        road: &RoadObservation,
        around: &Surroundings<F, S, V, E>,
        retire: R,
    ) -> (r: OnlineMissionReport)
        requires
            old(self)@.sound(),
            around.total(),
            !old(self)@.ended() && old(self)@.input_fault(
                now,
                *pose,
                road@,
                around.world_frame@,
                around.body_frame@,
            ) is None ==> forall|id: TrackId|
                (forall|c: Scene| #[trigger]
                    around.described(c) && c.limits == old(self).config ==> old(self)@.retires(
                        c,
                        now,
                        *pose,
                        road@,
                        around.world_frame@,
                        around.body_frame@,
                    ) == Some(id)) ==> #[trigger] call_requires(retire, (id,)),
        ensures
            final(self)@.sound(),
            final(self).config == old(self).config,
            old(self)@.ended() ==> {
                &&& final(self)@ == old(self)@
                &&& r@ == old(self)@.standing.account_at(
                    r@.travel_boundary,
                    now,
                    old(self)@.last_words(),
                )
            },
            !old(self)@.ended() ==> (old(self)@.input_fault(
                now,
                *pose,
                road@,
                around.world_frame@,
                around.body_frame@,
            ) matches Some(reason) ==> (final(self)@.standing, r@)
                == old(self)@.standing.faulted_at(r@.travel_boundary, now, reason) && final(self)@
                == (Mission { standing: final(self)@.standing, ..old(self)@ })),
            forall|c: Scene| #[trigger]
                around.described(c) && c.limits == old(self).config && scene::answers(retire, c) ==> (
                final(self)@,
                r@,
            )
                    == old(self)@.step(
                    c,
                    now,
                    *pose,
                    road@,
                    around.world_frame@,
                    around.body_frame@,
                ),
    {
        let policy: Policy<F, S, V, E> = Policy {
            limits: &self.config,
            host: around.host,
            space: around.space,
            flaw: around.flaw,
            stance: around.stance,
            tracks: around.tracks,
        };
        assert(forall|c: Scene| #[trigger]
            around.described(c) && c.limits == old(self).config ==> policy.described(c));
        if self.task.phase == MissionPhase::Completed || self.task.phase == MissionPhase::Fault {
            let behavior: OnlineBehavior = if self.task.phase == MissionPhase::Fault {
                OnlineBehavior::Fault
            } else {
                OnlineBehavior::Completed
            };
            let proposal: Proposal = Proposal::stop(behavior, "terminal task state");
            return policy.tell(self.task, &self.fault_reason, now, proposal).report;
        }
        let checked: Result<(), String> = self.validate_input(
            now,
            pose,
            road,
            around.world_frame,
            around.body_frame,
        );
        let (outcome, accepted): (Outcome, bool) = match checked {
            Err(reason) => (policy.fault(self.task, &self.fault_reason, now, reason), false),
            Ok(()) => {
                let fresh: bool = match &self.last_pose {
                    None => true,
                    Some(old) => pose.captured_at.0 > old.captured_at.0,
                };
                let fresh_road: bool = match &self.last_road {
                    None => true,
                    Some(old) => road.captured_at.0 > old.captured_at.0,
                };
                let t: Task = self.note(now, pose, &policy);
                (policy.tick(t, &self.fault_reason, now, pose, road, fresh, fresh_road, retire), true)
            },
        };
        let Outcome { task, fault, report } = outcome;
        self.task = task;
        if self.fault_reason.is_none() {
            self.fault_reason = fault;
        }
        if accepted {
            self.last_pose = Some(pose.clone());
            self.last_road = Some(road.clone());
        }
        report
    }
}

} // verus!
