//! What holds of every mission, whatever it observes.
use super::scene::Scene;
use super::tick::{Account, Mission, Standing};
use super::{Draft, OnlineBehavior, Orbit, Task};
use crate::autonomy::{LightState, Point2, Pose2, PoseEstimate, Road};
use crate::binary64::values::{PI, SIX, TWELVE, ZERO};
use crate::binary64::Binary64;
use crate::elementary::Elementary;
use crate::local_world::{ElementKind, ElementTrack, TrackId};
use crate::local_world;
use crate::mission::{MissionOutput, MissionPhase};
use crate::online_mission;
use crate::sensors::Timestamp;
use vstd::prelude::*;

verus! {

/// What a mission is given in one tick.
pub struct Input {
    pub now: Timestamp,
    pub pose: PoseEstimate,
    pub road: Road,
    pub world_frame: Seq<char>,
    pub body_frame: Seq<char>,
}

impl Mission {
    pub open spec fn on(self, c: Scene, i: Input) -> (Mission, Account) {
        self.step(c, i.now, i.pose, i.road, i.world_frame, i.body_frame)
    }

    /// The track that a tick retires, where it retires one.
    pub open spec fn retirement(self, c: Scene, i: Input) -> Option<TrackId> {
        self.retires(c, i.now, i.pose, i.road, i.world_frame, i.body_frame)
    }

    pub open spec fn task(self) -> Task {
        self.standing.task
    }

    /// The task on which a phase acts, in a tick that reaches that far.
    pub open spec fn acting(self, c: Scene, i: Input) -> Task {
        let t = self.noted(c, i.now, i.pose);
        if t.active is None {
            t
        } else {
            Task {
                active_geometry: local_world::known(c.tracks, t.active->0, 0),
                missing_since: None,
                ..t
            }
        }
    }
}

/// Which phase may follow which.
pub open spec fn may_follow(p: MissionPhase, q: MissionPhase) -> bool {
    ||| q == p
    ||| q is Fault && !(p is Completed)
    ||| (p is ApproachCrosswalk || p is CrosswalkStop) && (q is ApproachCrosswalk
        || q is CrosswalkStop || q is Cones)
    ||| p is Cones && q is ApproachLight
    ||| p is ApproachLight && (q is WaitGreen || q is Finish)
    ||| p is WaitGreen && q is Finish
    ||| p is Finish && q is Completed
}

/// Whether known free space covers a point: the way to it, or the body there.
pub open spec fn covered(c: Scene, from: Point2, point: Point2) -> bool {
    ||| c.free_segment(from, point)
    ||| c.free_segment(point, point)
    ||| exists|yaw_rad: Binary64| #[trigger]
        c.free_body(Pose2 { x_m: point.x_m, y_m: point.y_m, yaw_rad })
}

/// Whether an output is a stop, or a target in known free space at an allowed
/// speed.
#[verifier::opaque]
pub open spec fn cautious(c: Scene, pose: Pose2, output: MissionOutput) -> bool {
    match output {
        MissionOutput::Stop => true,
        MissionOutput::Target { point, max_speed_mps, .. } => covered(c, pose.point(), point) && (
        max_speed_mps == c.limits.approach_speed_mps || max_speed_mps == c.limits.cruise_speed_mps),
    }
}

/// Whether the half-turn round one of the cones has been made.
pub open spec fn rounded(c: Scene, index: usize, pose: Pose2) -> bool {
    exists|t: Task, track: ElementTrack, radius: Binary64, o: Orbit|
        t.cone_index == index && #[trigger] c.passed(pose, c.bend(t, pose, track, radius), o)
}

proof fn lemma_reachable(c: Scene, from: Point2, heading: Binary64, k: nat)
    ensures
        c.reachable(from, heading, k) matches Some(point) ==> c.free_segment(from, point),
    decreases 4 - k,
{
    if k < 4 {
        lemma_reachable(c, from, heading, k + 1);
    }
}

proof fn lemma_stop_is_cautious(c: Scene, pose: Pose2)
    ensures
        cautious(c, pose, MissionOutput::Stop),
{
    reveal(cautious);
}

proof fn lemma_local_target(
    c: Scene,
    pose: Pose2,
    goal: Point2,
    heading: Option<Binary64>,
    continuation: Option<(Point2, Binary64)>,
    approach: bool,
    behavior: OnlineBehavior,
    reason: Seq<char>,
)
    ensures
        cautious(
            c,
            pose,
            c.local_target(pose, goal, heading, continuation, approach, behavior, reason).output,
        ),
{
    reveal(Scene::local_target);
    reveal(cautious);
    let yaw = (c.math)(
        Elementary::Bearing { y: goal.y_m.minus(pose.y_m), x: goal.x_m.minus(pose.x_m) },
    );
    lemma_reachable(c, pose.point(), yaw, 0);
    if heading is Some && c.free_body(
        Pose2 { x_m: goal.x_m, y_m: goal.y_m, yaw_rad: heading->0 },
    ) {
        assert(covered(c, pose.point(), goal));
    }
}

proof fn lemma_local_targets(c: Scene, pose: Pose2)
    ensures
        forall|
            goal: Point2,
            heading: Option<Binary64>,
            on: Option<(Point2, Binary64)>,
            approach: bool,
            behavior: OnlineBehavior,
            reason: Seq<char>,
        |
            cautious(
                c,
                pose,
                (#[trigger] c.local_target(
                    pose,
                    goal,
                    heading,
                    on,
                    approach,
                    behavior,
                    reason,
                )).output,
            ),
{
    assert forall|
        goal: Point2,
        heading: Option<Binary64>,
        on: Option<(Point2, Binary64)>,
        approach: bool,
        behavior: OnlineBehavior,
        reason: Seq<char>,
    |
        cautious(
            c,
            pose,
            (#[trigger] c.local_target(
                pose,
                goal,
                heading,
                on,
                approach,
                behavior,
                reason,
            )).output,
        ) by {
        lemma_local_target(c, pose, goal, heading, on, approach, behavior, reason);
    }
}

proof fn lemma_searched(c: Scene, t: Task, now: Timestamp, pose: Pose2)
    ensures
        ({
            let (u, r) = c.searched(t, now, pose);
            &&& u == (Task { search_since: u.search_since, ..t })
            &&& r matches Ok(draft) ==> cautious(c, pose, draft.output)
        }),
{
    let u = c.searched(t, now, pose).0;
    reveal(Scene::exploration);
    reveal(cautious);
    let heading = u.outlook();
    let half_turn = Binary64::of(PI);
    lemma_reachable(c, pose.point(), heading.plus(half_turn.over(Binary64::of(SIX))), 0);
    lemma_reachable(c, pose.point(), heading.plus(half_turn.over(Binary64::of(TWELVE))), 0);
    lemma_reachable(c, pose.point(), heading.plus(Binary64::of(ZERO)), 0);
}

/// What a tick with the crosswalk may do.
proof fn lemma_crosswalk(c: Scene, t: Task, now: Timestamp, e: PoseEstimate, fresh: bool)
    requires
        t.phase is ApproachCrosswalk || t.phase is CrosswalkStop,
    ensures
        ({
            let (u, r) = c.crosswalk_tick(t, now, e, fresh);
            &&& u.phase is ApproachCrosswalk || u.phase is CrosswalkStop || u.phase is Cones
            &&& u.phase is Cones ==> {
                &&& u.stop_elapsed_ms >= c.limits.crosswalk_hold_ms
                &&& c.stopped(e)
                &&& r is Ok && r->Ok_0.output is Stop
            }
            &&& t.coherent() && u.phase is CrosswalkStop && r is Ok ==> r->Ok_0.output is Stop
            &&& !fresh ==> u.stop_elapsed_ms == t.stop_elapsed_ms || u.stop_elapsed_ms == 0
            &&& u.green_elapsed_ms == t.green_elapsed_ms
            &&& u.green_frames == t.green_frames
            &&& u.cone_index == t.cone_index
            &&& t.active is Some ==> u.active == t.active || u.phase is Cones
            &&& r is Ok ==> cautious(c, e.pose, r->Ok_0.output)
        }),
{
    reveal(Scene::crosswalk_tick);
    lemma_stop_is_cautious(c, e.pose);
    lemma_local_targets(c, e.pose);
    let (after, found) = c.acquired(t, e.pose, ElementKind::Crosswalk);
    lemma_searched(c, after, now, e.pose);
}

/// What the half-turn may do.
#[verifier::spinoff_prover]
#[verifier::rlimit(60)]
proof fn lemma_committed(
    c: Scene,
    t: Task,
    now: Timestamp,
    e: PoseEstimate,
    fresh: bool,
    track: ElementTrack,
    radius: Binary64,
    o: Orbit,
)
    requires
        t.phase is Cones,
        t.cone_index < 2,
    ensures
        ({
            let (u, r) = c.committed(
                t,
                now,
                e,
                fresh,
                c.bend(t, e.pose, track, radius),
                track.id,
                o,
            );
            &&& u.cone_index == t.cone_index ==> u.phase is Cones && u.active == t.active
            &&& u.cone_index != t.cone_index ==> {
                &&& u.cone_index == t.cone_index + 1
                &&& u.phase is ApproachLight || u.phase is Cones
                &&& u.phase is ApproachLight <==> u.cone_index == 2
                &&& rounded(c, t.cone_index, e.pose)
            }
            &&& u.stop_elapsed_ms == t.stop_elapsed_ms
            &&& u.green_elapsed_ms == t.green_elapsed_ms
            &&& u.green_frames == t.green_frames
            &&& r is Ok ==> cautious(c, e.pose, r->Ok_0.output)
        }),
{
    lemma_stop_is_cautious(c, e.pose);
    lemma_local_targets(c, e.pose);
    let b = c.bend(t, e.pose, track, radius);
    let entered = if o.entered {
        o
    } else {
        Orbit { entered: true, last_position: e.pose.point(), ..o }
    };
    let after = if fresh {
        c.progressed(e.pose, b, entered)
    } else {
        entered
    };
    let index = (t.cone_index + 1) as usize;
    let moved = Task { cone_index: index, ..c.remembered(t, b) }.moved(
        if index == 2 {
            MissionPhase::ApproachLight
        } else {
            MissionPhase::Cones
        },
    );
    lemma_searched(c, moved, now, e.pose);
    if c.passed(e.pose, b, after) {
        assert(rounded(c, t.cone_index, e.pose));
    }
    let (turned, draft) = c.entering(e, b, o, t.orbit is None);
    assert(cautious(c, e.pose, draft.output));
    assert(cautious(c, e.pose, c.following(e.pose, b, after).output));
}

/// What a tick with the cones may do.
#[verifier::spinoff_prover]
#[verifier::rlimit(60)]
proof fn lemma_cones(c: Scene, t: Task, now: Timestamp, e: PoseEstimate, fresh: bool)
    requires
        t.phase is Cones,
        t.cone_index < 2,
    ensures
        ({
            let (u, r) = c.cone_tick(t, now, e, fresh);
            &&& u.cone_index == t.cone_index ==> u.phase is Cones
            &&& u.cone_index != t.cone_index ==> {
                &&& u.cone_index == t.cone_index + 1
                &&& u.phase is ApproachLight || u.phase is Cones
                &&& u.phase is ApproachLight <==> u.cone_index == 2
                &&& rounded(c, t.cone_index, e.pose)
            }
            &&& u.stop_elapsed_ms == t.stop_elapsed_ms
            &&& u.green_elapsed_ms == t.green_elapsed_ms
            &&& u.green_frames == t.green_frames
            &&& t.active is Some ==> u.active == t.active || u.cone_index != t.cone_index
            &&& r is Ok ==> cautious(c, e.pose, r->Ok_0.output)
        }),
{
    reveal(Scene::cone_tick);
    lemma_stop_is_cautious(c, e.pose);
    lemma_local_targets(c, e.pose);
    let (after, found) = c.acquired(t, e.pose, ElementKind::Cone);
    lemma_searched(c, after, now, e.pose);
    if found is Some {
        let track = found->0;
        let radius = track.geometry->radius_m;
        let b = c.bend(after, e.pose, track, radius);
        let o = c.orbit_of(after, b, e.pose);
        let fitting = c.fitting_radius(b, o.radius_m.max(b.minimum_radius), 0);
        lemma_committed(c, after, now, e, fresh, track, radius, o);
        lemma_committed(
            c,
            after,
            now,
            e,
            fresh,
            track,
            radius,
            Orbit { radius_m: fitting->0, ..o },
        );
        assert(cautious(c, e.pose, c.unfit(e.pose, b, o).output));
    }
}

/// What a tick with the light may do.
#[verifier::spinoff_prover]
#[verifier::rlimit(60)]
proof fn lemma_light(
    c: Scene,
    t: Task,
    now: Timestamp,
    e: PoseEstimate,
    road: Road,
    fresh: bool,
    fresh_road: bool,
)
    requires
        t.phase is ApproachLight || t.phase is WaitGreen,
    ensures
        ({
            let (u, r) = c.light_tick(t, now, e, road, fresh, fresh_road);
            &&& u.phase is ApproachLight || u.phase is WaitGreen || u.phase is Finish
            &&& t.phase is WaitGreen ==> !(u.phase is ApproachLight)
            &&& u.phase is Finish ==> {
                &&& u.green_elapsed_ms >= c.limits.min_green_ms
                &&& u.green_frames >= c.limits.min_green_frames
                &&& road.light is Green
                &&& c.stopped(e)
                &&& u.light is Some
                &&& c.inside_region(e.pose, u.light->0)
            }
            &&& t.coherent() && u.phase is WaitGreen && r is Ok ==> r->Ok_0.output is Stop
            &&& u.stop_elapsed_ms == t.stop_elapsed_ms
            &&& !fresh_road ==> (u.green_elapsed_ms == t.green_elapsed_ms && u.green_frames
                == t.green_frames) || (u.green_elapsed_ms == 0 && u.green_frames == 0)
            &&& u.cone_index == t.cone_index
            &&& t.active is Some ==> u.active == t.active || u.phase is Finish
            &&& r is Ok ==> cautious(c, e.pose, r->Ok_0.output)
            &&& t.active is None && c.choice(t, e.pose, ElementKind::StopLine) is None && (
            t.observed_signal_without_region || (road.light != LightState::Unknown && c.confident(
                road,
            ))) ==> u.phase == t.phase && u.observed_signal_without_region && r is Ok
                && r->Ok_0.output is Stop
        }),
{
    reveal(Scene::light_tick);
    lemma_stop_is_cautious(c, e.pose);
    lemma_local_targets(c, e.pose);
    let (after, found) = c.acquired(t, e.pose, ElementKind::StopLine);
    let noted = Task {
        observed_signal_without_region: after.observed_signal_without_region || (road.light
            != LightState::Unknown && c.confident(road)),
        ..after
    };
    lemma_searched(c, noted, now, e.pose);
    if found is Some {
        let seen = Task { observed_signal_without_region: false, light: found, ..after };
        let counted = c.counted(c.waiting(seen, e.captured_at), road, fresh_road);
        lemma_searched(c, counted.moved(MissionPhase::Finish), now, e.pose);
    }
}

/// What a tick with the finish may do.
#[verifier::spinoff_prover]
#[verifier::rlimit(60)]
proof fn lemma_finish(c: Scene, t: Task, now: Timestamp, e: PoseEstimate, road: Road)
    requires
        t.phase is Finish,
    ensures
        ({
            let (u, r) = c.finish_tick(t, now, e, road);
            &&& u.phase is Finish || u.phase is Completed
            &&& u.phase is Completed ==> {
                &&& u.light_cleared
                &&& c.stopped(e)
                &&& u.active_geometry is Some
                &&& c.inside_region(e.pose, u.active_geometry->0)
                &&& r is Ok && r->Ok_0.output is Stop
            }
            &&& !t.light_cleared && r is Ok && r->Ok_0.output is Target ==> c.green(road)
                && u.light_missing_since is None
            &&& u.stop_elapsed_ms == t.stop_elapsed_ms
            &&& u.green_elapsed_ms == t.green_elapsed_ms
            &&& u.green_frames == t.green_frames
            &&& u.cone_index == t.cone_index
            &&& t.active is Some ==> u.active == t.active
            &&& r is Ok ==> cautious(c, e.pose, r->Ok_0.output)
        }),
{
    reveal(Scene::finish_tick);
    lemma_stop_is_cautious(c, e.pose);
    lemma_local_targets(c, e.pose);
    let current = if t.light_cleared {
        t
    } else {
        Task {
            light: local_world::known(c.tracks, t.light->0.id, 0),
            light_missing_since: None,
            ..t
        }
    };
    let light = current.light->0;
    let edge = c.edge(light, true)->Ok_0;
    let passed = Task {
        light_cleared: current.light_cleared || c.clears(e.pose, light, edge),
        ..current
    };
    let (after, found) = c.acquired(passed, e.pose, ElementKind::FinishMarker);
    lemma_searched(c, after, now, e.pose);
}

/// What the action of a phase may do.
pub open spec fn proper(
    c: Scene,
    t: Task,
    u: Task,
    r: Result<Draft, Seq<char>>,
    e: PoseEstimate,
    road: Road,
    fresh: bool,
    fresh_road: bool,
) -> bool {
    &&& may_follow(t.phase, u.phase)
    &&& !(u.phase is Fault)
    &&& (t.phase is ApproachCrosswalk || t.phase is CrosswalkStop) && u.phase is Cones ==> {
        &&& u.stop_elapsed_ms >= c.limits.crosswalk_hold_ms
        &&& c.stopped(e)
        &&& r is Ok && r->Ok_0.output is Stop
    }
    &&& u.phase is Completed || u.phase is Idle ==> r is Ok && r->Ok_0.output is Stop
    &&& t.coherent() && (u.phase is CrosswalkStop || u.phase is WaitGreen) && r is Ok
        ==> r->Ok_0.output is Stop
    &&& !fresh ==> u.stop_elapsed_ms == t.stop_elapsed_ms || u.stop_elapsed_ms == 0
    &&& !fresh_road ==> (u.green_elapsed_ms == t.green_elapsed_ms && u.green_frames
        == t.green_frames) || (u.green_elapsed_ms == 0 && u.green_frames == 0)
    &&& u.cone_index != t.cone_index ==> {
        &&& t.phase is Cones
        &&& u.cone_index == t.cone_index + 1
        &&& u.phase is ApproachLight <==> u.cone_index == 2
        &&& rounded(c, t.cone_index, e.pose)
    }
    &&& t.phase is Cones && u.phase is ApproachLight ==> u.cone_index == 2
    &&& (t.phase is ApproachLight || t.phase is WaitGreen) && u.phase is Finish ==> {
        &&& u.green_elapsed_ms >= c.limits.min_green_ms
        &&& u.green_frames >= c.limits.min_green_frames
        &&& road.light is Green
        &&& c.stopped(e)
        &&& u.light is Some
        &&& c.inside_region(e.pose, u.light->0)
    }
    &&& u.phase is Completed ==> {
        &&& u.light_cleared
        &&& c.stopped(e)
        &&& u.active_geometry is Some
        &&& c.inside_region(e.pose, u.active_geometry->0)
    }
    &&& t.phase is Finish && !t.light_cleared && r is Ok && r->Ok_0.output is Target ==> c.green(
        road,
    ) && u.light_missing_since is None
    &&& t.active is Some ==> u.active == t.active || u.phase != t.phase || u.cone_index
        != t.cone_index
    &&& r is Ok ==> cautious(c, e.pose, r->Ok_0.output)
}

proof fn lemma_act(
    c: Scene,
    t: Task,
    now: Timestamp,
    e: PoseEstimate,
    road: Road,
    fresh: bool,
    fresh_road: bool,
)
    requires
        t.phase is Cones ==> t.cone_index < 2,
        !(t.phase is Completed) && !(t.phase is Fault),
    ensures
        ({
            let (u, r) = c.act(t, now, e, road, fresh, fresh_road);
            proper(c, t, u, r, e, road, fresh, fresh_road)
        }),
{
    lemma_stop_is_cautious(c, e.pose);
    match t.phase {
        MissionPhase::Idle => {},
        MissionPhase::ApproachCrosswalk | MissionPhase::CrosswalkStop => {
            lemma_crosswalk(c, t, now, e, fresh);
        },
        MissionPhase::Cones => {
            lemma_cones(c, t, now, e, fresh);
        },
        MissionPhase::ApproachLight | MissionPhase::WaitGreen => {
            lemma_light(c, t, now, e, road, fresh, fresh_road);
        },
        _ => {
            lemma_finish(c, t, now, e, road);
        },
    }
}

/// What a tick comes to, in terms of the action of its phase.
pub open spec fn comes_to(m: Mission, c: Scene, i: Input, after: Mission, a: Account) -> bool {
    let t = m.acting(c, i);
    let (u, r) = c.act(
        t,
        i.now,
        i.pose,
        i.road,
        m.fresh(i.pose),
        m.fresh_road(i.road),
    );
    let v = after.task();
    let fault = MissionPhase::Fault;
    // The input is refused, or a boundary has been crossed.
    ||| {
        &&& v == (Task { phase: fault, ..m.task() }) || v == (Task {
            phase: fault,
            ..m.noted(c, i.now, i.pose)
        })
        &&& a.mission.output is Stop
        &&& after.standing.reason == Some(a.mission.reason)
    }
    // The current element is not seen.
    ||| {
        &&& m.task().active is Some
        &&& v.phase == m.task().phase || v.phase is Fault
        &&& v.stop_elapsed_ms == 0 && v.green_elapsed_ms == 0 && v.green_frames == 0
        &&& v.cone_index == m.task().cone_index
        &&& v.active == m.task().active
        &&& a.mission.output is Stop
        &&& v.phase is Fault ==> after.standing.reason == Some(a.mission.reason)
    }
    // The phase has acted, and the action or the stop it asks for has failed.
    ||| {
        &&& v == (Task { phase: fault, ordinary_stop_since: v.ordinary_stop_since, ..u })
        &&& a.mission.output is Stop
        &&& after.standing.reason == Some(a.mission.reason)
        &&& !(m.task().active is Some) || t.active_geometry is Some
    }
    // The phase has acted.
    ||| {
        &&& v == (Task { ordinary_stop_since: v.ordinary_stop_since, ..u })
        &&& r is Ok
        &&& a.mission.output == r->Ok_0.output
        &&& after.standing.reason == m.standing.reason
        &&& !(m.task().active is Some) || t.active_geometry is Some
    }
}

#[verifier::spinoff_prover]
#[verifier::rlimit(60)]
proof fn lemma_tick(m: Mission, c: Scene, i: Input)
    requires
        !(m.task().phase is Completed) && !(m.task().phase is Fault),
    ensures
        ({
            let (after, a) = m.on(c, i);
            &&& comes_to(m, c, i, after, a)
            &&& m.standing.reason is Some ==> after.standing.reason == m.standing.reason
                && a.mission.reason == m.standing.reason->0
        }),
{
    let noted = m.noted(c, i.now, i.pose);
    let fault = m.input_fault(i.now, i.pose, i.road, i.world_frame, i.body_frame);
    let edge = c.boundary(noted);
    if fault is Some {
    } else if edge is Some && !(c.stance)(edge->0, c.limits.footprint, i.pose.pose).inside {
    } else if noted.active is Some && local_world::known(c.tracks, noted.active->0, 0) is None {
    } else {
        let t = m.acting(c, i);
        let (u, r) = c.act(t, i.now, i.pose, i.road, m.fresh(i.pose), m.fresh_road(i.road));
        let s = Standing { task: t, ..m.standing };
        assert(m.on(c, i).1 == s.acted(
            c,
            i.now,
            i.pose,
            i.road,
            m.fresh(i.pose),
            m.fresh_road(i.road),
        ).1);
    }
}

/// Everything that the laws below say of a tick.
proof fn lemma_laws(m: Mission, c: Scene, i: Input)
    requires
        !(m.task().phase is Completed) && !(m.task().phase is Fault),
        m.task().phase is Cones ==> m.task().cone_index < 2,
    ensures
        ({
            let t = m.acting(c, i);
            let (u, r) = c.act(
                t,
                i.now,
                i.pose,
                i.road,
                m.fresh(i.pose),
                m.fresh_road(i.road),
            );
            &&& comes_to(m, c, i, m.on(c, i).0, m.on(c, i).1)
            &&& proper(c, t, u, r, i.pose, i.road, m.fresh(i.pose), m.fresh_road(i.road))
        }),
{
    lemma_tick(m, c, i);
    lemma_act(
        c,
        m.acting(c, i),
        i.now,
        i.pose,
        i.road,
        m.fresh(i.pose),
        m.fresh_road(i.road),
    );
}

/// A mission that is over does not change, stops without a heading, and says
/// so; a fault repeats its first reason.
pub proof fn law_the_end_latches(m: Mission, c: Scene, i: Input)
    requires
        m.task().phase is Completed || m.task().phase is Fault,
    ensures
        m.on(c, i).0 == m,
        m.on(c, i).1.mission.output is Stop,
        m.on(c, i).1.mission.phase == m.task().phase,
        m.on(c, i).1.goal_heading_rad is None,
        m.sound() && m.task().phase is Fault ==> m.standing.reason == Some(
            m.on(c, i).1.mission.reason,
        ),
{
}

/// The phases come in their order, and none is skipped.
pub proof fn law_phases_come_in_order(m: Mission, c: Scene, i: Input)
    requires
        m.sound(),
    ensures
        may_follow(m.task().phase, m.on(c, i).0.task().phase),
{
    if m.task().phase is Completed || m.task().phase is Fault {
        law_the_end_latches(m, c, i);
    } else {
        lemma_laws(m, c, i);
    }
}

/// A mission that has not started, holds, waits, is over or has failed asks
/// for a stop.
pub proof fn law_stop_unless_under_way(m: Mission, c: Scene, i: Input)
    requires
        m.sound(),
    ensures
        ({
            let (after, account) = m.on(c, i);
            let q = after.task().phase;
            q is Idle || q is CrosswalkStop || q is WaitGreen || q is Completed || q is Fault
                ==> account.mission.output is Stop
        }),
{
    if m.task().phase is Completed || m.task().phase is Fault {
        law_the_end_latches(m, c, i);
    } else {
        lemma_laws(m, c, i);
    }
}

/// The first reason of a fault stays, and is what is reported.
pub proof fn law_first_reason_stays(m: Mission, c: Scene, i: Input)
    ensures
        m.standing.reason is Some ==> m.on(c, i).0.standing.reason == m.standing.reason && m.on(
            c,
            i,
        ).1.mission.reason == m.standing.reason->0,
{
    if m.task().phase is Completed || m.task().phase is Fault {
    } else {
        lemma_tick(m, c, i);
    }
}

/// The crosswalk is left only after a stationary hold of the full time before
/// it.
pub proof fn law_crosswalk_takes_its_hold(m: Mission, c: Scene, i: Input)
    requires
        m.task().phase is ApproachCrosswalk || m.task().phase is CrosswalkStop,
        m.on(c, i).0.task().phase is Cones,
    ensures
        m.on(c, i).0.task().stop_elapsed_ms >= c.limits.crosswalk_hold_ms,
        c.stopped(i.pose),
        m.on(c, i).1.mission.output is Stop,
{
    lemma_laws(m, c, i);
}

/// A pose that has been seen before adds nothing to the hold, nor does an old
/// view of the road to the green.
pub proof fn law_repeated_observations_add_nothing(m: Mission, c: Scene, i: Input)
    requires
        m.sound(),
    ensures
        !m.fresh(i.pose) ==> {
            let t = m.on(c, i).0.task();
            t.stop_elapsed_ms == m.task().stop_elapsed_ms || t.stop_elapsed_ms == 0
        },
        !m.fresh_road(i.road) ==> {
            let t = m.on(c, i).0.task();
            (t.green_elapsed_ms == m.task().green_elapsed_ms && t.green_frames
                == m.task().green_frames) || (t.green_elapsed_ms == 0 && t.green_frames == 0)
        },
{
    if m.task().phase is Completed || m.task().phase is Fault {
        law_the_end_latches(m, c, i);
    } else {
        lemma_laws(m, c, i);
    }
}

/// A cone counts as passed only after the half-turn round it: the outer side
/// was seen, the angle travelled, and the pose is at the exit, past the error
/// of the center. The light comes after the second one.
pub proof fn law_cones_take_a_half_turn(m: Mission, c: Scene, i: Input)
    requires
        m.sound(),
    ensures
        ({
            let t = m.task();
            let v = m.on(c, i).0.task();
            &&& v.cone_index != t.cone_index ==> {
                &&& t.phase is Cones
                &&& v.cone_index == t.cone_index + 1
                &&& rounded(c, t.cone_index, i.pose.pose)
            }
            &&& t.phase is Cones && v.phase is ApproachLight ==> v.cone_index == 2
        }),
{
    if m.task().phase is Completed || m.task().phase is Fault {
        law_the_end_latches(m, c, i);
    } else {
        lemma_laws(m, c, i);
    }
}

/// The light is passed only after a stationary stop inside the region, with
/// green seen since then long and often enough.
pub proof fn law_green_comes_before_the_finish(m: Mission, c: Scene, i: Input)
    requires
        m.task().phase is ApproachLight || m.task().phase is WaitGreen,
        m.on(c, i).0.task().phase is Finish,
    ensures
        m.on(c, i).0.task().green_elapsed_ms >= c.limits.min_green_ms,
        m.on(c, i).0.task().green_frames >= c.limits.min_green_frames,
        i.road.light is Green,
        c.stopped(i.pose),
        m.on(c, i).0.task().light is Some,
        c.inside_region(i.pose.pose, m.on(c, i).0.task().light->0),
{
    lemma_laws(m, c, i);
}

/// A light that is seen without a stop region takes a stop.
pub proof fn law_a_light_without_a_region_stops(m: Mission, c: Scene, i: Input)
    requires
        m.task().phase is ApproachLight,
        m.task().active is None,
        c.choice(m.noted(c, i.now, i.pose), i.pose.pose, ElementKind::StopLine) is None,
        m.task().observed_signal_without_region || (i.road.light != LightState::Unknown
            && c.confident(i.road)),
    ensures
        m.on(c, i).1.mission.output is Stop,
        m.on(c, i).0.task().phase is ApproachLight || m.on(c, i).0.task().phase is Fault,
        m.on(c, i).0.task().phase is ApproachLight ==> m.on(
            c,
            i,
        ).0.task().observed_signal_without_region,
{
    lemma_tick(m, c, i);
    lemma_light(
        c,
        m.acting(c, i),
        i.now,
        i.pose,
        i.road,
        m.fresh(i.pose),
        m.fresh_road(i.road),
    );
}

/// The mission is completed only in the finish, stationary, after the whole
/// body has passed the light.
pub proof fn law_completion_takes_clearance(m: Mission, c: Scene, i: Input)
    requires
        m.sound(),
        !(m.task().phase is Completed),
        m.on(c, i).0.task().phase is Completed,
    ensures
        m.task().phase is Finish,
        m.on(c, i).0.task().light_cleared,
        c.stopped(i.pose),
        m.on(c, i).0.task().active_geometry is Some,
        c.inside_region(i.pose.pose, m.on(c, i).0.task().active_geometry->0),
{
    if m.task().phase is Fault {
        law_the_end_latches(m, c, i);
    } else {
        lemma_laws(m, c, i);
    }
}

/// Before the light is cleared, a target takes green and a stop region that is
/// seen.
pub proof fn law_permission_needs_green(m: Mission, c: Scene, i: Input)
    requires
        m.task().phase is Finish,
        !m.task().light_cleared,
        m.on(c, i).1.mission.output is Target,
    ensures
        c.green(i.road),
        m.on(c, i).0.task().light_missing_since is None,
{
    lemma_laws(m, c, i);
}

/// A body beyond the boundary of travel is a fault.
pub proof fn law_crossing_is_a_fault(m: Mission, c: Scene, i: Input)
    requires
        !(m.task().phase is Completed),
        ({
            let edge = c.boundary(m.noted(c, i.now, i.pose));
            edge is Some && !(c.stance)(edge->0, c.limits.footprint, i.pose.pose).inside
        }),
    ensures
        m.on(c, i).0.task().phase is Fault,
{
}

/// The current element stays until its task is done: another one is not taken
/// in its place.
pub proof fn law_the_element_is_locked(m: Mission, c: Scene, i: Input)
    requires
        m.sound(),
        m.task().active is Some,
    ensures
        ({
            let after = m.on(c, i).0.task();
            after.active == m.task().active || after.phase != m.task().phase || after.cone_index
                != m.task().cone_index
        }),
{
    if m.task().phase is Completed || m.task().phase is Fault {
        law_the_end_latches(m, c, i);
    } else {
        lemma_laws(m, c, i);
    }
}

/// A target is always in known free space, and at the cruise or approach
/// speed.
pub proof fn law_targets_are_in_known_free_space(m: Mission, c: Scene, i: Input)
    requires
        m.sound(),
    ensures
        cautious(c, i.pose.pose, m.on(c, i).1.mission.output),
{
    lemma_stop_is_cautious(c, i.pose.pose);
    if m.task().phase is Completed || m.task().phase is Fault {
        law_the_end_latches(m, c, i);
    } else {
        lemma_laws(m, c, i);
    }
}

/// A search that goes on is within its time and distance.
pub proof fn law_search_is_bounded(c: Scene, t: Task, now: Timestamp, pose: Pose2)
    ensures
        c.searched(t, now, pose).1 is Ok ==> {
            let since = c.searched(t, now, pose).0.search_since;
            &&& since is Some
            &&& online_mission::elapsed(since->0, now) < c.limits.max_search_ms
            &&& !c.limits.max_search_distance_m.le(t.search_distance)
        },
{
}

/// A stop that no task asks for ends: after ten seconds it is a fault.
pub proof fn law_ordinary_stops_end(m: Mission, c: Scene, i: Input)
    requires
        !(m.task().phase is Completed) && !(m.task().phase is Fault),
        m.fresh(i.pose),
    ensures
        ({
            let t = m.on(c, i).0.task();
            !(t.phase is Fault) && t.ordinary_stop_since is Some ==> online_mission::elapsed(
                t.ordinary_stop_since->0,
                i.pose.captured_at,
            ) <= 10_000
        }),
        ({
            let t = m.on(c, i).0.task();
            !(t.phase is Fault) && t.ordinary_stop_since is None ==> !c.stopped(i.pose)
                || t.phase is Idle || t.phase is CrosswalkStop || t.phase is WaitGreen
                || t.phase is Completed
        }),
{
}

/// An element that is not seen is waited for, for a bounded time and at rest.
pub proof fn law_lost_elements_are_waited_for(m: Mission, c: Scene, i: Input)
    requires
        !(m.task().phase is Completed) && !(m.task().phase is Fault),
        m.task().active is Some,
        local_world::known(c.tracks, m.task().active->0, 0) is None,
        !(m.on(c, i).0.task().phase is Fault),
    ensures
        m.on(c, i).1.mission.output is Stop,
        m.on(c, i).0.task().active == m.task().active,
        m.on(c, i).0.task().missing_since is Some,
        online_mission::elapsed(m.on(c, i).0.task().missing_since->0, i.now)
            < c.limits.max_track_loss_ms,
{
}

/// Whether a task is the next one after another.
pub open spec fn goes_on(t: Task, u: Task) -> bool {
    ||| (t.phase is ApproachCrosswalk || t.phase is CrosswalkStop) && u.phase is Cones
    ||| t.phase is Cones && u.cone_index == t.cone_index + 1
    ||| (t.phase is ApproachLight || t.phase is WaitGreen) && u.phase is Finish
    ||| t.phase is Finish && u.phase is Completed
}

/// The kind of element that a phase is about.
pub open spec fn kind_of(p: MissionPhase) -> ElementKind {
    if p is ApproachCrosswalk || p is CrosswalkStop {
        ElementKind::Crosswalk
    } else if p is Cones {
        ElementKind::Cone
    } else if p is Finish {
        ElementKind::FinishMarker
    } else {
        ElementKind::StopLine
    }
}

/// Whether what a task is about has been done to an element, with the task as it
/// is then: the whole hold before a crosswalk, the half-turn round a cone, the
/// stop in the region of the light with green seen long and often enough, and
/// with the light cleared the stop in the finish.
pub open spec fn accomplished(
    c: Scene,
    t: Task,
    u: Task,
    e: PoseEstimate,
    road: Road,
    track: ElementTrack,
) -> bool {
    let goal = c.region_goal(track);
    let there = goal is Ok && c.near(e.pose, goal->Ok_0.0, goal->Ok_0.1) && c.stopped(e)
        && c.inside_region(e.pose, track);
    if t.phase is ApproachCrosswalk || t.phase is CrosswalkStop {
        &&& c.stopped(e)
        &&& track.heading_rad is Some
        &&& c.near(e.pose, c.crosswalk_goal(track), track.heading_rad->0)
        &&& u.stop_elapsed_ms >= c.limits.crosswalk_hold_ms
    } else if t.phase is Cones {
        rounded(c, t.cone_index, e.pose)
    } else if t.phase is Finish {
        there && u.light_cleared
    } else {
        &&& there
        &&& c.green(road)
        &&& u.green_elapsed_ms >= c.limits.min_green_ms
        &&& u.green_frames >= c.limits.min_green_frames
    }
}

/// What retiring a track in the action of a phase comes to.
spec fn retired(
    c: Scene,
    t: Task,
    e: PoseEstimate,
    road: Road,
    id: Option<TrackId>,
    u: Task,
    r: Result<Draft, Seq<char>>,
) -> bool {
    let found = c.acquired(t, e.pose, kind_of(t.phase)).1;
    &&& goes_on(t, u) ==> id is Some && (c.retire)(id->0) is None
    &&& id is Some ==> {
        &&& found is Some
        &&& id == Some(found->0.id)
        &&& accomplished(c, t, u, e, road, found->0)
        &&& (c.retire)(id->0) is None ==> goes_on(t, u)
        &&& (c.retire)(id->0) matches Some(message) ==> r == Err::<Draft, Seq<char>>(message)
    }
}

/// A choice depends on the heading and the cones passed, not on the light.
proof fn lemma_choice(c: Scene, t: Task, u: Task, pose: Pose2, kind: ElementKind, n: nat)
    requires
        t.outlook() == u.outlook(),
        t.cone_index == u.cone_index,
        t.processed == u.processed,
    ensures
        c.selected(t, pose, kind, n) == c.selected(u, pose, kind, n),
    decreases n,
{
    if n > 0 {
        lemma_choice(c, t, u, pose, kind, (n - 1) as nat);
    }
}

proof fn lemma_crosswalk_retires(c: Scene, t: Task, now: Timestamp, e: PoseEstimate, fresh: bool)
    requires
        t.phase is ApproachCrosswalk || t.phase is CrosswalkStop,
    ensures
        ({
            let (u, r) = c.crosswalk_tick(t, now, e, fresh);
            forall|road: Road| #[trigger]
                retired(c, t, e, road, c.crosswalk_retires(t, e, fresh), u, r)
        }),
{
    reveal(Scene::crosswalk_tick);
    reveal(Scene::crosswalk_retires);
    let (after, found) = c.acquired(t, e.pose, ElementKind::Crosswalk);
    lemma_searched(c, after, now, e.pose);
}

#[verifier::spinoff_prover]
proof fn lemma_cone_retires(c: Scene, t: Task, now: Timestamp, e: PoseEstimate, fresh: bool)
    requires
        t.phase is Cones,
        t.cone_index < 2,
    ensures
        ({
            let (u, r) = c.cone_tick(t, now, e, fresh);
            forall|road: Road| #[trigger]
                retired(c, t, e, road, c.cone_retires(t, e, fresh), u, r)
        }),
{
    reveal(Scene::cone_tick);
    reveal(Scene::cone_retires);
    let (after, found) = c.acquired(t, e.pose, ElementKind::Cone);
    lemma_searched(c, after, now, e.pose);
    if found is Some {
        let track = found->0;
        let radius = track.geometry->radius_m;
        let b = c.bend(after, e.pose, track, radius);
        let o = c.orbit_of(after, b, e.pose);
        let fitting = c.fitting_radius(b, o.radius_m.max(b.minimum_radius), 0);
        lemma_concluded(c, after, now, e, fresh, track, radius, o);
        lemma_concluded(
            c,
            after,
            now,
            e,
            fresh,
            track,
            radius,
            Orbit { radius_m: fitting->0, ..o },
        );
    }
}

/// What becomes of a half-turn, whether it is done or not.
proof fn lemma_concluded(
    c: Scene,
    t: Task,
    now: Timestamp,
    e: PoseEstimate,
    fresh: bool,
    track: ElementTrack,
    radius: Binary64,
    o: Orbit,
)
    requires
        t.phase is Cones,
        t.cone_index < 2,
    ensures
        ({
            let b = c.bend(t, e.pose, track, radius);
            let (u, r) = c.committed(t, now, e, fresh, b, track.id, o);
            let done = c.concludes(e.pose, fresh, b, o);
            &&& done ==> rounded(c, t.cone_index, e.pose)
            &&& goes_on(t, u) <==> done && (c.retire)(track.id) is None
            &&& done ==> ((c.retire)(track.id) matches Some(message) ==> r == Err::<
                Draft,
                Seq<char>,
            >(message))
        }),
{
    let b = c.bend(t, e.pose, track, radius);
    let index = (t.cone_index + 1) as usize;
    let moved = Task { cone_index: index, ..c.remembered(t, b) }.moved(
        if index == 2 {
            MissionPhase::ApproachLight
        } else {
            MissionPhase::Cones
        },
    );
    lemma_searched(c, moved, now, e.pose);
    let entered = if o.entered {
        o
    } else {
        Orbit { entered: true, last_position: e.pose.point(), ..o }
    };
    let after = if fresh {
        c.progressed(e.pose, b, entered)
    } else {
        entered
    };
    if c.passed(e.pose, b, after) {
        assert(rounded(c, t.cone_index, e.pose));
    }
}

#[verifier::spinoff_prover]
proof fn lemma_light_retires(
    c: Scene,
    t: Task,
    now: Timestamp,
    e: PoseEstimate,
    road: Road,
    fresh: bool,
    fresh_road: bool,
)
    requires
        t.phase is ApproachLight || t.phase is WaitGreen,
    ensures
        ({
            let (u, r) = c.light_tick(t, now, e, road, fresh, fresh_road);
            retired(c, t, e, road, c.light_retires(t, e, road, fresh, fresh_road), u, r)
        }),
{
    reveal(Scene::light_tick);
    reveal(Scene::light_retires);
    let (after, found) = c.acquired(t, e.pose, ElementKind::StopLine);
    let noted = Task {
        observed_signal_without_region: after.observed_signal_without_region || (road.light
            != LightState::Unknown && c.confident(road)),
        ..after
    };
    lemma_searched(c, noted, now, e.pose);
    if found is Some {
        let seen = Task { observed_signal_without_region: false, light: found, ..after };
        let counted = c.counted(c.waiting(seen, e.captured_at), road, fresh_road);
        lemma_searched(c, counted.moved(MissionPhase::Finish), now, e.pose);
    }
}

#[verifier::spinoff_prover]
proof fn lemma_finish_retires(c: Scene, t: Task, now: Timestamp, e: PoseEstimate, road: Road)
    requires
        t.phase is Finish,
    ensures
        ({
            let (u, r) = c.finish_tick(t, now, e, road);
            retired(c, t, e, road, c.finish_retires(t, e, road), u, r)
        }),
{
    reveal(Scene::finish_tick);
    reveal(Scene::finish_retires);
    let current = if t.light_cleared {
        t
    } else {
        Task {
            light: local_world::known(c.tracks, t.light->0.id, 0),
            light_missing_since: None,
            ..t
        }
    };
    let light = current.light->0;
    let edge = c.edge(light, true)->Ok_0;
    let passed = Task {
        light_cleared: current.light_cleared || c.clears(e.pose, light, edge),
        ..current
    };
    let (after, found) = c.acquired(passed, e.pose, ElementKind::FinishMarker);
    lemma_searched(c, after, now, e.pose);
    lemma_choice(c, t, passed, e.pose, ElementKind::FinishMarker, c.tracks.len());
}

proof fn lemma_act_retires(
    c: Scene,
    t: Task,
    now: Timestamp,
    e: PoseEstimate,
    road: Road,
    fresh: bool,
    fresh_road: bool,
)
    requires
        t.phase is Cones ==> t.cone_index < 2,
        !(t.phase is Completed) && !(t.phase is Fault),
    ensures
        ({
            let (u, r) = c.act(t, now, e, road, fresh, fresh_road);
            retired(c, t, e, road, c.act_retires(t, e, road, fresh, fresh_road), u, r)
        }),
{
    match t.phase {
        MissionPhase::Idle => {},
        MissionPhase::ApproachCrosswalk | MissionPhase::CrosswalkStop => {
            lemma_crosswalk_retires(c, t, now, e, fresh);
            let (u, r) = c.crosswalk_tick(t, now, e, fresh);
            assert(retired(c, t, e, road, c.crosswalk_retires(t, e, fresh), u, r));
        },
        MissionPhase::Cones => {
            lemma_cone_retires(c, t, now, e, fresh);
            let (u, r) = c.cone_tick(t, now, e, fresh);
            assert(retired(c, t, e, road, c.cone_retires(t, e, fresh), u, r));
        },
        MissionPhase::ApproachLight | MissionPhase::WaitGreen => {
            lemma_light_retires(c, t, now, e, road, fresh, fresh_road);
        },
        _ => {
            lemma_finish_retires(c, t, now, e, road);
        },
    }
}

/// What is found under an identity has it.
proof fn lemma_known(tracks: Seq<ElementTrack>, id: TrackId, i: nat)
    ensures
        local_world::known(tracks, id, i) matches Some(track) ==> track.id == id,
    decreases tracks.len() - i,
{
    if i < tracks.len() {
        lemma_known(tracks, id, i + 1);
    }
}

/// A track is retired only in the tick in which its task is done, and it is that
/// task's track: the one the task holds, or the one it chooses then, which has
/// the kind that the task is about and was not processed before. The mission
/// goes on to the next task in no other tick, and unless it fails it does so in
/// that one. A track that cannot be retired is a fault.
#[verifier::spinoff_prover]
#[verifier::rlimit(60)]
pub proof fn law_a_track_is_retired_when_its_task_is_done(m: Mission, c: Scene, i: Input)
    requires
        m.sound(),
    ensures
        ({
            let t = m.acting(c, i);
            let id = m.retirement(c, i);
            let found = c.acquired(t, i.pose.pose, kind_of(t.phase)).1;
            let after = m.on(c, i).0;
            &&& goes_on(m.task(), after.task()) ==> id is Some && (c.retire)(id->0) is None
            &&& id is Some ==> {
                &&& !m.ended()
                &&& found is Some && id == Some(found->0.id)
                &&& m.task().active is Some ==> id == m.task().active
                &&& m.task().active is None ==> found->0.kind == kind_of(m.task().phase)
                    && !found->0.processed
                &&& accomplished(c, t, after.task(), i.pose, i.road, found->0)
                &&& (c.retire)(id->0) is None ==> goes_on(m.task(), after.task())
                    || after.task().phase is Fault
                &&& (c.retire)(id->0) matches Some(message) ==> {
                    &&& after.task().phase is Fault
                    &&& m.standing.reason is None ==> after.standing.reason == Some(message)
                }
            }
        }),
{
    if !m.ended() {
        let t = m.acting(c, i);
        let noted = m.noted(c, i.now, i.pose);
        lemma_act_retires(
            c,
            t,
            i.now,
            i.pose,
            i.road,
            m.fresh(i.pose),
            m.fresh_road(i.road),
        );
        if m.task().active is Some {
            lemma_known(c.tracks, m.task().active->0, 0);
        } else {
            super::targets::law_selection_is_the_preferred_track(
                c,
                t,
                i.pose.pose,
                kind_of(t.phase),
            );
        }
        lemma_tick(m, c, i);
        lemma_laws(m, c, i);
        let fault = m.input_fault(i.now, i.pose, i.road, i.world_frame, i.body_frame);
        let edge = c.boundary(noted);
        let crossed = edge is Some && !(c.stance)(
            edge->0,
            c.limits.footprint,
            i.pose.pose,
        ).inside;
        let lost = noted.active is Some && local_world::known(
            c.tracks,
            noted.active->0,
            0,
        ) is None;
        if fault is None && !crossed && !lost {
            let s = Standing { task: t, ..m.standing };
            assert(m.on(c, i).0.standing == s.acted(
                c,
                i.now,
                i.pose,
                i.road,
                m.fresh(i.pose),
                m.fresh_road(i.road),
            ).0);
        }
    }
}

} // verus!
