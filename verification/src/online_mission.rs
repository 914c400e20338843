//! Observation-driven task topology, without a surveyed route or field layout.
//!
//! A region marker describes a near edge and a region extending along its
//! heading. Targets are proposals to the planner: they neither authorize
//! actuator output nor certify an unobserved stopping path.
use crate::autonomy::{Footprint, Point2, Pose2};
use crate::binary64::values::{
    FOUR_FIFTHS, HUNDRED, INFINITE, ONE, PI, QUARTER_PI, SEVENTEEN_TWENTIETHS, TAU, THREE_FIFTHS,
    TWELVE, TWENTY_FIFTH, TWO, ZERO,
};
use crate::binary64::Binary64;
use crate::elementary::Elementary;
use crate::local_world::{ElementColor, ElementGeometry, ElementTrack, TrackId};
use crate::mission::{MissionConfig, MissionOutput, MissionPhase, MissionReport};
use crate::safety;
use crate::scan;
use crate::sensors::{FrameId, Timestamp, ValidationError};
use crate::sensors;
use vstd::prelude::*;

pub mod admission;
pub mod aims;
pub mod angles;
pub mod cones;
pub mod laws;
pub mod orbits;
pub mod places;
pub mod regions;
pub mod scene;
pub mod targets;
pub mod tick;

pub use scene::observed_region_boundary;
pub use tick::OnlineMission;

verus! {

/// What an online mission works within. The bounds on search and geometry are
/// engineering limits, not dimensions of a field.
#[derive(Debug)]
pub struct OnlineMissionConfig {
    pub schema_version: u32,
    pub simulation_only: bool,
    pub world_frame: FrameId,
    pub body_frame: FrameId,
    pub footprint: Footprint,
    pub cruise_speed_mps: Binary64,
    pub approach_speed_mps: Binary64,
    pub goal_tolerance_m: Binary64,
    pub goal_heading_tolerance_rad: Binary64,
    pub crosswalk_stop_margin_m: Binary64,
    pub stopped_speed_mps: Binary64,
    pub crosswalk_hold_ms: u64,
    pub min_green_ms: u64,
    pub min_green_frames: u32,
    pub max_pose_age_ms: u64,
    pub max_road_age_ms: u64,
    pub max_pose_gap_ms: u64,
    pub max_road_gap_ms: u64,
    pub max_observation_skew_ms: u64,
    pub min_pose_quality: Binary64,
    pub min_detection_confidence: Binary64,
    pub clearance_m: Binary64,
    pub max_curvature_per_m: Binary64,
    pub search_horizon_m: Binary64,
    pub max_search_distance_m: Binary64,
    pub max_search_ms: u64,
    pub max_track_loss_ms: u64,
    pub preferred_cone_radius_m: Binary64,
    pub arc_lookahead_rad: Binary64,
    pub processed_exclusion_m: Binary64,
    /// The colors that the two cones must have, where that is known. `None`
    /// still takes a confirmed track that is none of the processed cones.
    pub required_cone_colors: [Option<ElementColor>; 2],
}

impl OnlineMissionConfig {
    /// Copies the limits of rules and control; no route point, rectangle or
    /// measured field dimension.
    pub fn from_limits(source: &MissionConfig) -> (r: Self)
        ensures
            r.schema_version == 1,
            r.simulation_only,
            r.world_frame == source.world_frame,
            r.body_frame == source.body_frame,
            r.footprint == source.footprint,
            r.cruise_speed_mps == source.cruise_speed_mps,
            r.approach_speed_mps == source.approach_speed_mps,
            r.goal_tolerance_m == source.goal_tolerance_m,
            r.goal_heading_tolerance_rad == source.goal_heading_tolerance_rad,
            r.crosswalk_stop_margin_m == source.crosswalk_stop_margin_m,
            r.stopped_speed_mps == source.stopped_speed_mps,
            r.crosswalk_hold_ms == source.crosswalk_hold_ms,
            r.min_green_ms == source.min_green_ms,
            r.min_green_frames == source.min_green_frames,
            r.max_pose_age_ms == source.max_pose_age_ms,
            r.max_road_age_ms == source.max_road_age_ms,
            r.max_pose_gap_ms == source.max_pose_gap_ms,
            r.max_road_gap_ms == source.max_road_gap_ms,
            r.max_observation_skew_ms == source.max_observation_skew_ms,
            r.min_pose_quality == source.min_pose_quality,
            r.min_detection_confidence == source.min_detection_confidence,
            r.clearance_m == Binary64::of(TWENTY_FIFTH),
            r.max_curvature_per_m == Binary64::of(TWO),
            r.search_horizon_m == Binary64::of(FOUR_FIFTHS),
            r.max_search_distance_m == Binary64::of(TWELVE),
            r.max_search_ms == 60_000,
            r.max_track_loss_ms == 2000,
            r.preferred_cone_radius_m == Binary64::of(SEVENTEEN_TWENTIETHS),
            r.arc_lookahead_rad == Binary64::of(QUARTER_PI),
            r.processed_exclusion_m == Binary64::of(THREE_FIFTHS),
            r.required_cone_colors@ == seq![None::<ElementColor>, None::<ElementColor>],
    {
        OnlineMissionConfig {
            schema_version: 1,
            simulation_only: true,
            world_frame: source.world_frame.clone(),
            body_frame: source.body_frame.clone(),
            footprint: source.footprint,
            cruise_speed_mps: source.cruise_speed_mps,
            approach_speed_mps: source.approach_speed_mps,
            goal_tolerance_m: source.goal_tolerance_m,
            goal_heading_tolerance_rad: source.goal_heading_tolerance_rad,
            crosswalk_stop_margin_m: source.crosswalk_stop_margin_m,
            stopped_speed_mps: source.stopped_speed_mps,
            crosswalk_hold_ms: source.crosswalk_hold_ms,
            min_green_ms: source.min_green_ms,
            min_green_frames: source.min_green_frames,
            max_pose_age_ms: source.max_pose_age_ms,
            max_road_age_ms: source.max_road_age_ms,
            max_pose_gap_ms: source.max_pose_gap_ms,
            max_road_gap_ms: source.max_road_gap_ms,
            max_observation_skew_ms: source.max_observation_skew_ms,
            min_pose_quality: source.min_pose_quality,
            min_detection_confidence: source.min_detection_confidence,
            clearance_m: Binary64::of(TWENTY_FIFTH),
            max_curvature_per_m: Binary64::of(TWO),
            search_horizon_m: Binary64::of(FOUR_FIFTHS),
            max_search_distance_m: Binary64::of(TWELVE),
            max_search_ms: 60_000,
            max_track_loss_ms: 2000,
            preferred_cone_radius_m: Binary64::of(SEVENTEEN_TWENTIETHS),
            arc_lookahead_rad: Binary64::of(QUARTER_PI),
            processed_exclusion_m: Binary64::of(THREE_FIFTHS),
            required_cone_colors: [None, None],
        }
    }

    /// Whether every length, speed and angle is positive.
    pub open spec fn measures_ok(&self) -> bool {
        &&& safety::positive(self.cruise_speed_mps)
        &&& safety::positive(self.approach_speed_mps)
        &&& safety::positive(self.goal_tolerance_m)
        &&& safety::positive(self.goal_heading_tolerance_rad)
        &&& safety::positive(self.crosswalk_stop_margin_m)
        &&& safety::positive(self.clearance_m)
        &&& safety::positive(self.max_curvature_per_m)
        &&& safety::positive(self.search_horizon_m)
        &&& safety::positive(self.max_search_distance_m)
        &&& safety::positive(self.preferred_cone_radius_m)
        &&& safety::positive(self.processed_exclusion_m)
        &&& safety::positive(self.arc_lookahead_rad)
    }

    /// Whether the measures fit each other and their bounds.
    pub open spec fn proportions_ok(&self) -> bool {
        &&& !self.cruise_speed_mps.lt(self.approach_speed_mps)
        &&& !Binary64::of(QUARTER_PI).lt(self.goal_heading_tolerance_rad)
        &&& !self.crosswalk_stop_margin_m.le(self.goal_tolerance_m)
        &&& self.stopped_speed_mps.finite()
        &&& !self.stopped_speed_mps.lt(Binary64::of(ZERO))
        &&& !self.approach_speed_mps.le(self.stopped_speed_mps)
        &&& scan::fraction(self.min_pose_quality)
        &&& scan::fraction(self.min_detection_confidence)
        &&& !Binary64::of(TWO).lt(self.search_horizon_m)
        &&& !Binary64::of(HUNDRED).lt(self.max_search_distance_m)
        &&& !Binary64::of(QUARTER_PI).lt(self.arc_lookahead_rad)
        &&& !self.preferred_cone_radius_m.lt(Binary64::of(ONE).over(self.max_curvature_per_m))
    }

    /// Whether the times and counts are within their bounds.
    pub open spec fn timing_ok(&self) -> bool {
        &&& self.crosswalk_hold_ms >= 3000
        &&& self.min_green_ms >= 300
        &&& 2 <= self.min_green_frames <= 1000
        &&& self.max_pose_age_ms > 0
        &&& self.max_road_age_ms > 0
        &&& self.max_pose_gap_ms > 0
        &&& self.max_road_gap_ms > 0
        &&& self.max_observation_skew_ms > 0
        &&& 0 < self.max_search_ms <= 180_000
        &&& 0 < self.max_track_loss_ms <= 10_000
    }

    /// What is wrong with a configuration, the first of these that applies.
    pub open spec fn fault(&self) -> Option<Seq<char>> {
        if sensors::frame_fault(self.world_frame@) is Some {
            sensors::frame_fault(self.world_frame@)
        } else if sensors::frame_fault(self.body_frame@) is Some {
            sensors::frame_fault(self.body_frame@)
        } else if self.footprint.fault() is Some {
            self.footprint.fault()
        } else if self.schema_version == 1 && self.simulation_only && self.world_frame@
            != self.body_frame@ && self.measures_ok() && self.proportions_ok()
            && self.timing_ok() {
            None
        } else {
            Some("invalid online mission limits or topology bounds"@)
        }
    }

    fn has_measures(&self) -> (r: bool)
        ensures
            r == self.measures_ok(),
    {
        safety::is_positive(self.cruise_speed_mps) && safety::is_positive(self.approach_speed_mps)
            && safety::is_positive(self.goal_tolerance_m) && safety::is_positive(
            self.goal_heading_tolerance_rad,
        ) && safety::is_positive(self.crosswalk_stop_margin_m) && safety::is_positive(
            self.clearance_m,
        ) && safety::is_positive(self.max_curvature_per_m) && safety::is_positive(
            self.search_horizon_m,
        ) && safety::is_positive(self.max_search_distance_m) && safety::is_positive(
            self.preferred_cone_radius_m,
        ) && safety::is_positive(self.processed_exclusion_m) && safety::is_positive(
            self.arc_lookahead_rad,
        )
    }

    fn has_proportions(&self) -> (r: bool)
        ensures
            r == self.proportions_ok(),
    {
        !self.cruise_speed_mps.less(self.approach_speed_mps) && !Binary64::of(QUARTER_PI).less(
            self.goal_heading_tolerance_rad,
        ) && !self.crosswalk_stop_margin_m.at_most(self.goal_tolerance_m)
            && self.stopped_speed_mps.is_finite() && !self.stopped_speed_mps.less(
            Binary64::of(ZERO),
        ) && !self.approach_speed_mps.at_most(self.stopped_speed_mps) && scan::is_fraction(
            self.min_pose_quality,
        ) && scan::is_fraction(self.min_detection_confidence) && !Binary64::of(TWO).less(
            self.search_horizon_m,
        ) && !Binary64::of(HUNDRED).less(self.max_search_distance_m) && !Binary64::of(
            QUARTER_PI,
        ).less(self.arc_lookahead_rad) && !self.preferred_cone_radius_m.less(
            Binary64::of(ONE).over(self.max_curvature_per_m),
        )
    }

    fn has_timing(&self) -> (r: bool)
        ensures
            r == self.timing_ok(),
    {
        self.crosswalk_hold_ms >= 3000 && self.min_green_ms >= 300 && 2 <= self.min_green_frames
            && self.min_green_frames <= 1000 && self.max_pose_age_ms > 0 && self.max_road_age_ms
            > 0 && self.max_pose_gap_ms > 0 && self.max_road_gap_ms > 0
            && self.max_observation_skew_ms > 0 && 0 < self.max_search_ms && self.max_search_ms
            <= 180_000 && 0 < self.max_track_loss_ms && self.max_track_loss_ms <= 10_000
    }

    pub fn validate(&self) -> (r: Result<(), ValidationError>)
        ensures
            sensors::refusal(r) == self.fault(),
    {
        self.world_frame.validate()?;
        self.body_frame.validate()?;
        self.footprint.validate()?;
        if self.schema_version != 1 || !self.simulation_only || self.world_frame.same_as(
            &self.body_frame,
        ) || !self.has_measures() || !self.has_proportions() || !self.has_timing() {
            return Err(ValidationError::new("invalid online mission limits or topology bounds"));
        }
        Ok(())
    }
}

#[derive(Clone, Copy, Debug, PartialEq, Eq, Structural)]
pub enum OnlineBehavior {
    Idle,
    Search,
    ApproachRegion,
    HoldCrosswalk,
    ConeEntry,
    OrbitCone,
    WaitGreen,
    Completed,
    Fault,
}

/// A half-turn round a cone.
#[derive(Clone, Copy, Debug, PartialEq, Eq, Structural)]
pub struct Orbit {
    pub radius_m: Binary64,
    pub entry_aligned: bool,
    pub entered: bool,
    pub progress_rad: Binary64,
    pub saw_outer_side: bool,
    pub last_position: Point2,
}

/// A cone that has been passed.
#[derive(Clone, Copy, Debug, PartialEq, Eq, Structural)]
pub struct ProcessedCone {
    pub position: Point2,
    pub radius_m: Binary64,
    pub position_error_m: Binary64,
}

/// How far a mission has come.
#[derive(Clone, Copy, Debug)]
pub struct Task {
    pub phase: MissionPhase,
    pub initial_heading: Option<Binary64>,
    pub active: Option<TrackId>,
    pub active_geometry: Option<ElementTrack>,
    pub missing_since: Option<Timestamp>,
    pub orbit: Option<Orbit>,
    pub processed: (Option<ProcessedCone>, Option<ProcessedCone>),
    pub cone_index: usize,
    pub light: Option<ElementTrack>,
    pub light_cleared: bool,
    pub light_missing_since: Option<Timestamp>,
    pub observed_signal_without_region: bool,
    pub last_now: Option<Timestamp>,
    pub search_since: Option<Timestamp>,
    pub search_distance: Binary64,
    pub stop_since: Option<Timestamp>,
    pub stop_elapsed_ms: u64,
    pub ordinary_stop_since: Option<Timestamp>,
    pub light_wait_since: Option<Timestamp>,
    pub green_since: Option<Timestamp>,
    pub green_frames: u32,
    pub green_elapsed_ms: u64,
}

/// Whether a time lies at or before another one, where there is one.
pub open spec fn by_then(since: Option<Timestamp>, at: Option<Timestamp>) -> bool {
    since is Some ==> at is Some && (since->0).0 <= (at->0).0
}

/// A time, or another one where there is none.
pub open spec fn since_or(since: Option<Timestamp>, at: Timestamp) -> Timestamp {
    match since {
        Some(t) => t,
        None => at,
    }
}

/// The milliseconds between two times.
pub open spec fn elapsed(since: Timestamp, at: Timestamp) -> u64 {
    (at.0 - since.0) as u64
}

pub fn first_of(since: Option<Timestamp>, at: Timestamp) -> (r: Timestamp)
    ensures
        r == since_or(since, at),
{
    match since {
        Some(t) => t,
        None => at,
    }
}

impl Task {
    pub open spec fn begun() -> Task {
        Task {
            phase: MissionPhase::Idle,
            initial_heading: None,
            active: None,
            active_geometry: None,
            missing_since: None,
            orbit: None,
            processed: (None, None),
            cone_index: 0,
            light: None,
            light_cleared: false,
            light_missing_since: None,
            observed_signal_without_region: false,
            last_now: None,
            search_since: None,
            search_distance: Binary64::of(ZERO),
            stop_since: None,
            stop_elapsed_ms: 0,
            ordinary_stop_since: None,
            light_wait_since: None,
            green_since: None,
            green_frames: 0,
            green_elapsed_ms: 0,
        }
    }

    pub fn new() -> (r: Task)
        ensures
            r == Task::begun(),
    {
        Task {
            phase: MissionPhase::Idle,
            initial_heading: None,
            active: None,
            active_geometry: None,
            missing_since: None,
            orbit: None,
            processed: (None, None),
            cone_index: 0,
            light: None,
            light_cleared: false,
            light_missing_since: None,
            observed_signal_without_region: false,
            last_now: None,
            search_since: None,
            search_distance: Binary64::of(ZERO),
            stop_since: None,
            stop_elapsed_ms: 0,
            ordinary_stop_since: None,
            light_wait_since: None,
            green_since: None,
            green_frames: 0,
            green_elapsed_ms: 0,
        }
    }

    /// Whether everything that began did so by the latest tick, pose and view
    /// of the road.
    pub open spec fn timely(
        self,
        now: Option<Timestamp>,
        pose_at: Option<Timestamp>,
        road_at: Option<Timestamp>,
    ) -> bool {
        &&& by_then(self.search_since, now)
        &&& by_then(self.missing_since, now)
        &&& by_then(self.light_missing_since, now)
        &&& by_then(self.stop_since, pose_at)
        &&& by_then(self.ordinary_stop_since, pose_at)
        &&& by_then(self.light_wait_since, pose_at)
        &&& by_then(self.green_since, road_at)
    }

    /// Whether the phase agrees with the rest.
    pub open spec fn coherent(self) -> bool {
        &&& self.cone_index <= 2
        &&& self.phase is Idle || self.phase is ApproachCrosswalk || self.phase is CrosswalkStop
            || self.phase is Cones ==> self.cone_index < 2
        &&& self.phase is WaitGreen ==> self.light_wait_since is Some
        &&& self.phase is CrosswalkStop || self.phase is WaitGreen ==> self.active is Some
        &&& self.active is Some ==> self.active_geometry is Some
    }

    /// Whether a search leaves the times of everything else alone.
    pub open spec fn steady(self, before: Task, now: Timestamp) -> bool {
        &&& by_then(self.search_since, Some(now))
        &&& self.missing_since is Some ==> self.missing_since == before.missing_since
        &&& self.light_missing_since == before.light_missing_since
        &&& self.stop_since == before.stop_since
        &&& self.ordinary_stop_since == before.ordinary_stop_since
        &&& self.light_wait_since == before.light_wait_since
        &&& self.green_since == before.green_since
        &&& self.last_now == before.last_now
    }

    /// The task in the next phase, with nothing found for it yet.
    pub open spec fn moved(self, phase: MissionPhase) -> Task {
        Task {
            phase,
            active: None,
            active_geometry: None,
            orbit: None,
            missing_since: None,
            search_since: None,
            search_distance: Binary64::of(ZERO),
            ..self
        }
    }

    pub fn transition(self, phase: MissionPhase) -> (r: Task)
        ensures
            r == self.moved(phase),
    {
        Task {
            phase,
            active: None,
            active_geometry: None,
            orbit: None,
            missing_since: None,
            search_since: None,
            search_distance: Binary64::of(ZERO),
            ..self
        }
    }

    /// The task with no green seen.
    pub open spec fn without_green(self) -> Task {
        Task { green_since: None, green_frames: 0, green_elapsed_ms: 0, ..self }
    }

    pub fn reset_green(self) -> (r: Task)
        ensures
            r == self.without_green(),
    {
        Task { green_since: None, green_frames: 0, green_elapsed_ms: 0, ..self }
    }

    /// The direction in which the next element is looked for.
    pub open spec fn outlook(self) -> Binary64 {
        wrap(
            (match self.initial_heading {
                Some(heading) => heading,
                None => Binary64::of(ZERO),
            }).plus(
                if self.phase is Cones && self.cone_index == 1 {
                    Binary64::of(PI)
                } else {
                    Binary64::of(ZERO)
                },
            ),
        )
    }

    pub fn search_heading(self) -> (r: Binary64)
        ensures
            r == self.outlook(),
    {
        let initial: Binary64 = match self.initial_heading {
            Some(heading) => heading,
            None => Binary64::of(ZERO),
        };
        let turn: Binary64 = if self.phase == MissionPhase::Cones && self.cone_index == 1 {
            Binary64::of(PI)
        } else {
            Binary64::of(ZERO)
        };
        wrap(initial.plus(turn))
    }
}

/// An angle within half a turn either way.
pub open spec fn wrapped(angle: Binary64) -> Binary64 {
    angle.rem_euclid(Binary64::of(TAU)).plus(Binary64::of(PI)).rem_euclid(Binary64::of(TAU)).minus(
        Binary64::of(PI),
    )
}

#[verifier::when_used_as_spec(wrapped)]
pub fn wrap(angle: Binary64) -> (r: Binary64)
    ensures
        r == wrapped(angle),
{
    angle.rem_euclid(Binary64::of(TAU)).plus(Binary64::of(PI)).rem_euclid(Binary64::of(TAU)).minus(
        Binary64::of(PI),
    )
}

/// What a mission proposes in one tick.
#[derive(Clone, Copy, Debug)]
pub struct Proposal {
    pub output: MissionOutput,
    pub heading: Option<Binary64>,
    pub behavior: OnlineBehavior,
    pub reason: &'static str,
}

/// What a proposal says.
pub struct Draft {
    pub output: MissionOutput,
    pub heading: Option<Binary64>,
    pub behavior: OnlineBehavior,
    pub reason: Seq<char>,
}

impl View for Proposal {
    type V = Draft;

    open spec fn view(&self) -> Draft {
        Draft {
            output: self.output,
            heading: self.heading,
            behavior: self.behavior,
            reason: self.reason@,
        }
    }
}

impl Draft {
    pub open spec fn halt(behavior: OnlineBehavior, reason: Seq<char>) -> Draft {
        Draft { output: MissionOutput::Stop, heading: None, behavior, reason }
    }
}

impl Proposal {
    pub fn stop(behavior: OnlineBehavior, reason: &'static str) -> (r: Proposal)
        ensures
            r@ == Draft::halt(behavior, reason@),
    {
        Proposal { output: MissionOutput::Stop, heading: None, behavior, reason }
    }
}

/// A proposal, or why there is none.
pub open spec fn plain(r: Result<Proposal, String>) -> Result<Draft, Seq<char>> {
    match r {
        Ok(proposal) => Ok(proposal@),
        Err(message) => Err(message@),
    }
}

#[derive(Debug)]
pub struct OnlineMissionReport {
    pub mission: MissionReport,
    pub goal_heading_rad: Option<Binary64>,
    pub travel_boundary: Option<crate::autonomy::HalfPlane>,
    pub behavior: OnlineBehavior,
    pub active_track_id: Option<TrackId>,
    /// The last accepted geometry. It may be stale while holding for
    /// reacquisition; its presence never authorizes motion.
    pub active_track: Option<ElementTrack>,
    pub processed_cones: usize,
    pub cone_progress_rad: Binary64,
    pub search_distance_m: Binary64,
    /// For the execution owner, who may reject a proposed command whose
    /// stopping envelope is not certified as observed free space.
    pub execution_space_rejected: bool,
}

/// How far the corners of an observed region may be displaced, by the errors
/// of its position and heading.
pub open spec fn region_margin(m: spec_fn(Elementary) -> Binary64, track: ElementTrack) -> Binary64 {
    match track.geometry {
        ElementGeometry::Cone { .. } => Binary64::of(INFINITE),
        ElementGeometry::LineRegion { lateral_half_width_m, depth_m } => {
            track.position_error_m.plus(
                m(Elementary::Length { x: depth_m, y: lateral_half_width_m }).times(
                    track.heading_error_rad,
                ),
            )
        },
    }
}

/// The pose of a track, with a heading of zero where it has none.
pub open spec fn track_frame(track: ElementTrack) -> Pose2 {
    Pose2 {
        x_m: track.position.x_m,
        y_m: track.position.y_m,
        yaw_rad: match track.heading_rad {
            Some(heading) => heading,
            None => Binary64::of(ZERO),
        },
    }
}

#[verifier::when_used_as_spec(track_frame)]
pub fn frame(track: ElementTrack) -> (r: Pose2)
    ensures
        r == track_frame(track),
{
    Pose2 {
        x_m: track.position.x_m,
        y_m: track.position.y_m,
        yaw_rad: match track.heading_rad {
            Some(heading) => heading,
            None => Binary64::of(ZERO),
        },
    }
}

} // verus!
