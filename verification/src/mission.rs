//! The phases of a mission and what it asks of the planner.
use crate::autonomy::{Footprint, Point2};
use crate::binary64::Binary64;
use crate::sensors::{FrameId, Timestamp};
use vstd::prelude::*;

verus! {

#[derive(Clone, Copy, Debug, PartialEq, Eq, Structural)]
pub enum MissionPhase {
    Idle,
    ApproachCrosswalk,
    CrosswalkStop,
    Cones,
    ApproachLight,
    WaitGreen,
    Finish,
    Completed,
    Fault,
}

/// What to do on arrival at a target.
#[derive(Clone, Copy, Debug, PartialEq, Eq, Structural)]
pub enum ArrivalBehavior {
    Stop,
    PassThrough {
        next: Point2,
        next_heading_rad: Option<Binary64>,
        next_max_speed_mps: Binary64,
        admission_radius_m: Binary64,
    },
}

#[derive(Clone, Copy, Debug, PartialEq, Eq, Structural)]
pub enum MissionOutput {
    Stop,
    Target { point: Point2, max_speed_mps: Binary64, arrival: ArrivalBehavior },
}

#[derive(Debug)]
pub struct MissionReport {
    pub at: Timestamp,
    pub phase: MissionPhase,
    pub output: MissionOutput,
    pub reason: String,
    pub crosswalk_stop_elapsed_ms: u64,
    pub green_elapsed_ms: u64,
    pub waypoint_index: usize,
}

/// The limits of a mission.
#[derive(Debug)]
pub struct MissionConfig {
    pub world_frame: FrameId,
    pub body_frame: FrameId,
    pub footprint: Footprint,
    pub cruise_speed_mps: Binary64,
    pub approach_speed_mps: Binary64,
    pub goal_tolerance_m: Binary64,
    pub goal_heading_tolerance_rad: Binary64,
    pub crosswalk_stop_margin_m: Binary64,
    pub stopped_speed_mps: Binary64,
    pub crosswalk_hold_ms: u64,
    pub min_green_ms: u64,
    pub min_green_frames: u32,
    pub max_pose_age_ms: u64,
    pub max_road_age_ms: u64,
    pub max_pose_gap_ms: u64,
    pub max_road_gap_ms: u64,
    pub max_observation_skew_ms: u64,
    pub min_pose_quality: Binary64,
    pub min_detection_confidence: Binary64,
}

/// What a report says.
pub struct Statement {
    pub at: Timestamp,
    pub phase: MissionPhase,
    pub output: MissionOutput,
    pub reason: Seq<char>,
    pub crosswalk_stop_elapsed_ms: u64,
    pub green_elapsed_ms: u64,
    pub waypoint_index: usize,
}

impl View for MissionReport {
    type V = Statement;

    open spec fn view(&self) -> Statement {
        Statement {
            at: self.at,
            phase: self.phase,
            output: self.output,
            reason: self.reason@,
            crosswalk_stop_elapsed_ms: self.crosswalk_stop_elapsed_ms,
            green_elapsed_ms: self.green_elapsed_ms,
            waypoint_index: self.waypoint_index,
        }
    }
}

} // verus!
