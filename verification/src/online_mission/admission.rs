//! What a mission takes in before it goes on.
use super::laws::Input;
use super::scene::Scene;
use super::tick::Mission;
use super::{wrap, Task};
use crate::autonomy::PoseEstimate;
use crate::binary64::values::{ONE, ZERO};
use crate::binary64::Binary64;
use crate::elementary::Elementary;
use crate::sensors::Timestamp;
use vstd::prelude::*;

verus! {

/// A target takes observations that are in time and belong together: time does
/// not go back, neither observation is from the future nor as old as its limit,
/// they are no farther apart than the skew allows, whichever is the later, and
/// neither goes back or leaves a gap. Frames, pose, quality and confidence are
/// as the configuration asks.
pub proof fn law_targets_take_timely_observations(m: Mission, c: Scene, i: Input)
    requires
        m.on(c, i).1.mission.output is Target,
    ensures
        ({
            let now = i.now.0;
            let pose = i.pose.captured_at.0;
            let road = i.road.captured_at.0;
            let limits = m.config;
            &&& m.standing.task.last_now matches Some(before) ==> before.0 <= now
            &&& pose <= now < pose + limits.max_pose_age_ms
            &&& road <= now < road + limits.max_road_age_ms
            &&& pose <= road + limits.max_observation_skew_ms
            &&& road <= pose + limits.max_observation_skew_ms
            &&& m.last_pose matches Some(before) ==> before.captured_at.0 <= pose
                <= before.captured_at.0 + limits.max_pose_gap_ms
            &&& m.last_road matches Some(before) ==> before.captured_at.0 <= road
                <= before.captured_at.0 + limits.max_road_gap_ms
            &&& i.pose.frame_id@ == limits.world_frame@ && i.world_frame == limits.world_frame@
            &&& i.road.frame == limits.body_frame@ && i.body_frame == limits.body_frame@
            &&& i.pose.pose.x_m.finite() && i.pose.pose.y_m.finite()
                && i.pose.pose.yaw_rad.finite()
            &&& i.pose.speed_mps.finite() && i.pose.yaw_rate_radps.finite()
            &&& limits.min_pose_quality.le(i.pose.quality) && i.pose.quality.le(Binary64::of(ONE))
            &&& Binary64::of(ZERO).le(i.road.light_confidence) && i.road.light_confidence.le(
                Binary64::of(ONE),
            )
            &&& !(m.standing.task.phase is Completed) && !(m.standing.task.phase is Fault)
        }),
{
}

/// The way searched adds up over the distances between new poses, as long as no
/// element is found; a pose that is not new adds nothing, and neither does one
/// while an element is found. The heading at the start is that of the first
/// pose and stays.
pub proof fn law_the_way_searched_adds_up(m: Mission, c: Scene, now: Timestamp, pose: PoseEstimate)
    ensures
        ({
            let before = m.standing.task;
            let after = m.noted(c, now, pose);
            let last = m.last_pose->0;
            let way = (c.math)(
                Elementary::Length {
                    x: pose.pose.x_m.minus(last.pose.x_m),
                    y: pose.pose.y_m.minus(last.pose.y_m),
                },
            );
            let counts = before.active is None && m.last_pose is Some && last.captured_at.0
                < pose.captured_at.0;
            &&& counts ==> after.search_distance == before.search_distance.plus(way)
            &&& !counts ==> after.search_distance == before.search_distance
            &&& before.initial_heading is Some ==> after.initial_heading == before.initial_heading
            &&& before.initial_heading is None ==> after.initial_heading == Some(
                wrap(pose.pose.yaw_rad),
            )
            &&& after.last_now == Some(now)
            &&& after.phase == before.phase && after.active == before.active
        }),
{
}

/// Before the crosswalk has been stopped at, travel ends at its near edge, less
/// its error. Up to the finish it ends at the far edge of the stop region, less
/// that region's error. There is no other end of travel.
pub proof fn law_travel_ends_at_the_edge_ahead(c: Scene, t: Task)
    ensures
        ({
            let crosswalk = t.phase is ApproachCrosswalk || t.phase is CrosswalkStop;
            let finish = t.phase is Finish || t.phase is Completed;
            let track = if crosswalk && t.active_geometry is Some {
                t.active_geometry
            } else if !finish {
                t.light
            } else {
                None
            };
            match c.boundary(t) {
                None => track is None || c.edge(
                    track->0,
                    !(crosswalk && t.active_geometry is Some),
                ) is Err,
                Some(edge) => {
                    let region = track->0;
                    let depth = region.geometry->depth_m;
                    let error = region.position_error_m.plus(
                        (c.math)(
                            Elementary::Length {
                                x: depth,
                                y: region.geometry->lateral_half_width_m,
                            },
                        ).times(region.heading_error_rad),
                    );
                    &&& track is Some && region.geometry is LineRegion
                    &&& edge.origin == region.position
                    &&& Some(edge.heading_rad) == region.heading_rad
                    &&& crosswalk && t.active_geometry is Some ==> edge.max_projection_m
                        == Binary64::of(ZERO).minus(error)
                    &&& !(crosswalk && t.active_geometry is Some) ==> edge.max_projection_m
                        == depth.minus(error)
                },
            }
        }),
{
    reveal(Scene::boundary);
}

} // verus!
