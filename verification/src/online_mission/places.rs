//! Where the mission stops and is done, in terms of what it sees.
use super::scene::Scene;
use super::{frame, wrap, OnlineBehavior, ProcessedCone, Task};
use crate::autonomy::{HalfPlane, Point2, Pose2, PoseEstimate, Road};
use crate::binary64::laws;
use crate::binary64::signs;
use crate::binary64::values::{HALF, QUARTER_PI, TWO, ZERO};
use crate::binary64::Binary64;
use crate::elementary::Elementary;
use crate::local_world::{ElementKind, ElementTrack};
use crate::online_mission;
use crate::sensors::Timestamp;
use vstd::prelude::*;

verus! {

/// A body is at a place when it is within the tolerance of the point and
/// turned from the heading by no more than the tolerance to either side, and it
/// is stopped when what its speed and its turning move its outermost part by is
/// slow enough, forwards and backwards, to the left and to the right.
pub proof fn law_places_are_kept_to_all_sides(
    c: Scene,
    estimate: PoseEstimate,
    point: Point2,
    heading: Binary64,
)
    ensures
        ({
            let pose = estimate.pose;
            let off = wrap(pose.yaw_rad.minus(heading));
            let far = (c.math)(
                Elementary::Length {
                    x: pose.x_m.minus(point.x_m),
                    y: pose.y_m.minus(point.y_m),
                },
            );
            c.near(pose, point, heading) <==> {
                &&& far.le(c.limits.goal_tolerance_m)
                &&& off.le(c.limits.goal_heading_tolerance_rad)
                &&& off.negated().le(c.limits.goal_heading_tolerance_rad)
            }
        }),
        c.stopped(estimate) && estimate.speed_mps.finite() && estimate.yaw_rate_radps.finite()
            && c.body_radius().finite() && Binary64::of(ZERO).le(c.body_radius()) ==> ({
            let body = c.limits.footprint;
            let outermost = (c.math)(
                Elementary::Length { x: body.front_m.max(body.rear_m), y: body.half_width_m },
            );
            &&& estimate.speed_mps.le(c.limits.stopped_speed_mps)
            &&& estimate.speed_mps.negated().le(c.limits.stopped_speed_mps)
            &&& estimate.yaw_rate_radps.times(outermost).le(c.limits.stopped_speed_mps)
            &&& estimate.yaw_rate_radps.negated().times(outermost).le(c.limits.stopped_speed_mps)
        }),
{
    if c.stopped(estimate) && estimate.speed_mps.finite() && estimate.yaw_rate_radps.finite()
        && c.body_radius().finite() && Binary64::of(ZERO).le(c.body_radius()) {
        let v = estimate.speed_mps.abs();
        let w = estimate.yaw_rate_radps;
        let r = c.body_radius();
        let zero = Binary64::of(ZERO);
        let rim = w.abs().times(r);
        signs::law_products_follow_the_signs(w.abs(), r);
        signs::law_products_are_monotone(w, w.abs(), r);
        signs::law_products_are_monotone(w.negated(), w.abs(), r);
        if rim.finite() {
            laws::law_sums_are_monotone(zero, rim, v);
            laws::law_sums_are_monotone(zero, v, rim);
            signs::law_products_commute(zero, v);
            signs::law_products_commute(rim, v);
            signs::law_products_commute(rim, zero);
            signs::law_zero_adds_nothing(v, zero);
            signs::law_zero_adds_nothing(rim, zero);
        } else {
            reveal(Binary64::spec_plus);
        }
    }
}

/// A corner is inside a region when, as seen from its near edge along its
/// heading, it is behind that edge, before the far one and between both sides,
/// each by the region's own error.
pub proof fn law_regions_hold_the_whole_body(c: Scene, pose: Pose2, track: ElementTrack, k: int)
    requires
        c.inside_region(pose, track),
        0 <= k < 4,
    ensures
        track.geometry is LineRegion,
        ({
            let body = c.limits.footprint.outline(c.math, pose);
            let corner = if k == 0 {
                body.front_left
            } else if k == 1 {
                body.front_right
            } else if k == 2 {
                body.rear_right
            } else {
                body.rear_left
            };
            let heading = match track.heading_rad {
                Some(heading) => heading,
                None => Binary64::of(ZERO),
            };
            let dx = corner.x_m.minus(track.position.x_m);
            let dy = corner.y_m.minus(track.position.y_m);
            let cos = (c.math)(Elementary::Cosine(heading));
            let sin = (c.math)(Elementary::Sine(heading));
            let along = dx.times(cos).plus(dy.times(sin));
            let across = dy.times(cos).minus(dx.times(sin));
            let width = track.geometry->lateral_half_width_m;
            let depth = track.geometry->depth_m;
            let error = track.position_error_m.plus(
                (c.math)(Elementary::Length { x: depth, y: width }).times(
                    track.heading_error_rad,
                ),
            );
            &&& error.le(along)
            &&& along.le(depth.minus(error))
            &&& across.le(width.minus(error))
            &&& across.negated().le(width.minus(error))
        }),
{
}

/// The goal in a region has the region's heading and, with the body there, the
/// middle of the body in the middle of the region's depth: the front is as far
/// before the far edge as the rear is behind the near one, as seen from the
/// near edge. The whole body is inside, and narrower than the region.
pub proof fn law_region_goals_center_the_body(c: Scene, track: ElementTrack)
    requires
        c.region_goal(track) is Ok,
    ensures
        ({
            let (goal, heading) = c.region_goal(track)->Ok_0;
            let middle = (track.geometry->depth_m).plus(c.limits.footprint.rear_m).minus(
                c.limits.footprint.front_m,
            ).times(Binary64::of(HALF));
            let zero = Binary64::of(ZERO);
            let cos = (c.math)(Elementary::Cosine(heading));
            let sin = (c.math)(Elementary::Sine(heading));
            &&& track.geometry is LineRegion
            &&& track.heading_rad == Some(heading)
            &&& goal.x_m == track.position.x_m.plus(middle.times(cos).minus(zero.times(sin)))
            &&& goal.y_m == track.position.y_m.plus(middle.times(sin).plus(zero.times(cos)))
            &&& c.inside_region(Pose2 { x_m: goal.x_m, y_m: goal.y_m, yaw_rad: heading }, track)
            &&& !(track.geometry->lateral_half_width_m).le(c.limits.footprint.half_width_m)
        }),
{
}

/// The goal before a crosswalk lies behind its near edge, along its heading, by
/// the front of the body, the margin and the region's error.
pub proof fn law_crosswalk_goals_keep_the_front_behind_the_edge(c: Scene, track: ElementTrack)
    requires
        track.geometry is LineRegion,
        track.heading_rad is Some,
    ensures
        ({
            let goal = c.crosswalk_goal(track);
            let heading = track.heading_rad->0;
            let error = track.position_error_m.plus(
                (c.math)(
                    Elementary::Length {
                        x: track.geometry->depth_m,
                        y: track.geometry->lateral_half_width_m,
                    },
                ).times(track.heading_error_rad),
            );
            let back = c.limits.footprint.front_m.negated().minus(
                c.limits.crosswalk_stop_margin_m,
            ).minus(error);
            let zero = Binary64::of(ZERO);
            let cos = (c.math)(Elementary::Cosine(heading));
            let sin = (c.math)(Elementary::Sine(heading));
            &&& goal.x_m == track.position.x_m.plus(back.times(cos).minus(zero.times(sin)))
            &&& goal.y_m == track.position.y_m.plus(back.times(sin).plus(zero.times(cos)))
            &&& zero.lt(c.limits.footprint.front_m) && zero.le(c.limits.crosswalk_stop_margin_m)
                && zero.le(error) && !back.nan() ==> back.le(zero)
        }),
{
    let zero = Binary64::of(ZERO);
    let error = online_mission::region_margin(c.math, track);
    let front = c.limits.footprint.front_m.negated();
    let margin = c.limits.crosswalk_stop_margin_m;
    let back = front.minus(margin);
    if back.nan() {
        laws::law_nan_propagates(back, error);
    }
    if zero.lt(c.limits.footprint.front_m) && zero.le(margin) && zero.le(error) && !back.nan() {
        signs::law_sums_keep_a_common_sign(front, margin.negated());
        signs::law_sums_keep_a_common_sign(back, error.negated());
    }
}

/// The edge up to which a body may travel starts at the region and goes along
/// its heading: to its near edge, or to its far one, less the region's error.
/// It counts beside the region for all of its corners, widened by that error.
pub proof fn law_edges_are_drawn_in_by_the_error(c: Scene, track: ElementTrack, far: bool)
    requires
        c.edge(track, far) is Ok,
    ensures
        ({
            let edge = c.edge(track, far)->Ok_0;
            let width = track.geometry->lateral_half_width_m;
            let depth = track.geometry->depth_m;
            let zero = Binary64::of(ZERO);
            let error = track.position_error_m.plus(
                (c.math)(Elementary::Length { x: depth, y: width }).times(
                    track.heading_error_rad,
                ),
            );
            let wide = width.plus(error);
            let near_right = frame(track).placed(
                c.math,
                Point2 { x_m: zero, y_m: wide.negated() },
            );
            let near_left = frame(track).placed(c.math, Point2 { x_m: zero, y_m: wide });
            let far_right = frame(track).placed(
                c.math,
                Point2 { x_m: depth, y_m: wide.negated() },
            );
            let far_left = frame(track).placed(c.math, Point2 { x_m: depth, y_m: wide });
            &&& track.geometry is LineRegion
            &&& edge.origin == track.position
            &&& Some(edge.heading_rad) == track.heading_rad
            &&& far ==> edge.max_projection_m == depth.minus(error)
            &&& !far ==> edge.max_projection_m == zero.minus(error)
            &&& (c.flaw)(edge) is None
            &&& holds(edge, near_right) && holds(edge, near_left)
            &&& holds(edge, far_right) && holds(edge, far_left)
        }),
{
}

/// Whether a half-plane counts beside a point, where that is a number.
pub open spec fn holds(edge: HalfPlane, p: Point2) -> bool {
    &&& p.x_m.nan() || (edge.region.min_x_m.le(p.x_m) && p.x_m.le(edge.region.max_x_m))
    &&& p.y_m.nan() || (edge.region.min_y_m.le(p.y_m) && p.y_m.le(edge.region.max_y_m))
}

/// A light is past only when the rearmost part of the body is beyond the far
/// edge by the region's error: beyond the edge drawn in, by twice the error.
pub proof fn law_lights_are_cleared_by_the_rear(c: Scene, pose: Pose2, light: ElementTrack)
    requires
        c.edge(light, true) is Ok,
    ensures
        ({
            let edge = c.edge(light, true)->Ok_0;
            let error = light.position_error_m.plus(
                (c.math)(
                    Elementary::Length {
                        x: light.geometry->depth_m,
                        y: light.geometry->lateral_half_width_m,
                    },
                ).times(light.heading_error_rad),
            );
            let rear = (c.stance)(edge, c.limits.footprint, pose).rear_m;
            c.clears(pose, light, edge) <==> (light.geometry->depth_m).minus(error).plus(
                Binary64::of(TWO).times(error),
            ).lt(rear)
        }),
{
}

/// The chosen element is of the kind asked for, not yet processed and seen with
/// confidence. A cone has the required color, is ahead by more than the
/// tolerance, is at most as far to either side as ahead and, if it is the first
/// one, not to the right beyond its error; it is none of the cones passed. A
/// region is not behind by more than the horizon and turned from the direction
/// of departure by no more than a quarter of a half-turn to either side.
pub proof fn law_chosen_elements_lie_ahead(
    c: Scene,
    t: Task,
    pose: Pose2,
    kind: ElementKind,
    n: nat,
)
    requires
        n <= c.tracks.len(),
    ensures
        c.selected(t, pose, kind, n) matches Some(track) ==> ({
            let departure = t.outlook();
            let dx = track.position.x_m.minus(pose.x_m);
            let dy = track.position.y_m.minus(pose.y_m);
            let cos = (c.math)(Elementary::Cosine(departure));
            let sin = (c.math)(Elementary::Sine(departure));
            let forward = dx.times(cos).plus(dy.times(sin));
            let left = dy.times(cos).minus(dx.times(sin));
            &&& c.tracks.contains(track)
            &&& track.kind == kind && !track.processed
            &&& c.limits.min_detection_confidence.le(track.confidence)
            &&& kind is Cone ==> {
                let color = c.limits.required_cone_colors@[if t.cone_index == 0 {
                    0
                } else {
                    1
                }];
                &&& color matches Some(color) ==> track.color == color
                &&& c.limits.goal_tolerance_m.lt(forward)
                &&& left.le(forward) && left.negated().le(forward)
                &&& t.cone_index != 1 ==> track.position_error_m.negated().le(left)
                &&& t.processed.0 matches Some(cone) ==> away(c, cone, track)
                &&& t.processed.1 matches Some(cone) ==> away(c, cone, track)
            }
            &&& !(kind is Cone) ==> {
                let off = wrap((track.heading_rad->0).minus(departure));
                &&& track.heading_rad is Some
                &&& c.limits.search_horizon_m.negated().le(forward)
                &&& off.le(Binary64::of(QUARTER_PI)) && off.negated().le(Binary64::of(QUARTER_PI))
            }
        }),
    decreases n,
{
    if n > 0 {
        law_chosen_elements_lie_ahead(c, t, pose, kind, (n - 1) as nat);
        assert(c.tracks.contains(c.tracks[n - 1]));
    }
}

/// Whether a track is farther from a cone passed than the exclusion and twice
/// the cone's radius reach, with the errors of both.
pub open spec fn away(c: Scene, cone: ProcessedCone, track: ElementTrack) -> bool {
    let reach = c.limits.processed_exclusion_m.max(cone.radius_m.times(Binary64::of(TWO)));
    !(c.math)(
        Elementary::Length {
            x: cone.position.x_m.minus(track.position.x_m),
            y: cone.position.y_m.minus(track.position.y_m),
        },
    ).le(reach.plus(cone.position_error_m).plus(track.position_error_m))
}

/// On the way to the crosswalk, to the light and to the finish the mission aims
/// at the goal before the crosswalk, or in the region, with the region's heading
/// and as an approach, with nothing beyond it.
pub proof fn law_regions_are_approached_at_their_goal(
    c: Scene,
    t: Task,
    now: Timestamp,
    estimate: PoseEstimate,
    road: Road,
    fresh: bool,
    fresh_road: bool,
    track: ElementTrack,
    heading: Binary64,
)
    ensures
        ({
            let (after, r) = c.before_crosswalk(t, estimate, fresh, track, heading);
            r matches Ok(draft) ==> (draft.output is Target ==> draft == c.local_target(
                estimate.pose,
                c.crosswalk_goal(track),
                Some(heading),
                None,
                true,
                OnlineBehavior::ApproachRegion,
                "approaching observed crosswalk"@,
            ) && after.phase is ApproachCrosswalk && after.stop_since is None
                && after.stop_elapsed_ms == 0)
        }),
        ({
            let (after, r) = c.at_region(t, now, estimate, road, fresh, fresh_road, track);
            let (goal, yaw) = c.region_goal(track)->Ok_0;
            r matches Ok(draft) ==> (draft.output is Target && !(c.halted(estimate, track))
                ==> c.region_goal(track) is Ok && draft == c.local_target(
                estimate.pose,
                goal,
                Some(yaw),
                None,
                true,
                OnlineBehavior::ApproachRegion,
                "approaching observed light stop region"@,
            ))
        }),
        ({
            let (after, r) = c.toward_finish(t, now, estimate);
            let found = c.acquired(t, estimate.pose, ElementKind::FinishMarker).1;
            let (goal, yaw) = c.region_goal(found->0)->Ok_0;
            r matches Ok(draft) ==> (found is Some && draft.output is Target ==> c.region_goal(
                found->0,
            ) is Ok && draft == c.local_target(
                estimate.pose,
                goal,
                Some(yaw),
                None,
                true,
                OnlineBehavior::ApproachRegion,
                "approaching observed finish region"@,
            ))
        }),
{
}

} // verus!
