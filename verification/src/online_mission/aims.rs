//! What the mission aims at, in terms of what it sees.
use super::scene::Scene;
use super::{OnlineBehavior, Task};
use crate::autonomy::{Point2, Pose2};
use crate::binary64::values::{
    HALF, ONE, PI, QUARTER, SIX, THREE_QUARTERS, TWELVE, TWO, ZERO,
};
use crate::binary64::Binary64;
use crate::elementary::Elementary;
use crate::local_world::{Space, SpaceState};
use crate::mission::{ArrivalBehavior, MissionOutput};
use vstd::prelude::*;

verus! {

/// The point that lies a part of the search horizon from another one in a
/// direction.
pub open spec fn ahead(c: Scene, from: Point2, part: u64, direction: Binary64) -> Point2 {
    let length = c.limits.search_horizon_m.times(Binary64::of(part));
    Point2 {
        x_m: from.x_m.plus(length.times((c.math)(Elementary::Cosine(direction)))),
        y_m: from.y_m.plus(length.times((c.math)(Elementary::Sine(direction)))),
    }
}

/// Whether the way to a part of the search horizon in a direction is known to
/// be free for the body: the disc round it, with the clearance.
pub open spec fn clear(c: Scene, from: Point2, part: u64, direction: Binary64) -> bool {
    let body = c.limits.footprint;
    (c.space)(
        Space::Segment {
            from,
            to: ahead(c, from, part, direction),
            padding_m: (c.math)(
                Elementary::Length { x: body.front_m.max(body.rear_m), y: body.half_width_m },
            ).plus(c.limits.clearance_m),
        },
    ) == SpaceState::KnownFree
}

/// Whether a point is the farthest of the whole, three quarters, half and a
/// quarter of the horizon in a direction to which the way is known free.
pub open spec fn farthest(c: Scene, from: Point2, direction: Binary64, point: Point2) -> bool {
    if clear(c, from, ONE, direction) {
        point == ahead(c, from, ONE, direction)
    } else if clear(c, from, THREE_QUARTERS, direction) {
        point == ahead(c, from, THREE_QUARTERS, direction)
    } else if clear(c, from, HALF, direction) {
        point == ahead(c, from, HALF, direction)
    } else {
        clear(c, from, QUARTER, direction) && point == ahead(c, from, QUARTER, direction)
    }
}

/// Whether no part of the horizon in a direction is known free.
pub open spec fn blocked(c: Scene, from: Point2, direction: Binary64) -> bool {
    !clear(c, from, ONE, direction) && !clear(c, from, THREE_QUARTERS, direction) && !clear(
        c,
        from,
        HALF,
        direction,
    ) && !clear(c, from, QUARTER, direction)
}

proof fn lemma_reachable(c: Scene, from: Point2, direction: Binary64)
    ensures
        match c.reachable(from, direction, 0) {
            None => blocked(c, from, direction),
            Some(point) => farthest(c, from, direction, point),
        },
{
    reveal_with_fuel(Scene::reachable, 5);
}

/// Where a goal lies beyond the horizon, which is twice as far for a goal with
/// a heading, the target is on the way to it: the position plus a part of the
/// horizon in the direction of the goal less the position, the farthest part
/// that is known free. The bearing asked of the host is that of the goal less
/// the position. The target is driven to at the speed of an approach, to stop
/// there, and it is withheld only where no part is known free.
pub proof fn law_far_goals_are_approached_along_their_bearing(
    c: Scene,
    pose: Pose2,
    goal: Point2,
    heading: Option<Binary64>,
    continuation: Option<(Point2, Binary64)>,
    approach: bool,
    behavior: OnlineBehavior,
    reason: Seq<char>,
)
    requires
        ({
            let distance = (c.math)(
                Elementary::Length {
                    x: pose.x_m.minus(goal.x_m),
                    y: pose.y_m.minus(goal.y_m),
                },
            );
            &&& heading is None ==> c.limits.search_horizon_m.times(Binary64::of(ONE)).lt(distance)
            &&& heading is Some ==> c.limits.search_horizon_m.times(Binary64::of(TWO)).lt(distance)
        }),
    ensures
        ({
            let draft = c.local_target(
                pose,
                goal,
                heading,
                continuation,
                approach,
                behavior,
                reason,
            );
            let from = Point2 { x_m: pose.x_m, y_m: pose.y_m };
            let bearing = (c.math)(
                Elementary::Bearing {
                    y: goal.y_m.minus(pose.y_m),
                    x: goal.x_m.minus(pose.x_m),
                },
            );
            match draft.output {
                MissionOutput::Target { point, max_speed_mps, arrival } => {
                    &&& farthest(c, from, bearing, point)
                    &&& max_speed_mps == c.limits.approach_speed_mps
                    &&& arrival == ArrivalBehavior::Stop
                    &&& draft.heading is None
                    &&& draft.behavior == behavior
                    &&& draft.reason == reason
                },
                _ => blocked(c, from, bearing) && draft.output is Stop,
            }
        }),
{
    reveal(Scene::local_target);
    let bearing = (c.math)(
        Elementary::Bearing { y: goal.y_m.minus(pose.y_m), x: goal.x_m.minus(pose.x_m) },
    );
    lemma_reachable(c, pose.point(), bearing);
}

/// A goal within the horizon is the target itself, with its heading, where the
/// body there is known to be in free space: the body at the heading, or the
/// disc round it where there is none. It is driven to at the speed of an
/// approach or at that of a cruise. It is passed through only on to another
/// point to which the way is known free, and otherwise stopped at.
pub proof fn law_near_goals_are_the_target(
    c: Scene,
    pose: Pose2,
    goal: Point2,
    heading: Option<Binary64>,
    continuation: Option<(Point2, Binary64)>,
    approach: bool,
    behavior: OnlineBehavior,
    reason: Seq<char>,
)
    requires
        ({
            let distance = (c.math)(
                Elementary::Length {
                    x: pose.x_m.minus(goal.x_m),
                    y: pose.y_m.minus(goal.y_m),
                },
            );
            &&& heading is None ==> !c.limits.search_horizon_m.times(Binary64::of(ONE)).lt(distance)
            &&& heading is Some ==> !c.limits.search_horizon_m.times(Binary64::of(TWO)).lt(distance)
        }),
    ensures
        ({
            let draft = c.local_target(
                pose,
                goal,
                heading,
                continuation,
                approach,
                behavior,
                reason,
            );
            let body = c.limits.footprint;
            let padding = (c.math)(
                Elementary::Length { x: body.front_m.max(body.rear_m), y: body.half_width_m },
            ).plus(c.limits.clearance_m);
            let room = match heading {
                None => (c.space)(Space::Segment { from: goal, to: goal, padding_m: padding }),
                Some(yaw_rad) => (c.space)(
                    Space::Body {
                        body: body.outline(
                            c.math,
                            Pose2 { x_m: goal.x_m, y_m: goal.y_m, yaw_rad },
                        ),
                        padding_m: c.limits.clearance_m,
                    },
                ),
            };
            let speed = if approach {
                c.limits.approach_speed_mps
            } else {
                c.limits.cruise_speed_mps
            };
            match draft.output {
                MissionOutput::Target { point, max_speed_mps, arrival } => {
                    &&& room == SpaceState::KnownFree
                    &&& point == goal
                    &&& max_speed_mps == speed
                    &&& draft.heading == heading
                    &&& match arrival {
                        ArrivalBehavior::PassThrough {
                            next,
                            next_heading_rad,
                            next_max_speed_mps,
                            admission_radius_m,
                        } => {
                            &&& continuation is Some
                            &&& next == (continuation->0).0
                            &&& next_heading_rad == Some((continuation->0).1)
                            &&& next_max_speed_mps == speed
                            &&& admission_radius_m == c.limits.goal_tolerance_m
                            &&& !(next.x_m.same(goal.x_m) && next.y_m.same(goal.y_m))
                            &&& (c.space)(
                                Space::Segment { from: goal, to: next, padding_m: padding },
                            ) == SpaceState::KnownFree
                        },
                        ArrivalBehavior::Stop => continuation matches Some((next, _)) ==> (
                        next.x_m.same(goal.x_m) && next.y_m.same(goal.y_m)) || (c.space)(
                            Space::Segment { from: goal, to: next, padding_m: padding },
                        ) != SpaceState::KnownFree,
                    }
                },
                _ => room != SpaceState::KnownFree && draft.output is Stop,
            }
        }),
{
    reveal(Scene::local_target);
}

/// A search goes along the direction of departure, as far as the way is known
/// free, at the speed of an approach, to stop there. Before the first cone it
/// goes a sixth of a half-turn to the left of that where it can, or a twelfth,
/// and only then ahead. It stops only where all of these are blocked.
pub proof fn law_searches_go_ahead_and_first_to_the_left(c: Scene, t: Task, pose: Pose2)
    ensures
        ({
            let draft = c.exploration(t, pose);
            let from = Point2 { x_m: pose.x_m, y_m: pose.y_m };
            let departure = t.outlook();
            let left = departure.plus(Binary64::of(PI).over(Binary64::of(SIX)));
            let half_left = departure.plus(Binary64::of(PI).over(Binary64::of(TWELVE)));
            let straight = departure.plus(Binary64::of(ZERO));
            let first = t.phase is Cones && t.active is None && t.cone_index == 0;
            match draft.output {
                MissionOutput::Target { point, max_speed_mps, arrival } => {
                    &&& max_speed_mps == c.limits.approach_speed_mps
                    &&& arrival == ArrivalBehavior::Stop
                    &&& draft.behavior == OnlineBehavior::Search
                    &&& if first && !blocked(c, from, left) {
                        farthest(c, from, left, point) && draft.heading is None
                    } else if first && !blocked(c, from, half_left) {
                        farthest(c, from, half_left, point) && draft.heading is None
                    } else {
                        farthest(c, from, straight, point) && draft.heading == Some(departure)
                    }
                },
                _ => {
                    &&& draft.output is Stop
                    &&& blocked(c, from, straight)
                    &&& first ==> blocked(c, from, left) && blocked(c, from, half_left)
                },
            }
        }),
{
    reveal(Scene::exploration);
    let from = pose.point();
    let departure = t.outlook();
    lemma_reachable(c, from, departure.plus(Binary64::of(PI).over(Binary64::of(SIX))));
    lemma_reachable(c, from, departure.plus(Binary64::of(PI).over(Binary64::of(TWELVE))));
    lemma_reachable(c, from, departure.plus(Binary64::of(ZERO)));
}

} // verus!
