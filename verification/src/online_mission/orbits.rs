//! How cones are passed, in terms of what is seen of them.
use super::cones::Bend;
use super::scene::Scene;
use super::targets::Arc;
use super::{wrap, OnlineBehavior, Orbit, Task};
use crate::autonomy::{Point2, Pose2, PoseEstimate};
use crate::binary64::signs;
use crate::binary64::values::{FOUR, HALF_PI, ONE, PI, SEVEN_TENTHS, TWO, ZERO};
use crate::binary64::Binary64;
use crate::elementary::Elementary;
use crate::local_world::{ElementTrack, SpaceState};
use vstd::prelude::*;

verus! {

/// The smallest radius of a half-turn leaves room for the cone, half the body,
/// the clearance and the error of the position, and is none that the steering
/// cannot follow.
pub proof fn law_half_turns_leave_room(
    c: Scene,
    t: Task,
    pose: Pose2,
    track: ElementTrack,
    cone_radius_m: Binary64,
)
    ensures
        ({
            let b = c.bend(t, pose, track, cone_radius_m);
            let room = cone_radius_m.plus(c.limits.footprint.half_width_m).plus(
                c.limits.clearance_m,
            ).plus(track.position_error_m);
            let sharpest = Binary64::of(ONE).over(c.limits.max_curvature_per_m);
            &&& b.center == track.position && b.error_m == track.position_error_m
            &&& b.cone_radius_m == cone_radius_m
            &&& room.nan() || room.le(b.minimum_radius)
            &&& sharpest.nan() || sharpest.le(b.minimum_radius)
            &&& b.minimum_radius == room || b.minimum_radius == sharpest
        }),
{
}

/// The first cone is passed counterclockwise and the second one clockwise, both
/// from the right of the initial heading: the second half-turn enters in the
/// direction in which the first one leaves, and leaves in that in which it
/// enters. The tangent points a quarter turn on from the angle, in the
/// direction of travel.
pub proof fn law_half_turns_alternate(
    c: Scene,
    t: Task,
    u: Task,
    pose: Pose2,
    track: ElementTrack,
    cone_radius_m: Binary64,
    progress: Binary64,
)
    requires
        t.cone_index == 0,
        u.cone_index == 1,
        t.initial_heading == u.initial_heading,
    ensures
        ({
            let a = c.bend(t, pose, track, cone_radius_m);
            let b = c.bend(u, pose, track, cone_radius_m);
            &&& a.direction == Binary64::of(ONE) && b.direction == Binary64::of(ONE).negated()
            &&& a.entry_heading == b.exit_heading && a.exit_heading == b.entry_heading
            &&& a.entry_angle == b.entry_angle && a.axis == b.axis
            &&& t.initial_heading matches Some(heading) ==> a.axis == heading
            &&& a.entry_angle == a.axis.minus(Binary64::of(HALF_PI))
            &&& a.exit_heading == wrap(a.axis.plus(Binary64::of(PI)))
            &&& a.entry_heading == wrap(a.axis.plus(Binary64::of(ZERO)))
            &&& progress.finite() ==> a.at(progress) == a.entry_angle.plus(progress) && b.at(
                progress,
            ) == a.entry_angle.minus(progress)
            &&& a.tangent(progress) == wrap(progress.plus(Binary64::of(HALF_PI)))
            &&& b.tangent(progress) == wrap(progress.minus(Binary64::of(HALF_PI)))
        }),
{
    let one = Binary64::of(ONE);
    signs::law_zero_and_one(Binary64::of(HALF_PI));
    signs::law_products_are_mirrored(one, Binary64::of(HALF_PI));
    if progress.finite() {
        signs::law_zero_and_one(progress);
        signs::law_products_are_mirrored(one, progress);
    }
}

/// The radius that is so many quarters of the way from the upper one to the
/// smallest one.
pub open spec fn narrowed(b: Bend, upper: Binary64, quarters: u64) -> Binary64 {
    upper.minus(
        upper.minus(b.minimum_radius).times(Binary64::from_natural(quarters)).over(
            Binary64::of(FOUR),
        ),
    )
}

/// Whether an obstacle is seen on the opening arc of a radius, which starts at
/// the entrance and goes in the direction of travel over two lookaheads, a
/// quarter turn at most.
#[verifier::opaque]
pub open spec fn obstructed(c: Scene, b: Bend, radius: Binary64) -> bool {
    c.arc_state(
        Arc {
            center: b.center,
            radius,
            start: b.entry_angle,
            sweep: b.direction.times(
                Binary64::of(TWO).times(c.limits.arc_lookahead_rad).min(Binary64::of(HALF_PI)),
            ),
        },
    ) == SpaceState::Obstacle
}

proof fn lemma_one_radius(c: Scene, b: Bend, upper: Binary64, step: nat)
    requires
        step < 5,
    ensures
        c.fitting_radius(b, upper, step) == (if !obstructed(c, b, narrowed(b, upper, step as u64)) {
            Some(narrowed(b, upper, step as u64))
        } else {
            c.fitting_radius(b, upper, step + 1)
        }),
{
    reveal(obstructed);
}

/// The radii that are tried go from the upper one down to the smallest one, and
/// the one taken is the first whose opening arc meets no obstacle.
pub proof fn law_the_widest_fitting_radius_is_taken(c: Scene, b: Bend, upper: Binary64)
    ensures
        match c.fitting_radius(b, upper, 0) {
            Some(radius) => {
                ||| radius == narrowed(b, upper, 0) && !obstructed(c, b, narrowed(b, upper, 0))
                ||| radius == narrowed(b, upper, 1) && !obstructed(c, b, narrowed(b, upper, 1))
                    && obstructed(c, b, narrowed(b, upper, 0))
                ||| radius == narrowed(b, upper, 2) && !obstructed(c, b, narrowed(b, upper, 2))
                    && obstructed(c, b, narrowed(b, upper, 1))
                ||| radius == narrowed(b, upper, 3) && !obstructed(c, b, narrowed(b, upper, 3))
                    && obstructed(c, b, narrowed(b, upper, 2))
                ||| radius == narrowed(b, upper, 4) && !obstructed(c, b, narrowed(b, upper, 4))
                    && obstructed(c, b, narrowed(b, upper, 3))
            },
            None => obstructed(c, b, narrowed(b, upper, 0)) && obstructed(
                c,
                b,
                narrowed(b, upper, 4),
            ),
        },
{
    lemma_one_radius(c, b, upper, 0);
    lemma_one_radius(c, b, upper, 1);
    lemma_one_radius(c, b, upper, 2);
    lemma_one_radius(c, b, upper, 3);
    lemma_one_radius(c, b, upper, 4);
}

/// Progress is what the bearing from the center turns, counted positive in the
/// direction of travel, so that the same way counts the opposite in the
/// opposite direction. It stays between nothing and half a turn. The outer side
/// has been seen for good once the body is beyond the center, in the direction
/// of travel, by seven tenths of the radius and the error.
pub proof fn law_progress_is_the_turn_about_the_center(
    c: Scene,
    pose: Pose2,
    a: Bend,
    b: Bend,
    o: Orbit,
)
    requires
        a.direction == Binary64::of(ONE),
        b == (Bend { direction: Binary64::of(ONE).negated(), ..a }),
        !c.advance(pose, a, o).nan(),
    ensures
        ({
            let now = (c.math)(
                Elementary::Bearing {
                    y: pose.y_m.minus(a.center.y_m),
                    x: pose.x_m.minus(a.center.x_m),
                },
            );
            let before = (c.math)(
                Elementary::Bearing {
                    y: o.last_position.y_m.minus(a.center.y_m),
                    x: o.last_position.x_m.minus(a.center.x_m),
                },
            );
            let turned = wrap(now.minus(before));
            let after = c.progressed(pose, a, o);
            let along = pose.x_m.minus(a.center.x_m).times((c.math)(Elementary::Cosine(a.axis))).plus(
                pose.y_m.minus(a.center.y_m).times((c.math)(Elementary::Sine(a.axis))),
            );
            let side = o.radius_m.times(Binary64::of(SEVEN_TENTHS)).plus(a.error_m);
            &&& turned.finite() ==> c.advance(pose, a, o) == turned
            &&& c.advance(pose, b, o) == c.advance(pose, a, o).negated()
            &&& !after.progress_rad.lt(Binary64::of(ZERO))
            &&& !Binary64::of(PI).lt(after.progress_rad)
            &&& turned.finite() && Binary64::of(ZERO).le(o.progress_rad.plus(turned))
                && o.progress_rad.plus(turned).le(Binary64::of(PI)) ==> after.progress_rad
                == o.progress_rad.plus(turned)
            &&& after.last_position == (Point2 { x_m: pose.x_m, y_m: pose.y_m })
            &&& after.radius_m == o.radius_m
            &&& o.saw_outer_side ==> after.saw_outer_side
            &&& along.finite() && !o.saw_outer_side ==> (after.saw_outer_side <==> side.le(along))
            &&& along.finite() && !o.saw_outer_side ==> (c.progressed(pose, b, o).saw_outer_side
                <==> side.le(along.negated()))
        }),
{
    let one = Binary64::of(ONE);
    let turned = wrap(c.bearing(a, pose.point()).minus(c.bearing(a, o.last_position)));
    signs::law_products_are_mirrored(one, turned);
    if turned.finite() {
        signs::law_zero_and_one(turned);
    }
    let along = c.along(pose, a);
    assert(c.along(pose, b) == along);
    signs::law_products_are_mirrored(one, along);
    if along.finite() {
        signs::law_zero_and_one(along);
    }
}

/// A half-turn is done when the outer side has been seen, all but the tolerance
/// of half a turn is made, the body is behind the center again by the error,
/// against the direction of travel, and it is at the exit: on the circle half a
/// turn on from the entrance, and then by the error and twice the tolerance
/// along the exit heading.
pub proof fn law_half_turns_end_at_the_exit(c: Scene, pose: Pose2, b: Bend, o: Orbit)
    requires
        c.passed(pose, b, o),
    ensures
        ({
            let end = b.entry_angle.plus(b.direction.times(Binary64::of(PI)));
            let reach = b.error_m.plus(Binary64::of(TWO).times(c.limits.goal_tolerance_m));
            let exit = Point2 {
                x_m: b.center.x_m.plus(o.radius_m.times((c.math)(Elementary::Cosine(end)))).plus(
                    reach.times((c.math)(Elementary::Cosine(b.exit_heading))),
                ),
                y_m: b.center.y_m.plus(o.radius_m.times((c.math)(Elementary::Sine(end)))).plus(
                    reach.times((c.math)(Elementary::Sine(b.exit_heading))),
                ),
            };
            let along = pose.x_m.minus(b.center.x_m).times((c.math)(Elementary::Cosine(b.axis))).plus(
                pose.y_m.minus(b.center.y_m).times((c.math)(Elementary::Sine(b.axis))),
            );
            let off = wrap(pose.yaw_rad.minus(b.exit_heading));
            &&& o.saw_outer_side
            &&& Binary64::of(PI).minus(c.limits.goal_heading_tolerance_rad).le(o.progress_rad)
            &&& along.finite() && b.direction == Binary64::of(ONE) ==> b.error_m.le(
                along.negated(),
            )
            &&& along.finite() && b.direction == Binary64::of(ONE).negated() ==> b.error_m.le(along)
            &&& (c.math)(
                Elementary::Length {
                    x: pose.x_m.minus(exit.x_m),
                    y: pose.y_m.minus(exit.y_m),
                },
            ).le(c.limits.goal_tolerance_m)
            &&& off.le(c.limits.goal_heading_tolerance_rad)
            &&& off.negated().le(c.limits.goal_heading_tolerance_rad)
        }),
{
    let one = Binary64::of(ONE);
    let along = c.along(pose, b);
    signs::law_products_are_mirrored(one, along);
    signs::law_negation_mirrors(one, one);
    if along.finite() {
        signs::law_zero_and_one(along);
    }
}

/// On the half-turn the target is a lookahead on along the circle, with the
/// heading of the tangent there, or beyond its end the exit. The way on from it
/// is another lookahead along the circle, and from the exit a horizon along the
/// exit heading. The target is driven to as an approach unless the arc up to it
/// is known free.
pub proof fn law_half_turns_are_followed_in_short_arcs(c: Scene, pose: Pose2, b: Bend, o: Orbit)
    ensures
        ({
            let half = Binary64::of(PI);
            let progress = o.progress_rad.plus(c.limits.arc_lookahead_rad).min(half);
            let onward = progress.plus(c.limits.arc_lookahead_rad).min(half);
            let angle = b.entry_angle.plus(b.direction.times(progress));
            let later = b.entry_angle.plus(b.direction.times(onward));
            let quarter = b.direction.times(Binary64::of(HALF_PI));
            let exit = c.exit_goal(b, o);
            let arc = Arc {
                center: b.center,
                radius: o.radius_m,
                start: b.entry_angle.plus(b.direction.times(o.progress_rad)),
                sweep: b.direction.times(progress.minus(o.progress_rad)),
            };
            c.following(pose, b, o) == c.local_target(
                pose,
                if progress.same(half) {
                    exit
                } else {
                    from_center(c, b.center, o.radius_m, angle)
                },
                Some(wrap(angle.plus(quarter))),
                Some(
                    if progress.lt(onward) {
                        (
                            if onward.same(half) {
                                exit
                            } else {
                                from_center(c, b.center, o.radius_m, later)
                            },
                            wrap(later.plus(quarter)),
                        )
                    } else {
                        (
                            from_center(c, exit, c.limits.search_horizon_m, b.exit_heading),
                            b.exit_heading,
                        )
                    },
                ),
                c.arc_state(arc) != SpaceState::KnownFree,
                OnlineBehavior::OrbitCone,
                "following short arc about current tracked cone"@,
            )
        }),
{
}

/// The point at a distance from another one at an angle.
pub open spec fn from_center(c: Scene, center: Point2, radius: Binary64, angle: Binary64) -> Point2 {
    Point2 {
        x_m: center.x_m.plus(radius.times((c.math)(Elementary::Cosine(angle)))),
        y_m: center.y_m.plus(radius.times((c.math)(Elementary::Sine(angle)))),
    }
}

/// Before a half-turn is aligned the mission aims at the guide, a horizon before
/// the entrance against the heading of entry, and then at the entrance itself:
/// on the circle at the entry angle, with the heading of entry, and on from there
/// by a lookahead in the direction of travel. It is aligned where it was before,
/// or where it is on the tangent: not past the entrance, back from it by no more
/// than the horizon and the tolerance, and off it to neither side, nor turned to
/// either side, by more than the tolerances.
pub proof fn law_half_turns_are_entered_along_the_tangent(
    c: Scene,
    estimate: PoseEstimate,
    b: Bend,
    o: Orbit,
    first_approach: bool,
)
    ensures
        ({
            let (after, draft) = c.entering(estimate, b, o, first_approach);
            let entry = from_center(c, b.center, o.radius_m, b.entry_angle);
            let guide = from_center(
                c,
                entry,
                c.limits.search_horizon_m,
                b.entry_heading.plus(Binary64::of(PI)),
            );
            let pose = estimate.pose;
            let dx = pose.x_m.minus(entry.x_m);
            let dy = pose.y_m.minus(entry.y_m);
            let cos = (c.math)(Elementary::Cosine(b.entry_heading));
            let sin = (c.math)(Elementary::Sine(b.entry_heading));
            let along = dx.times(cos).plus(dy.times(sin));
            let across = dy.times(cos).minus(dx.times(sin));
            let off = wrap(pose.yaw_rad.minus(b.entry_heading));
            let tolerance = c.limits.goal_tolerance_m;
            let turn = c.limits.goal_heading_tolerance_rad;
            &&& after.radius_m == o.radius_m && after.entered == o.entered
            &&& !after.entry_aligned ==> draft == c.local_target(
                pose,
                guide,
                Some(b.entry_heading),
                None,
                true,
                OnlineBehavior::ConeEntry,
                "stopping on observed cone entrance tangent before entry"@,
            )
            &&& after.entry_aligned && !o.entry_aligned ==> {
                &&& along.le(Binary64::of(ZERO))
                &&& c.limits.search_horizon_m.negated().minus(tolerance).le(along)
                &&& across.le(tolerance) && across.negated().le(tolerance)
                &&& off.le(turn) && off.negated().le(turn)
                &&& first_approach || c.stopped(estimate)
            }
            &&& after.entry_aligned ==> {
                let lookahead = c.limits.arc_lookahead_rad;
                let aimed = c.local_target(
                    pose,
                    entry,
                    Some(b.entry_heading),
                    Some(
                        (
                            from_center(
                                c,
                                b.center,
                                o.radius_m,
                                b.entry_angle.plus(b.direction.times(lookahead)),
                            ),
                            wrap(b.entry_heading.plus(b.direction.times(lookahead))),
                        ),
                    ),
                    false,
                    OnlineBehavior::ConeEntry,
                    "approaching current tracked cone entrance"@,
                );
                &&& draft.output == aimed.output
                &&& draft.output is Target ==> draft.heading == Some(b.entry_heading)
            }
        }),
{
}

} // verus!
