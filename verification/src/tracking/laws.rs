//! What holds of the commands of the trackers.
use super::lqr;
use super::{LqrTracker, TrackInput, TrackingMode};
use crate::autonomy::Point2;
use crate::binary64::constants;
use crate::binary64::laws;
use crate::binary64::rounding;
use crate::binary64::signs;
use crate::binary64::values::{HALF, ONE, QUARTER, TRILLIONTH, TWO, ZERO};
use crate::binary64::{Binary64, HIDDEN};
use crate::elementary::Elementary;
use crate::safety;
use vstd::arithmetic::power2::pow2;
use vstd::prelude::*;

verus! {

/// A command of pure pursuit has finite coordinates of its target in view, a
/// distance, and a limit that is not negative.
proof fn lemma_in_view(m: spec_fn(Elementary) -> Binary64, input: TrackInput<'_>)
    requires
        input.pure(m) is Ok,
    ensures
        ({
            let body = input.pose.seen(m, input.pure(m)->Ok_0.target);
            let squared = body.x_m.times(body.x_m).plus(body.y_m.times(body.y_m));
            &&& body.y_m.finite()
            &&& body.x_m.finite()
            &&& squared.finite()
            &&& Binary64::of(ZERO).lt(squared)
            &&& Binary64::of(ZERO).le(input.max_curvature_per_m)
        }),
{
    let body = input.pose.seen(m, input.pure(m)->Ok_0.target);
    let x = body.x_m.times(body.x_m);
    let y = body.y_m.times(body.y_m);
    let squared = x.plus(y);
    laws::law_infinite_sum(x, y);
    reveal(Binary64::spec_times);
    if squared.nan() {
        laws::law_nan_propagates(squared, squared);
    }
    assert(!squared.le(Binary64::of(TRILLIONTH)));
}

/// Pure pursuit turns towards its target: to no right where the target is seen
/// on the left, and to no left where it is seen on the right.
pub proof fn law_pursuit_turns_towards_its_target(
    m: spec_fn(Elementary) -> Binary64,
    input: TrackInput<'_>,
)
    requires
        input.pure(m) is Ok,
    ensures
        ({
            let command = input.pure(m)->Ok_0;
            let dx = command.target.x_m.minus(input.pose.x_m);
            let dy = command.target.y_m.minus(input.pose.y_m);
            let lateral = dy.times(m(Elementary::Cosine(input.pose.yaw_rad))).minus(
                dx.times(m(Elementary::Sine(input.pose.yaw_rad))),
            );
            &&& Binary64::of(ZERO).le(lateral) ==> Binary64::of(ZERO).le(command.curvature_per_m)
            &&& lateral.le(Binary64::of(ZERO)) ==> command.curvature_per_m.le(Binary64::of(ZERO))
        }),
{
    lemma_in_view(m, input);
    let body = input.pose.seen(m, input.pure(m)->Ok_0.target);
    let squared = body.x_m.times(body.x_m).plus(body.y_m.times(body.y_m));
    let twice = Binary64::of(TWO).times(body.y_m);
    let curvature = twice.over(squared);
    signs::law_products_take_their_sign(Binary64::of(TWO), body.y_m);
    signs::law_products_take_their_sign(twice, squared);
    signs::law_clamping_is_mirrored(curvature, input.max_curvature_per_m);
    if body.y_m.zero() {
        signs::law_zero_makes_zero(Binary64::of(TWO), body.y_m);
        signs::law_zero_parts_are_zero(twice, squared);
    }
    if twice.nan() {
        laws::law_nan_propagates(twice, squared);
    }
}

/// Two targets that are seen as far ahead, one as far on the left as the other
/// one on the right, get opposite commands of pure pursuit within one limit.
pub proof fn law_mirrored_targets_get_opposite_commands(
    m: spec_fn(Elementary) -> Binary64,
    a: TrackInput<'_>,
    b: TrackInput<'_>,
)
    requires
        a.pure(m) is Ok,
        b.pure(m) is Ok,
        a.max_curvature_per_m == b.max_curvature_per_m,
        ({
            let p = a.pose.seen(m, a.pure(m)->Ok_0.target);
            let q = b.pose.seen(m, b.pure(m)->Ok_0.target);
            p.x_m == q.x_m && q.y_m == p.y_m.negated()
        }),
    ensures
        b.pure(m)->Ok_0.curvature_per_m == a.pure(m)->Ok_0.curvature_per_m.negated(),
{
    lemma_in_view(m, a);
    let p = a.pose.seen(m, a.pure(m)->Ok_0.target);
    let squared = p.x_m.times(p.x_m).plus(p.y_m.times(p.y_m));
    let twice = Binary64::of(TWO).times(p.y_m);
    signs::law_products_are_mirrored(p.y_m, p.y_m);
    signs::law_products_are_mirrored(Binary64::of(TWO), p.y_m);
    signs::law_products_are_mirrored(twice, squared);
    if twice.nan() {
        laws::law_nan_propagates(twice, squared);
    }
    signs::law_clamping_is_mirrored(twice.over(squared), a.max_curvature_per_m);
}

/// The curvature of pure pursuit is that of the arc which leaves along the
/// heading and passes through the target: twice the lateral distance over the
/// square of the distance, up to rounding, and up to the limit. With
/// magnitudes in units, a curvature below the limit lies within one part in
/// `2^53` of the exact quotient, or within half a unit, and one at the limit is
/// not above that.
pub proof fn law_pursuit_is_the_arc_through_its_target(
    m: spec_fn(Elementary) -> Binary64,
    input: TrackInput<'_>,
)
    requires
        input.pure(m) is Ok,
    ensures
        ({
            let command = input.pure(m)->Ok_0;
            let body = input.pose.seen(m, command.target);
            let squared = body.x_m.times(body.x_m).plus(body.y_m.times(body.y_m)).magnitude();
            let exact = 2 * body.y_m.magnitude() * pow2(1074);
            let scaled = command.curvature_per_m.magnitude() * squared;
            &&& command.curvature_per_m.pattern() <= input.max_curvature_per_m.pattern()
            &&& (2 * HIDDEN) * scaled <= (2 * HIDDEN + 1) * exact + HIDDEN * squared
            &&& command.curvature_per_m.pattern() < input.max_curvature_per_m.pattern() ==> (2
                * HIDDEN - 1) * exact <= (2 * HIDDEN) * scaled + HIDDEN * squared
        }),
{
    lemma_in_view(m, input);
    let body = input.pose.seen(m, input.pure(m)->Ok_0.target);
    let squared = body.x_m.times(body.x_m).plus(body.y_m.times(body.y_m));
    let twice = Binary64::of(TWO).times(body.y_m);
    let curvature = twice.over(squared);
    let command = input.pure(m)->Ok_0.curvature_per_m;
    if !twice.finite() {
        reveal(Binary64::spec_over);
        assert(false);
    }
    signs::law_doubling_is_exact(body.y_m);
    signs::law_quotients_are_near(twice, squared);
    signs::law_clamping_is_mirrored(curvature, input.max_curvature_per_m);
    if command.pattern() < curvature.pattern() {
        laws::lemma_magnitude_increases(command, curvature);
        let (c, d, s) = (command.magnitude(), curvature.magnitude(), squared.magnitude());
        assert((2 * HIDDEN) * (c * s) <= (2 * HIDDEN) * (d * s)) by (nonlinear_arith)
            requires c <= d;
    } else {
        assert(command.magnitude() == curvature.magnitude());
    }
}

/// The point at a distance along the path is the same from the next vertex on,
/// with the way to that vertex taken off the distance; on the straight way to
/// the vertex it is the part of it that the distance is of its length; and
/// behind the last vertex it is that vertex.
pub proof fn law_lookahead_is_a_distance_along_the_path(
    m: spec_fn(Elementary) -> Binary64,
    a: TrackInput<'_>,
    b: TrackInput<'_>,
)
    requires
        a.path@ == b.path@,
        a.progress + 1 < a.path@.len(),
        b.progress == a.progress + 1,
        b.pose.point() == a.path@[a.progress + 1],
        b.lookahead_m == a.lookahead_m.minus(
            m(
                Elementary::Length {
                    x: a.pose.x_m.minus(a.path@[a.progress + 1].x_m),
                    y: a.pose.y_m.minus(a.path@[a.progress + 1].y_m),
                },
            ),
        ),
    ensures
        ({
            let vertex = a.path@[a.progress + 1];
            let length = m(
                Elementary::Length {
                    x: a.pose.x_m.minus(vertex.x_m),
                    y: a.pose.y_m.minus(vertex.y_m),
                },
            );
            let part = a.lookahead_m.over(length);
            if a.lookahead_m.lt(length) {
                &&& a.target(m).x_m == a.pose.x_m.plus(
                    part.times(vertex.x_m.minus(a.pose.x_m)),
                )
                &&& a.target(m).y_m == a.pose.y_m.plus(
                    part.times(vertex.y_m.minus(a.pose.y_m)),
                )
            } else if a.progress + 2 < a.path@.len() {
                a.target(m) == b.target(m)
            } else {
                a.target(m) == a.path@.last()
            }
        }),
{
    let vertex = a.path@[a.progress + 1];
    let length = m(a.pose.point().separation(vertex));
    if !a.lookahead_m.lt(length) {
        lemma_one_path(m, a, b, a.progress + 2, vertex, a.lookahead_m.minus(length));
    }
}

/// What lies at a distance along the path depends on the path alone.
proof fn lemma_one_path(
    m: spec_fn(Elementary) -> Binary64,
    a: TrackInput<'_>,
    b: TrackInput<'_>,
    i: int,
    previous: Point2,
    remaining: Binary64,
)
    requires
        a.path@ == b.path@,
    ensures
        a.lookahead(m, i, previous, remaining) == b.lookahead(m, i, previous, remaining),
    decreases a.path@.len() - i,
{
    if i < a.path@.len() {
        let point = a.path@[i];
        let length = m(previous.separation(point));
        lemma_one_path(m, a, b, i + 1, point, remaining.minus(length));
    }
}

/// With gains that are positive the feedback opposes the errors: on a path that
/// does not bend to the left, a vehicle that is not right of it and not turned
/// to the right of it is steered to no left, and mirrored. What is tracked lies
/// within the envelope on both sides.
pub proof fn law_feedback_opposes_the_errors(
    m: spec_fn(Elementary) -> Binary64,
    tracker: LqrTracker,
    input: TrackInput<'_>,
)
    requires
        safety::positive(tracker.lateral_gain),
        safety::positive(tracker.heading_gain),
        tracker.followed(m, input) is Ok,
        tracker.followed(m, input)->Ok_0.diagnostics.mode == TrackingMode::Lqr,
    ensures
        ({
            let command = tracker.followed(m, input)->Ok_0;
            let lateral = command.diagnostics.lateral_error_m->0;
            let heading = command.diagnostics.heading_error_rad->0;
            let bend = command.diagnostics.reference_curvature_per_m->0;
            let zero = Binary64::of(ZERO);
            &&& command.diagnostics.lateral_error_m is Some
            &&& command.diagnostics.heading_error_rad is Some
            &&& command.diagnostics.reference_curvature_per_m is Some
            &&& bend.le(zero) && zero.le(lateral) && zero.le(heading)
                ==> command.curvature_per_m.le(zero)
            &&& zero.le(bend) && lateral.le(zero) && heading.le(zero) ==> zero.le(
                command.curvature_per_m,
            )
            &&& !tracker.max_lateral_error_m.lt(lateral)
            &&& !tracker.max_lateral_error_m.lt(lateral.negated())
            &&& !tracker.max_heading_error_rad.lt(heading)
            &&& !tracker.max_heading_error_rad.lt(heading.negated())
            &&& !Binary64::of(QUARTER).lt(bend.times(lateral))
            &&& !Binary64::of(QUARTER).lt(bend.times(lateral).negated())
        }),
{
    let command = tracker.followed(m, input)->Ok_0;
    assert(input.pure(m) is Ok);
    assert(!input.speed_mps.lt(tracker.min_speed_mps));
    lemma_in_view(m, input);
    let e = command.diagnostics.lateral_error_m->0;
    let h = command.diagnostics.heading_error_rad->0;
    let k = command.diagnostics.reference_curvature_per_m->0;
    let first = tracker.lateral_gain.times(e);
    let second = tracker.heading_gain.times(h);
    let partial = k.minus(first);
    let curvature = partial.minus(second);
    lemma_finite_difference(partial, second);
    lemma_finite_difference(k, first);
    lemma_finite_factors(tracker.lateral_gain, e);
    lemma_finite_factors(tracker.heading_gain, h);
    signs::law_products_take_their_sign(tracker.lateral_gain, e);
    signs::law_products_take_their_sign(tracker.heading_gain, h);
    if e.zero() {
        signs::law_zero_makes_zero(tracker.lateral_gain, e);
    }
    if h.zero() {
        signs::law_zero_makes_zero(tracker.heading_gain, h);
    }
    signs::law_negation_mirrors(first, first);
    signs::law_negation_mirrors(second, second);
    signs::law_sums_keep_a_common_sign(k, first.negated());
    signs::law_sums_keep_a_common_sign(partial, second.negated());
    signs::law_clamping_is_mirrored(curvature, input.max_curvature_per_m);
}

proof fn lemma_finite_difference(a: Binary64, b: Binary64)
    requires
        a.minus(b).finite(),
    ensures
        a.finite(),
        b.finite(),
{
    laws::law_infinite_sum(a, b.negated());
}

proof fn lemma_finite_factors(a: Binary64, b: Binary64)
    requires
        a.times(b).finite(),
    ensures
        a.finite(),
        b.finite(),
{
    reveal(Binary64::spec_times);
}

/// On one reference a vehicle farther to the left, as much turned, is not
/// steered more to the left, and neither is one turned more to the left at the
/// same place.
pub proof fn law_larger_errors_are_steered_against(
    m: spec_fn(Elementary) -> Binary64,
    tracker: LqrTracker,
    a: TrackInput<'_>,
    b: TrackInput<'_>,
)
    requires
        safety::positive(tracker.lateral_gain),
        safety::positive(tracker.heading_gain),
        a.max_curvature_per_m == b.max_curvature_per_m,
        tracker.followed(m, a) is Ok,
        tracker.followed(m, b) is Ok,
        ({
            let c = tracker.followed(m, a)->Ok_0.diagnostics;
            let d = tracker.followed(m, b)->Ok_0.diagnostics;
            &&& c.mode == TrackingMode::Lqr && d.mode == TrackingMode::Lqr
            &&& c.reference_curvature_per_m == d.reference_curvature_per_m
            &&& c.lateral_error_m->0.le(d.lateral_error_m->0)
            &&& c.heading_error_rad->0.le(d.heading_error_rad->0)
        }),
    ensures
        tracker.followed(m, b)->Ok_0.curvature_per_m.le(
            tracker.followed(m, a)->Ok_0.curvature_per_m,
        ),
{
    let c = tracker.followed(m, a)->Ok_0.diagnostics;
    let d = tracker.followed(m, b)->Ok_0.diagnostics;
    assert(a.pure(m) is Ok && b.pure(m) is Ok);
    lemma_in_view(m, a);
    lemma_in_view(m, b);
    let k = c.reference_curvature_per_m->0;
    let (e1, e2) = (c.lateral_error_m->0, d.lateral_error_m->0);
    let (h1, h2) = (c.heading_error_rad->0, d.heading_error_rad->0);
    let (g, i) = (tracker.lateral_gain, tracker.heading_gain);
    lemma_finite_difference(k.minus(g.times(e1)), i.times(h1));
    lemma_finite_difference(k, g.times(e1));
    lemma_finite_factors(g, e1);
    lemma_finite_factors(i, h1);
    lemma_finite_difference(k.minus(g.times(e2)), i.times(h2));
    lemma_finite_difference(k, g.times(e2));
    lemma_finite_factors(g, e2);
    lemma_finite_factors(i, h2);
    signs::law_products_are_monotone(e1, e2, g);
    signs::law_products_are_monotone(h1, h2, i);
    laws::law_sums_are_monotone(g.times(e1), g.times(e2), k);
    laws::law_sums_are_monotone(k.minus(g.times(e2)), k.minus(g.times(e1)), i.times(h2));
    laws::law_sums_are_monotone(i.times(h1), i.times(h2), k.minus(g.times(e1)));
}

/// Without errors the feedback commands the curvature of the path, within the
/// limit.
pub proof fn law_no_error_follows_the_path(
    m: spec_fn(Elementary) -> Binary64,
    tracker: LqrTracker,
    input: TrackInput<'_>,
)
    requires
        safety::positive(tracker.lateral_gain),
        safety::positive(tracker.heading_gain),
        tracker.followed(m, input) is Ok,
        ({
            let d = tracker.followed(m, input)->Ok_0.diagnostics;
            &&& d.mode == TrackingMode::Lqr
            &&& d.lateral_error_m->0.zero()
            &&& d.heading_error_rad->0.zero()
            &&& d.reference_curvature_per_m->0.abs().le(input.max_curvature_per_m)
        }),
    ensures
        ({
            let command = tracker.followed(m, input)->Ok_0;
            command.curvature_per_m.same(command.diagnostics.reference_curvature_per_m->0)
        }),
{
    let d = tracker.followed(m, input)->Ok_0.diagnostics;
    assert(input.pure(m) is Ok);
    let k = d.reference_curvature_per_m->0;
    let first = tracker.lateral_gain.times(d.lateral_error_m->0);
    let second = tracker.heading_gain.times(d.heading_error_rad->0);
    signs::law_zero_makes_zero(tracker.lateral_gain, d.lateral_error_m->0);
    signs::law_zero_makes_zero(tracker.heading_gain, d.heading_error_rad->0);
    lemma_finite_difference(k.minus(first), second);
    lemma_finite_difference(k, first);
    signs::law_zero_adds_nothing(k, first);
    signs::law_zero_adds_nothing(k.minus(first), second);
}

/// The gains are what the weights make stable: the roots that are asked of the
/// host are those of `q_y / r` and of `q_heading / r` with twice the first
/// gain, and both gains are positive.
pub proof fn law_gains_are_those_of_the_weights(
    m: spec_fn(Elementary) -> Binary64,
    config: super::TrackingConfig,
)
    requires
        config.regulated(m) is Ok,
    ensures
        config is Lqr,
        ({
            let tracker = config.regulated(m)->Ok_0;
            &&& safety::positive(tracker.lateral_gain) && safety::positive(tracker.heading_gain)
            &&& tracker.lateral_gain == m(
                Elementary::SquareRoot(config->q_lateral.over(config->r_curvature)),
            )
            &&& tracker.heading_gain == m(
                Elementary::SquareRoot(
                    config->q_heading.over(config->r_curvature).plus(
                        Binary64::of(TWO).times(tracker.lateral_gain),
                    ),
                ),
            )
            &&& tracker.min_speed_mps == config->min_speed_mps
            &&& tracker.max_heading_error_rad == config->max_heading_error_rad
            &&& tracker.max_lateral_error_m == config->max_lateral_error_m
        }),
{
}

/// The lateral error is how far left of the reference the vehicle is: across a
/// reference along the first axis it is the difference of the second
/// coordinates, across one along the second axis the opposite of that of the
/// first ones. The heading error is that of the heading against the
/// reference's, by the direction in which it turns.
pub proof fn law_errors_are_measured_to_the_left(
    m: spec_fn(Elementary) -> Binary64,
    tracker: LqrTracker,
    input: TrackInput<'_>,
)
    requires
        tracker.followed(m, input) is Ok,
        tracker.followed(m, input)->Ok_0.diagnostics.mode == TrackingMode::Lqr,
        input.reference(m)->Ok_0.point.finite(),
        input.pose.x_m.minus(input.reference(m)->Ok_0.point.x_m).finite(),
        input.pose.y_m.minus(input.reference(m)->Ok_0.point.y_m).finite(),
    ensures
        input.reference(m) is Ok,
        ({
            let reference = input.reference(m)->Ok_0;
            let d = tracker.followed(m, input)->Ok_0.diagnostics;
            let dx = input.pose.x_m.minus(reference.point.x_m);
            let dy = input.pose.y_m.minus(reference.point.y_m);
            let cos = m(Elementary::Cosine(reference.heading));
            let sin = m(Elementary::Sine(reference.heading));
            let turn = input.pose.yaw_rad.minus(reference.heading);
            &&& cos == Binary64::of(ONE) && sin.zero() ==> d.lateral_error_m->0.same(dy)
            &&& sin == Binary64::of(ONE) && cos.zero() ==> d.lateral_error_m->0.same(dx.negated())
            &&& d.heading_error_rad == Some(
                m(
                    Elementary::Bearing {
                        y: m(Elementary::Sine(turn)),
                        x: m(Elementary::Cosine(turn)),
                    },
                ),
            )
            &&& d.reference_curvature_per_m == Some(reference.curvature)
        }),
{
    assert(input.pure(m) is Ok);
    let reference = input.reference(m)->Ok_0;
    let dx = input.pose.x_m.minus(reference.point.x_m);
    let dy = input.pose.y_m.minus(reference.point.y_m);
    let cos = m(Elementary::Cosine(reference.heading));
    let sin = m(Elementary::Sine(reference.heading));
    signs::law_products_commute(cos, dy);
    signs::law_products_commute(sin.negated(), dx);
    signs::law_zero_and_one(dx);
    signs::law_zero_and_one(dy);
    if cos == Binary64::of(ONE) && sin.zero() {
        signs::law_zero_makes_zero(dx, sin.negated());
        signs::law_zero_adds_nothing(dy, sin.negated().times(dx));
    }
    if sin == Binary64::of(ONE) && cos.zero() {
        signs::law_zero_makes_zero(dy, cos);
        signs::law_products_are_mirrored(dx, sin);
        signs::law_negation_mirrors(dx, dx);
        signs::law_zero_adds_nothing(dx.negated(), cos.times(dy));
    }
}

/// The projection onto a segment is before its start at the start, behind its
/// end at the end, and otherwise as far along it as the scalar product says.
pub proof fn law_projections_stay_on_the_segment(
    m: spec_fn(Elementary) -> Binary64,
    input: TrackInput<'_>,
    first: usize,
    last: usize,
)
    ensures
        ({
            let p = input.onto(m, first, last);
            let (a, b) = (input.path@[first as int], input.path@[last as int]);
            let (dx, dy) = (b.x_m.minus(a.x_m), b.y_m.minus(a.y_m));
            let along = input.pose.x_m.minus(a.x_m).times(dx).plus(
                input.pose.y_m.minus(a.y_m).times(dy),
            );
            let length = dx.times(dx).plus(dy.times(dy));
            let zero = Binary64::of(ZERO);
            &&& p.first == first && p.last == last
            &&& !p.fraction.lt(zero) && !Binary64::of(ONE).lt(p.fraction)
            &&& along.over(length).le(zero) ==> p.fraction.same(zero)
            &&& Binary64::of(ONE).le(along.over(length)) ==> p.fraction.same(Binary64::of(ONE))
            &&& zero.le(along.over(length)) && along.over(length).le(Binary64::of(ONE))
                ==> p.fraction == along.over(length)
            &&& dx.finite() && p.fraction.zero() ==> p.point.x_m.same(a.x_m) || a.x_m.nan()
            &&& dy.finite() && p.fraction.zero() ==> p.point.y_m.same(a.y_m) || a.y_m.nan()
            &&& dx.finite() && p.fraction == Binary64::of(ONE) ==> p.point.x_m == a.x_m.plus(dx)
            &&& dy.finite() && p.fraction == Binary64::of(ONE) ==> p.point.y_m == a.y_m.plus(dy)
            &&& p.distance == m(
                Elementary::Length {
                    x: input.pose.x_m.minus(p.point.x_m),
                    y: input.pose.y_m.minus(p.point.y_m),
                },
            )
        }),
{
    let p = input.onto(m, first, last);
    let (a, b) = (input.path@[first as int], input.path@[last as int]);
    let (dx, dy) = (b.x_m.minus(a.x_m), b.y_m.minus(a.y_m));
    if dx.finite() {
        signs::law_zero_and_one(dx);
        signs::law_products_commute(p.fraction, dx);
        if p.fraction.zero() {
            signs::law_zero_makes_zero(dx, p.fraction);
            if !a.x_m.nan() {
                signs::law_zero_adds_nothing(a.x_m, p.fraction.times(dx));
            }
        }
    }
    if dy.finite() {
        signs::law_zero_and_one(dy);
        signs::law_products_commute(p.fraction, dy);
        if p.fraction.zero() {
            signs::law_zero_makes_zero(dy, p.fraction);
            if !a.y_m.nan() {
                signs::law_zero_adds_nothing(a.y_m, p.fraction.times(dy));
            }
        }
    }
}

/// The reference is on a segment at the vertex of progress, the nearer one of
/// the two where there are two, the later one where both are as near.
pub proof fn law_the_nearer_segment_is_followed(
    m: spec_fn(Elementary) -> Binary64,
    input: TrackInput<'_>,
)
    requires
        input.beside(m) is Some,
        input.progress < input.path@.len() <= usize::MAX,
    ensures
        ({
            let p = input.beside(m)->0;
            let v = input.progress;
            &&& p.first == v || p.last == v
            &&& p.first <= p.last < input.path@.len()
            &&& super::apart(m, input.path@[p.first as int], input.path@[p.last as int])
                || super::apart(m, input.path@[p.last as int], input.path@[p.first as int])
            &&& forall|i: int|
                p.first < i < v ==> !super::apart(m, #[trigger] input.path@[i], input.path@[v as int])
            &&& forall|i: int|
                v < i < p.last ==> !super::apart(m, #[trigger] input.path@[i], input.path@[v as int])
            &&& p.last == v ==> forall|i: int|
                v < i < input.path@.len() && super::apart(
                    m,
                    #[trigger] input.path@[i],
                    input.path@[v as int],
                ) && (forall|j: int|
                    v < j < i ==> !super::apart(m, #[trigger] input.path@[j], input.path@[v as int]))
                    ==> p.distance.lt(input.onto(m, v, i as usize).distance)
            &&& p.first == v ==> forall|i: int|
                0 <= i < v && super::apart(m, #[trigger] input.path@[i], input.path@[v as int]) && (
                forall|j: int|
                    i < j < v ==> !super::apart(m, #[trigger] input.path@[j], input.path@[v as int]))
                    ==> !input.onto(m, i as usize, v).distance.lt(p.distance)
        }),
{
    let v = input.progress;
    lemma_before(m, input.path@, v as int, v as nat);
    lemma_after(m, input.path@, v as int, v + 1);
}

proof fn lemma_before(m: spec_fn(Elementary) -> Binary64, path: Seq<Point2>, v: int, n: nat)
    requires
        n <= path.len() <= usize::MAX,
    ensures
        match lqr::before_vertex(m, path, v, n) {
            None => forall|i: int| 0 <= i < n ==> !super::apart(m, #[trigger] path[i], path[v]),
            Some(k) => {
                &&& k < n
                &&& super::apart(m, path[k as int], path[v])
                &&& forall|i: int| k < i < n ==> !super::apart(m, #[trigger] path[i], path[v])
            },
        },
    decreases n,
{
    if n > 0 {
        lemma_before(m, path, v, (n - 1) as nat);
    }
}

proof fn lemma_after(m: spec_fn(Elementary) -> Binary64, path: Seq<Point2>, v: int, i: int)
    requires
        0 <= i,
        path.len() <= usize::MAX,
    ensures
        match lqr::after_vertex(m, path, v, i) {
            None => forall|j: int|
                i <= j < path.len() ==> !super::apart(m, #[trigger] path[j], path[v]),
            Some(k) => {
                &&& i <= k < path.len()
                &&& super::apart(m, path[k as int], path[v])
                &&& forall|j: int| i <= j < k ==> !super::apart(m, #[trigger] path[j], path[v])
            },
        },
    decreases path.len() - i,
{
    if i < path.len() {
        lemma_after(m, path, v, i + 1);
    }
}

/// The curvature through three points is positive on a bend to the left and
/// negative on one to the right, told along the first axis and along the
/// second one, where the host's lengths are positive.
pub proof fn law_bends_to_the_left_are_positive(
    m: spec_fn(Elementary) -> Binary64,
    a: Point2,
    b: Point2,
    c: Point2,
)
    requires
        lqr::curvature_of(m, a, b, c) is Ok,
        a.finite() && b.finite() && c.finite(),
        Binary64::of(ZERO).lt(
            m(a.separation(b)).times(m(b.separation(c))).times(m(a.separation(c))),
        ),
    ensures
        ({
            let k = lqr::curvature_of(m, a, b, c)->Ok_0;
            let zero = Binary64::of(ZERO);
            &&& b.y_m == a.y_m && a.x_m.lt(b.x_m) && a.y_m.le(c.y_m) ==> zero.le(k)
            &&& b.y_m == a.y_m && a.x_m.lt(b.x_m) && c.y_m.le(a.y_m) ==> k.le(zero)
            &&& b.x_m == a.x_m && a.y_m.lt(b.y_m) && c.x_m.le(a.x_m) ==> zero.le(k)
            &&& b.x_m == a.x_m && a.y_m.lt(b.y_m) && a.x_m.le(c.x_m) ==> k.le(zero)
        }),
{
    let (x, y) = (b.x_m.minus(a.x_m), b.y_m.minus(a.y_m));
    let (v, w) = (c.x_m.minus(a.x_m), c.y_m.minus(a.y_m));
    let (first, second) = (x.times(w), y.times(v));
    let cross = first.minus(second);
    let sides = m(a.separation(b)).times(m(b.separation(c))).times(m(a.separation(c)));
    let twice = Binary64::of(TWO).times(cross);
    signs::law_differences_order_their_terms(b.x_m, a.x_m);
    signs::law_differences_order_their_terms(b.y_m, a.y_m);
    signs::law_differences_order_their_terms(c.x_m, a.x_m);
    signs::law_differences_order_their_terms(c.y_m, a.y_m);
    signs::law_products_follow_the_signs(x, w);
    signs::law_products_follow_the_signs(y, v);
    if twice.nan() {
        laws::law_nan_propagates(twice, sides);
    }
    if cross.nan() {
        laws::law_nan_propagates(Binary64::of(TWO), cross);
    }
    if first.nan() || second.nan() {
        laws::law_nan_propagates(first, second);
    }
    signs::law_sums_keep_a_common_sign(first, second.negated());
    signs::law_products_follow_the_signs(Binary64::of(TWO), cross);
    signs::law_products_take_their_sign(twice, sides);
    if twice.zero() && sides.finite() {
        signs::law_zero_parts_are_zero(twice, sides);
    }
    reveal(Binary64::spec_over);
}

/// The reference has the curvature of the bend and its point on the segment
/// beside the vehicle. Its heading is that of the segment, from its start to its
/// end, turned back by half the arc at the start of the segment and on by half
/// the arc at its end, where half the arc is the arcsine of half the curvature
/// times the length.
pub proof fn law_references_turn_with_the_bend(
    m: spec_fn(Elementary) -> Binary64,
    input: TrackInput<'_>,
)
    requires
        input.reference(m) is Ok,
    ensures
        ({
            let r = input.reference(m)->Ok_0;
            let p = input.beside(m)->0;
            let (a, b) = (input.path@[p.first as int], input.path@[p.last as int]);
            let chord = m(
                Elementary::Bearing { y: b.y_m.minus(a.y_m), x: b.x_m.minus(a.x_m) },
            );
            let length = m(
                Elementary::Length { x: a.x_m.minus(b.x_m), y: a.y_m.minus(b.y_m) },
            );
            let one = Binary64::of(ONE);
            let ratio = r.curvature.times(length).times(Binary64::of(HALF)).clamp(
                one.negated(),
                one,
            );
            let half = m(Elementary::ArcSine(ratio));
            &&& input.beside(m) is Some
            &&& r.point == p.point
            &&& input.bend(m, p) == Ok::<Binary64, Seq<char>>(r.curvature)
            &&& !ratio.lt(one.negated()) && !one.lt(ratio)
            &&& half.finite() && p.fraction.zero() ==> r.heading == chord.minus(half)
            &&& half.finite() && p.fraction == one ==> r.heading == chord.plus(half)
            &&& half.finite() && p.fraction == Binary64::of(HALF) ==> r.heading.same(chord)
        }),
{
    let p = input.beside(m)->0;
    let r = input.reference(m)->Ok_0;
    let (a, b) = (input.path@[p.first as int], input.path@[p.last as int]);
    let chord = m(Elementary::Bearing { y: b.y_m.minus(a.y_m), x: b.x_m.minus(a.x_m) });
    let one = Binary64::of(ONE);
    let two = Binary64::of(TWO);
    let ratio = r.curvature.times(m(a.separation(b))).times(Binary64::of(HALF)).clamp(
        one.negated(),
        one,
    );
    let half = m(Elementary::ArcSine(ratio));
    if half.finite() {
        let t = two.times(p.fraction);
        let f = t.minus(one);
        signs::law_zero_and_one(half);
        signs::law_zero_and_one(two);
        signs::law_products_are_mirrored(one, half);
        if p.fraction.zero() {
            signs::law_zero_makes_zero(two, p.fraction);
            signs::law_zero_adds_nothing(one, t);
            assert(f == one.negated());
            lemma_less(chord, half);
        } else if p.fraction == one {
            lemma_one_of_two();
            assert(f == one);
        } else if p.fraction == Binary64::of(HALF) {
            lemma_one_of_two();
            lemma_half_of_two();
            signs::law_differences_order_their_terms(one, one);
            assert(f.zero());
            signs::law_zero_makes_zero(half, f);
            if chord.nan() {
                laws::law_nan_propagates(chord, f.times(half));
            }
            signs::law_zero_adds_nothing(chord, f.times(half));
        }
    }
}

proof fn lemma_less(a: Binary64, b: Binary64)
    requires
        !b.nan(),
    ensures
        a.plus(b.negated()) == a.minus(b),
{
}

/// Two less one is one.
proof fn lemma_one_of_two()
    ensures
        Binary64::of(TWO).minus(Binary64::of(ONE)) == Binary64::of(ONE),
{
    reveal(Binary64::spec_plus);
    vstd::arithmetic::power2::lemma2_to64();
    vstd::arithmetic::power2::lemma2_to64_rest();
    constants::lemma_whole(TWO, 1024, 2, 51);
    constants::lemma_whole(ONE, 1023, 1, 52);
    vstd::arithmetic::power2::lemma_pow2_pos(1074);
    let one = Binary64::of(ONE);
    assert(one.negated().magnitude() == one.magnitude());
    rounding::lemma_exact(one);
}

/// Twice a half is one.
proof fn lemma_half_of_two()
    ensures
        Binary64::of(TWO).times(Binary64::of(HALF)) == Binary64::of(ONE),
{
    reveal(Binary64::spec_times);
    vstd::arithmetic::power2::lemma2_to64();
    vstd::arithmetic::power2::lemma2_to64_rest();
    constants::lemma_whole(TWO, 1024, 2, 51);
    constants::lemma_whole(ONE, 1023, 1, 52);
    let half = Binary64::of(HALF);
    let u = pow2(1074);
    vstd::arithmetic::power2::lemma_pow2_pos(1074);
    vstd::arithmetic::div_mod::lemma_fundamental_div_mod_converse(
        HALF as int,
        HIDDEN as int,
        1022,
        0,
    );
    vstd::arithmetic::power2::lemma_pow2_adds(52, 1021);
    vstd::arithmetic::power2::lemma_pow2_unfold(1074);
    assert(half.magnitude() == HIDDEN * pow2(1021));
    assert(2 * half.magnitude() == u);
    let h = half.magnitude();
    assert((2 * u) * h == u * u) by (nonlinear_arith)
        requires 2 * h == u;
    constants::law_rounding_cancels(false, u, 1, u);
    assert(1 * u == u);
    rounding::lemma_exact(Binary64::of(ONE));
}

} // verus!
