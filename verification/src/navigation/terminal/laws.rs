//! What holds of whatever the terminal solvers return.
use super::solvers::{Approach, Model, Primitive, Reach};
use super::{Connection, EndpointPolicy, Event, Ledger, TwoArcSeed, Variables};
use crate::autonomy::{Point2, Pose2};
use crate::binary64::laws;
use crate::binary64::signs;
use crate::binary64::values::{
    BILLIONTH, FOUR, HALF, MILLIONTH, ONE, QUARTER, SEVEN_TWENTIETHS, TEN_THOUSANDTH, THREE, TWO,
    ZERO,
};
use crate::binary64::Binary64;
use crate::elementary::Elementary;
use crate::navigation::primitive_envelope::ErrorBound;
use vstd::prelude::*;

verus! {

/// A bound on an absolute value with an allowance bounds both signs with it.
proof fn lemma_both_sides(a: Binary64, allowance: Binary64, bound: Binary64)
    requires
        a.abs().plus(allowance).le(bound),
        a.finite() || allowance.finite(),
    ensures
        a.plus(allowance).le(bound),
        a.negated().plus(allowance).le(bound),
{
    if a.nan() || allowance.nan() {
        laws::law_nan_propagates(a.abs(), allowance);
    } else if a.finite() && allowance.finite() {
        signs::law_absolute_values_cover_both_signs(a);
        laws::law_sums_are_monotone(a, a.abs(), allowance);
        laws::law_sums_are_monotone(a.negated(), a.abs(), allowance);
    } else {
        reveal(Binary64::spec_plus);
    }
}

/// A connection comes of two segments, the first one from the start and the
/// second one from the end of the first.
proof fn lemma_two_arc(
    m: Model,
    b: Ledger,
    a: Approach,
    heading: Binary64,
    v: Variables,
    fraction: Binary64,
    distance: Binary64,
    used_seed: bool,
    policy: EndpointPolicy,
    n: nat,
)
    ensures
        m.two_arc_in(b, a, heading, v, fraction, distance, used_seed, policy, n).1 matches Some(c)
            ==> {
            &&& c.seed.first_fraction == fraction
            &&& driven_by_its_seed(m, a, c)
            &&& m.position_ok(
                Reach {
                    points: c.points,
                    endpoint: c.endpoint,
                    curvature: c.end_curvature,
                    error: c.error,
                },
                a.goal,
                policy,
            )
            &&& m.heading_ok(c.endpoint, heading, c.error)
        },
    decreases n,
{
    if n > 0 {
        reveal(Model::driven_twice);
        let b1 = b.charged(0, 1, 0).0;
        let (b2, end) = m.driven_twice(b1, a, v, fraction);
        if end is Some {
            let (b3, next) = m.improved(b2, a, heading, v, fraction, distance, end->0.endpoint);
            if next is Some {
                lemma_two_arc(
                    m,
                    b3,
                    a,
                    heading,
                    next->0,
                    fraction,
                    distance,
                    used_seed,
                    policy,
                    (n - 1) as nat,
                );
            }
        }
    }
}

/// Whether a connection is what driving the two segments of its seed gives.
pub open spec fn driven_by_its_seed(m: Model, a: Approach, c: Connection) -> bool {
    let v = c.seed.variables;
    let first = (m.drive)(
        Primitive {
            start: a.start,
            initial_curvature: a.initial_curvature,
            target_curvature: v.first,
            length: v.length.times(c.seed.first_fraction),
            error: a.error,
        },
    );
    let second = (m.drive)(
        Primitive {
            start: first->0.endpoint,
            initial_curvature: first->0.curvature,
            target_curvature: v.second,
            length: v.length.times(Binary64::of(ONE).minus(c.seed.first_fraction)),
            error: first->0.error,
        },
    );
    &&& first is Some
    &&& second is Some
    &&& c.endpoint == second->0.endpoint
    &&& c.end_curvature == second->0.curvature
    &&& c.error == second->0.error
    &&& c.points == first->0.points + second->0.points
}

pub proof fn lemma_two_arc_solved(
    m: Model,
    b: Ledger,
    a: Approach,
    heading: Binary64,
    seed: Option<TwoArcSeed>,
    policy: EndpointPolicy,
)
    ensures
        m.two_arc_solved(b, a, heading, seed, policy).1 matches Some(c) ==> {
            &&& c.seed.first_fraction == (match seed {
                Some(seed) => seed.first_fraction,
                None => Binary64::of(HALF),
            })
            &&& driven_by_its_seed(m, a, c)
            &&& m.position_ok(
                Reach {
                    points: c.points,
                    endpoint: c.endpoint,
                    curvature: c.end_curvature,
                    error: c.error,
                },
                a.goal,
                policy,
            )
            &&& m.heading_ok(c.endpoint, heading, c.error)
        },
{
    let local = a.start.seen(m.math, a.goal);
    let distance = (m.math)(a.start.point().separation(a.goal));
    lemma_two_arc(
        m,
        b.charged(1, 0, 0).0,
        a,
        heading,
        m.guess(a, heading, seed, local, distance),
        match seed {
            Some(seed) => seed.first_fraction,
            None => Binary64::of(HALF),
        },
        distance,
        seed is Some,
        policy,
        8,
    );
}

/// Whatever connection is returned for a heading, its endpoint is turned from
/// that heading by no more than half the tolerance to either side, with the
/// heading error of the model on top. The turn asked of the host is that from
/// the heading to the endpoint's yaw. Left out is only a model error without
/// bound with a turn without bound.
pub proof fn law_connections_keep_their_heading_to_both_sides(
    m: Model,
    b: Ledger,
    a: Approach,
    heading: Binary64,
    seed: Option<TwoArcSeed>,
    policy: EndpointPolicy,
)
    ensures
        m.two_arc_solved(b, a, heading, seed, policy).1 matches Some(c) ==> ({
            let turn = (m.math)(Elementary::Turn { to: c.endpoint.yaw_rad, from: heading });
            let bound = m.config.goal_heading_tolerance_rad.times(Binary64::of(HALF));
            turn.finite() || c.error.heading_rad.finite() ==> turn.plus(c.error.heading_rad).le(
                bound,
            ) && turn.negated().plus(c.error.heading_rad).le(bound)
        }),
        m.approached(b, a, heading, seed).1 matches Some(c) ==> ({
            let turn = (m.math)(Elementary::Turn { to: c.endpoint.yaw_rad, from: heading });
            let bound = m.config.goal_heading_tolerance_rad.times(Binary64::of(HALF));
            turn.finite() || c.error.heading_rad.finite() ==> turn.plus(c.error.heading_rad).le(
                bound,
            ) && turn.negated().plus(c.error.heading_rad).le(bound)
        }),
{
    lemma_two_arc_solved(m, b, a, heading, seed, policy);
    if let Some(c) = m.two_arc_solved(b, a, heading, seed, policy).1 {
        lemma_heading(m, c.endpoint, heading, c.error);
    }
    if let Some(c) = m.approached(b, a, heading, seed).1 {
        lemma_approached(m, b, a, heading, seed);
        lemma_heading(m, c.endpoint, heading, c.error);
    }
}

pub proof fn lemma_heading(m: Model, endpoint: Pose2, heading: Binary64, error: ErrorBound)
    requires
        m.heading_ok(endpoint, heading, error),
    ensures
        ({
            let turn = (m.math)(Elementary::Turn { to: endpoint.yaw_rad, from: heading });
            let bound = m.config.goal_heading_tolerance_rad.times(Binary64::of(HALF));
            turn.finite() || error.heading_rad.finite() ==> turn.plus(error.heading_rad).le(bound)
                && turn.negated().plus(error.heading_rad).le(bound)
        }),
{
    let turn = (m.math)(Elementary::Turn { to: endpoint.yaw_rad, from: heading });
    let bound = m.config.goal_heading_tolerance_rad.times(Binary64::of(HALF));
    if turn.finite() || error.heading_rad.finite() {
        lemma_both_sides(turn, error.heading_rad, bound);
    }
}

proof fn lemma_approached(
    m: Model,
    b: Ledger,
    a: Approach,
    heading: Binary64,
    seed: Option<TwoArcSeed>,
)
    ensures
        m.approached(b, a, heading, seed).1 matches Some(c) ==> {
            &&& driven_by_its_seed(m, a, c)
            &&& m.position_ok(
                Reach {
                    points: c.points,
                    endpoint: c.endpoint,
                    curvature: c.end_curvature,
                    error: c.error,
                },
                a.goal,
                EndpointPolicy::ExactCenter,
            )
            &&& m.heading_ok(c.endpoint, heading, c.error)
        },
{
    let policy = EndpointPolicy::ExactCenter;
    lemma_two_arc_solved(m, b, a, heading, None, policy);
    let b1 = m.two_arc_solved(b, a, heading, None, policy).0;
    lemma_two_arc_solved(m, b1.counting(Event::SeedAttempt), a, heading, seed, policy);
}

/// Whatever connection is returned lies, with the position error of the model
/// on top, nearer to the goal than half the tolerance for a region, and for an
/// exact goal nearer than a quarter of it and than a tenth of a millimetre.
pub proof fn law_connections_end_near_the_goal(
    m: Model,
    b: Ledger,
    a: Approach,
    heading: Binary64,
    seed: Option<TwoArcSeed>,
    policy: EndpointPolicy,
)
    requires
        !m.config.goal_tolerance_m.times(Binary64::of(QUARTER)).nan(),
    ensures
        m.two_arc_solved(b, a, heading, seed, policy).1 matches Some(c) ==> ({
            let off = (m.math)(
                Elementary::Length {
                    x: c.endpoint.x_m.minus(a.goal.x_m),
                    y: c.endpoint.y_m.minus(a.goal.y_m),
                },
            ).plus(c.error.position_m);
            &&& policy == EndpointPolicy::ArrivalRegion ==> off.lt(
                m.config.goal_tolerance_m.times(Binary64::of(HALF)),
            )
            &&& policy == EndpointPolicy::ExactCenter ==> off.lt(Binary64::of(TEN_THOUSANDTH))
                && off.lt(m.config.goal_tolerance_m.times(Binary64::of(QUARTER)))
        }),
        m.approached(b, a, heading, seed).1 matches Some(c) ==> ({
            let off = (m.math)(
                Elementary::Length {
                    x: c.endpoint.x_m.minus(a.goal.x_m),
                    y: c.endpoint.y_m.minus(a.goal.y_m),
                },
            ).plus(c.error.position_m);
            off.lt(Binary64::of(TEN_THOUSANDTH)) && off.lt(
                m.config.goal_tolerance_m.times(Binary64::of(QUARTER)),
            )
        }),
{
    lemma_two_arc_solved(m, b, a, heading, seed, policy);
    lemma_approached(m, b, a, heading, seed);
}

/// A connection is what driving the two segments of its seed gives: the first
/// one from the start with its curvature and error to the first curvature over
/// the first part of the length, the second one from where that ends to the
/// second curvature over the rest. A cold approach halves the length; one from
/// a seed parts it as the seed does.
pub proof fn law_connections_are_driven(
    m: Model,
    b: Ledger,
    a: Approach,
    heading: Binary64,
    seed: Option<TwoArcSeed>,
    policy: EndpointPolicy,
)
    ensures
        m.two_arc_solved(b, a, heading, seed, policy).1 matches Some(c) ==> {
            &&& driven_by_its_seed(m, a, c)
            &&& seed is None ==> c.seed.first_fraction == Binary64::of(HALF)
            &&& seed matches Some(s) ==> c.seed.first_fraction == s.first_fraction
        },
        m.approached(b, a, heading, seed).1 matches Some(c) ==> driven_by_its_seed(m, a, c),
{
    lemma_two_arc_solved(m, b, a, heading, seed, policy);
    lemma_approached(m, b, a, heading, seed);
}

/// Two segments connect only to a goal ahead that is at least a micrometre and
/// at most two lookahead distances and two metres away, and a single arc only
/// to one ahead that is nearer than thirty-five centimetres.
pub proof fn law_goals_lie_ahead_within_reach(
    m: Model,
    b: Ledger,
    a: Approach,
    heading: Binary64,
    seed: Option<TwoArcSeed>,
    policy: EndpointPolicy,
    free: Option<Binary64>,
)
    ensures
        ({
            let dx = a.goal.x_m.minus(a.start.x_m);
            let dy = a.goal.y_m.minus(a.start.y_m);
            let ahead = dx.times((m.math)(Elementary::Cosine(a.start.yaw_rad))).plus(
                dy.times((m.math)(Elementary::Sine(a.start.yaw_rad))),
            );
            let distance = (m.math)(
                Elementary::Length {
                    x: a.start.x_m.minus(a.goal.x_m),
                    y: a.start.y_m.minus(a.goal.y_m),
                },
            );
            &&& m.two_arc_solved(b, a, heading, seed, policy).1 is Some ==> {
                &&& !ahead.le(Binary64::of(ZERO))
                &&& Binary64::of(MILLIONTH).le(distance)
                &&& distance.le(Binary64::of(TWO))
                &&& !Binary64::of(TWO).times(m.config.lookahead_m).lt(distance)
            }
            &&& m.single_arc_solved(b, a, free, policy).1 is Some ==> {
                &&& !ahead.le(Binary64::of(ZERO))
                &&& Binary64::of(BILLIONTH).le(distance)
                &&& distance.lt(Binary64::of(SEVEN_TWENTIETHS))
            }
        }),
{
}

proof fn lemma_single_arc(
    m: Model,
    b: Ledger,
    a: Approach,
    heading: Option<Binary64>,
    curvature: Binary64,
    length: Binary64,
    distance: Binary64,
    policy: EndpointPolicy,
    n: nat,
)
    ensures
        m.single_arc_in(b, a, heading, curvature, length, distance, policy, n).1 matches Some(r)
            ==> {
            &&& m.position_ok(r, a.goal, policy)
            &&& heading matches Some(yaw) ==> m.heading_ok(r.endpoint, yaw, r.error)
            &&& exists|p: Primitive| #[trigger] (m.drive)(p) == Some(r) && leaves(p, a)
        },
    decreases n,
{
    if n > 0 {
        let primitive = Primitive {
            start: a.start,
            initial_curvature: a.initial_curvature,
            target_curvature: curvature,
            length,
            error: a.error,
        };
        let b1 = b.charged(0, 1, 0).0;
        let (b2, end) = m.driven(b1, primitive);
        assert(leaves(primitive, a));
        if end is Some {
            let (b3, next) = m.bent(b2, a, primitive, distance, end->0.endpoint);
            if next is Some {
                lemma_single_arc(
                    m,
                    b3,
                    a,
                    heading,
                    (next->0).0,
                    (next->0).1,
                    distance,
                    policy,
                    (n - 1) as nat,
                );
            }
        }
    }
}

/// Whether a segment leaves from where an approach does.
pub open spec fn leaves(p: Primitive, a: Approach) -> bool {
    p.start == a.start && p.initial_curvature == a.initial_curvature && p.error == a.error
}

proof fn lemma_single_arc_solved(
    m: Model,
    b: Ledger,
    a: Approach,
    heading: Option<Binary64>,
    policy: EndpointPolicy,
)
    ensures
        m.single_arc_solved(b, a, heading, policy).1 matches Some(r) ==> {
            &&& m.position_ok(r, a.goal, policy)
            &&& heading matches Some(yaw) ==> m.heading_ok(r.endpoint, yaw, r.error)
            &&& exists|p: Primitive| #[trigger] (m.drive)(p) == Some(r) && leaves(p, a)
        },
{
    let k = m.config.max_curvature_per_m;
    let local = a.start.seen(m.math, a.goal);
    let distance = (m.math)(a.start.point().separation(a.goal));
    let circle = Binary64::of(TWO).times(local.y_m).over(distance.times(distance));
    lemma_single_arc(
        m,
        b.charged(1, 0, 0).0,
        a,
        heading,
        circle.clamp(k.negated(), k),
        if circle.abs().lt(Binary64::of(BILLIONTH)) {
            local.x_m
        } else {
            Binary64::of(TWO).times(
                (m.math)(Elementary::Bearing { y: local.y_m, x: local.x_m }),
            ).over(circle)
        },
        distance,
        policy,
        8,
    );
}

/// Whatever single arc or arrival in a region is returned for a heading, its
/// endpoint is turned from that heading by no more than half the tolerance to
/// either side, with the heading error of the model on top, and ends nearer to
/// the goal than the tolerance, with the position error on top. A single arc is
/// driven from the start of its approach. Left out is only a model error
/// without bound with a turn without bound.
pub proof fn law_arrivals_keep_their_heading_to_both_sides(
    m: Model,
    b: Ledger,
    a: Approach,
    heading: Binary64,
    policy: EndpointPolicy,
)
    requires
        !m.config.goal_tolerance_m.times(Binary64::of(QUARTER)).nan(),
    ensures
        m.single_arc_solved(b, a, Some(heading), policy).1 matches Some(r) ==> ({
            let turn = (m.math)(Elementary::Turn { to: r.endpoint.yaw_rad, from: heading });
            let bound = m.config.goal_heading_tolerance_rad.times(Binary64::of(HALF));
            let off = (m.math)(
                Elementary::Length {
                    x: r.endpoint.x_m.minus(a.goal.x_m),
                    y: r.endpoint.y_m.minus(a.goal.y_m),
                },
            ).plus(r.error.position_m);
            &&& turn.finite() || r.error.heading_rad.finite() ==> turn.plus(
                r.error.heading_rad,
            ).le(bound) && turn.negated().plus(r.error.heading_rad).le(bound)
            &&& policy == EndpointPolicy::ArrivalRegion ==> off.lt(
                m.config.goal_tolerance_m.times(Binary64::of(HALF)),
            )
            &&& policy == EndpointPolicy::ExactCenter ==> off.lt(Binary64::of(TEN_THOUSANDTH))
                && off.lt(m.config.goal_tolerance_m.times(Binary64::of(QUARTER)))
            &&& exists|p: Primitive|
                {
                    &&& #[trigger] (m.drive)(p) == Some(r)
                    &&& p.start == a.start
                    &&& p.initial_curvature == a.initial_curvature
                    &&& p.error == a.error
                }
        }),
        m.single_arc_solved(b, a, None, policy).1 matches Some(r) ==> ({
            let off = (m.math)(
                Elementary::Length {
                    x: r.endpoint.x_m.minus(a.goal.x_m),
                    y: r.endpoint.y_m.minus(a.goal.y_m),
                },
            ).plus(r.error.position_m);
            &&& policy == EndpointPolicy::ArrivalRegion ==> off.lt(
                m.config.goal_tolerance_m.times(Binary64::of(HALF)),
            )
            &&& policy == EndpointPolicy::ExactCenter ==> off.lt(Binary64::of(TEN_THOUSANDTH))
                && off.lt(m.config.goal_tolerance_m.times(Binary64::of(QUARTER)))
        }),
        m.region_reached(b, a, heading).1 matches Some(r) ==> ({
            let turn = (m.math)(Elementary::Turn { to: r.endpoint.yaw_rad, from: heading });
            let bound = m.config.goal_heading_tolerance_rad.times(Binary64::of(HALF));
            let off = (m.math)(
                Elementary::Length {
                    x: r.endpoint.x_m.minus(a.goal.x_m),
                    y: r.endpoint.y_m.minus(a.goal.y_m),
                },
            ).plus(r.error.position_m);
            &&& turn.finite() || r.error.heading_rad.finite() ==> turn.plus(
                r.error.heading_rad,
            ).le(bound) && turn.negated().plus(r.error.heading_rad).le(bound)
            &&& off.lt(m.config.goal_tolerance_m.times(Binary64::of(HALF)))
        }),
{
    lemma_single_arc_solved(m, b, a, Some(heading), policy);
    lemma_single_arc_solved(m, b, a, None, policy);
    if let Some(r) = m.single_arc_solved(b, a, Some(heading), policy).1 {
        lemma_heading(m, r.endpoint, heading, r.error);
        let p = choose|p: Primitive| #[trigger] (m.drive)(p) == Some(r) && leaves(p, a);
        assert((m.drive)(p) == Some(r));
    }
    let region = EndpointPolicy::ArrivalRegion;
    let b1 = b.counting(Event::RegionAttempt);
    lemma_single_arc_solved(m, b1, a, Some(heading), region);
    let b2 = m.single_arc_solved(b1, a, Some(heading), region).0;
    lemma_two_arc_solved(m, b2, a, heading, None, region);
    if let Some(r) = m.region_reached(b, a, heading).1 {
        lemma_heading(m, r.endpoint, heading, r.error);
    }
}

/// The first try of a cold approach is mirrored where the goal, as seen from
/// the start, and the turn to the heading are.
pub proof fn law_cold_tries_are_mirrored(
    m: Model,
    a: Approach,
    b: Approach,
    ahead: Binary64,
    behind: Binary64,
    p: Point2,
    q: Point2,
    distance: Binary64,
)
    requires
        Binary64::of(ZERO).le(m.config.max_curvature_per_m),
        q.y_m == p.y_m.negated(),
        (m.math)(Elementary::Turn { to: behind, from: b.start.yaw_rad }) == (m.math)(
            Elementary::Turn { to: ahead, from: a.start.yaw_rad },
        ).negated(),
        m.guess(a, ahead, None, p, distance).first.finite(),
        m.guess(a, ahead, None, p, distance).second.finite(),
    ensures
        ({
            let g = m.guess(a, ahead, None, p, distance);
            let h = m.guess(b, behind, None, q, distance);
            &&& h.first.same(g.first.negated())
            &&& h.second.same(g.second.negated())
            &&& h.length == g.length
        }),
{
    let k = m.config.max_curvature_per_m;
    let change = (m.math)(Elementary::Turn { to: ahead, from: a.start.yaw_rad });
    let square = distance.times(distance);
    let four = Binary64::of(FOUR).times(p.y_m);
    let offset = four.over(square);
    let three = Binary64::of(THREE).times(change);
    let once = change.over(distance);
    let thrice = three.over(distance);
    let first = offset.minus(once);
    let second = thrice.minus(offset);
    if first.nan() {
        assert(m.guess(a, ahead, None, p, distance).first.nan());
    }
    if second.nan() {
        assert(m.guess(a, ahead, None, p, distance).second.nan());
    }
    if four.nan() {
        laws::law_nan_propagates(four, square);
    }
    if offset.nan() || once.nan() {
        laws::law_nan_propagates(offset, once);
    }
    if three.nan() {
        laws::law_nan_propagates(three, distance);
    }
    if thrice.nan() {
        laws::law_nan_propagates(thrice, offset);
    }
    signs::law_products_are_mirrored(Binary64::of(FOUR), p.y_m);
    signs::law_products_are_mirrored(four, square);
    signs::law_products_are_mirrored(Binary64::of(THREE), change);
    signs::law_products_are_mirrored(change, distance);
    signs::law_products_are_mirrored(three, distance);
    signs::law_sums_are_mirrored(offset, once.negated());
    signs::law_sums_are_mirrored(thrice, offset.negated());
    signs::law_clamping_is_mirrored(first, k);
    signs::law_clamping_is_mirrored(second, k);
}

/// What is travelled of a seed comes off its first segment and off its whole
/// length, and leaves its curvatures as they are. Nothing is left of a seed once
/// its first segment, or the whole of it, has come to a micrometre.
pub proof fn law_travel_comes_off_the_first_segment(seed: TwoArcSeed, distance: Binary64)
    ensures
        ({
            let whole = seed.variables.length.minus(distance);
            let first = seed.variables.length.times(seed.first_fraction).minus(distance);
            let least = Binary64::of(MILLIONTH);
            match seed.after_travel(distance) {
                None => first.le(least) || whole.le(least),
                Some(left) => {
                    &&& !first.le(least) && !whole.le(least)
                    &&& left.variables.first == seed.variables.first
                    &&& left.variables.second == seed.variables.second
                    &&& left.variables.length == whole
                    &&& left.first_fraction == first.over(whole)
                },
            }
        }),
{
}

} // verus!
