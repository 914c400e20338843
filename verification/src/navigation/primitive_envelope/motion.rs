//! What holds of a predicted motion.
use super::{BoundedProjection, Course, ErrorBound, Integration, Ramp, Ramps};
use crate::autonomy::Pose2;
use crate::binary64::constants;
use crate::binary64::laws;
use crate::binary64::rounding;
use crate::binary64::signs;
use crate::binary64::values::{FOUR, HALF, ONE, THREE, TWENTY_FOUR, TWO, ZERO};
use crate::binary64::Binary64;
use crate::elementary::Elementary;
use crate::motion_transition::MotionTransition;
use crate::motion_transition;
use crate::safety;
use vstd::arithmetic::power2::{lemma_pow2_pos, pow2};
use vstd::prelude::*;

verus! {

/// A time before a way is covered covers no more than the way.
proof fn lemma_within_the_way(way: Binary64, rate: Binary64, time: Binary64)
    requires
        way.finite(),
        !way.negative(),
        safety::positive(rate),
        time.finite(),
        Binary64::of(ZERO).le(time),
        time.lt(way.over(rate)),
    ensures
        rate.times(time).finite(),
        Binary64::of(ZERO).le(rate.times(time)),
        rate.times(time).le(way),
{
    reveal(Binary64::spec_over);
    reveal(Binary64::spec_times);
    laws::lemma_zero_magnitude(way);
    laws::lemma_zero_magnitude(rate);
    laws::lemma_zero_magnitude(time);
    let u = pow2(1074);
    lemma_pow2_pos(1074);
    let (d, r, t) = (way.magnitude(), rate.magnitude(), time.magnitude());
    if time.zero() {
        signs::law_zero_makes_zero(rate, time);
    } else {
        if t * r > d * u {
            laws::law_rounding_is_monotone(false, d * u, t * r, r);
            constants::law_rounding_cancels(false, t, 1, r);
            assert(1 * r == r);
            rounding::lemma_exact(time);
            assert(false);
        }
        assert(r * t == t * r) by (nonlinear_arith);
        laws::law_rounding_is_monotone(false, r * t, d * u, u);
        constants::law_rounding_cancels(false, d, 1, u);
        assert(1 * u == u);
        rounding::lemma_exact(way);
    }
}

/// A ramp holds its target once the way has been covered at the rate, and
/// before that it has gone from its start towards the target by the rate times
/// the time.
pub proof fn lemma_ramp(initial: Binary64, target: Binary64, rate: Binary64, time: Binary64)
    requires
        initial.finite(),
        target.finite(),
        safety::positive(rate),
        time.finite(),
        Binary64::of(ZERO).le(time),
        Ramp::between(initial, target, rate) is Some,
    ensures
        goes(initial, target, rate, time, Ramp::between(initial, target, rate)->0.at(time)),
{
    let way = target.minus(initial);
    let ramp = Ramp::between(initial, target, rate)->0;
    signs::law_differences_order_their_terms(target, initial);
    signs::law_zero_and_one(rate);
    signs::law_products_are_mirrored(Binary64::of(ONE), rate);
    signs::law_products_are_mirrored(rate, time);
    assert(way.signum() == Binary64::of(ONE) || way.signum() == Binary64::of(ONE).negated());
    if !time.zero() && !way.abs().over(rate).le(time) {
        let part = way.abs().over(rate);
        signs::law_products_take_their_sign(way.abs(), rate);
        lemma_quotient_is_a_number(way.abs(), rate);
        lemma_within_the_way(way.abs(), rate, time);
        let step = rate.times(time);
        if way.zero() {
            signs::law_zero_parts_are_zero(way.abs(), rate);
            assert(false);
        }
        let zero = Binary64::of(ZERO);
        signs::law_zero_adds_nothing(initial, zero);
        laws::law_sums_are_monotone(zero, step, initial);
        signs::law_products_commute(initial, zero);
        signs::law_products_commute(initial, step);
        signs::law_products_commute(initial, way);
        signs::law_products_commute(initial, way.abs());
        laws::law_sums_are_monotone(step, way.abs(), initial);
        assert(way.negative() ==> way.abs() == way.negated());
        assert(!way.negative() ==> way.abs() == way);
        signs::law_negation_mirrors(way, way);
    }
}

proof fn lemma_quotient_is_a_number(a: Binary64, b: Binary64)
    requires
        a.finite(),
        safety::positive(b),
    ensures
        !a.over(b).nan(),
{
    reveal(Binary64::spec_over);
    laws::lemma_zero_magnitude(b);
    laws::law_rounding_is_monotone(
        a.negative() != b.negative(),
        0,
        a.magnitude() * pow2(1074),
        b.magnitude(),
    );
}

/// Whether a value is the one that a change from a start to a target at a rate
/// has after a time. Once the way between them is covered it is the target.
/// Before that it is the start moved towards the target by the rate times the
/// time; it is never on the other side of the start, and not beyond the start
/// moved by the whole way, which is the target wherever that sum is exact.
pub open spec fn goes(
    initial: Binary64,
    target: Binary64,
    rate: Binary64,
    time: Binary64,
    value: Binary64,
) -> bool {
    let way = target.minus(initial);
    let step = rate.times(time);
    if time.zero() {
        value == initial
    } else if way.abs().over(rate).le(time) {
        value == target
    } else if initial.lt(target) {
        &&& value == initial.plus(step)
        &&& initial.le(value)
        &&& value.le(initial.plus(way))
    } else {
        &&& target.lt(initial)
        &&& value == initial.minus(step)
        &&& value.le(initial)
        &&& initial.plus(way).le(value)
    }
}

/// A step ends on the ramps where it starts on them, and turns and moves only
/// as its course does.
proof fn lemma_stepped(
    ramps: Ramps,
    m: spec_fn(Elementary) -> Binary64,
    start: Binary64,
    end: Binary64,
    s: Integration,
)
    requires
        on_ramps(ramps, start, s),
    ensures
        ramps.stepped(m, start, end, s) matches Some(after) ==> on_ramps(ramps, end, after),
{
    let h = end.minus(start);
    if h.same(Binary64::of(ZERO)) {
        if end.nan() || start.nan() {
            laws::law_nan_propagates(end, start);
        }
        laws::law_infinite_sum(end, start.negated());
        signs::law_differences_order_their_terms(end, start);
    }
}

spec fn on_ramps(ramps: Ramps, time: Binary64, s: Integration) -> bool {
    s.projected.speed_mps == ramps.speed.at(time) && s.projected.curvature_per_m
        == ramps.curvature.at(time)
}

/// The first quarter starts where its interval does.
proof fn lemma_first_quarter(low: Binary64, high: Binary64)
    requires
        low.finite(),
        high.finite(),
        high.minus(low).finite(),
    ensures
        super::quarter(low, high, 0).same(low),
{
    laws::law_small_naturals_are_exact(0);
    assert(0 * crate::binary64::conversion::one() == 0);
    let none = Binary64::from_natural(0);
    laws::lemma_zero_magnitude(none);
    signs::law_zero_parts_are_zero(none, Binary64::of(FOUR));
    let part = none.over(Binary64::of(FOUR));
    signs::law_zero_makes_zero(high.minus(low), part);
    signs::law_zero_adds_nothing(low, high.minus(low).times(part));
}

proof fn lemma_quartered(
    ramps: Ramps,
    m: spec_fn(Elementary) -> Binary64,
    low: Binary64,
    high: Binary64,
    n: nat,
    s: Integration,
)
    requires
        n <= 4,
        low.finite(),
        high.finite(),
        high.minus(low).finite(),
        on_ramps(ramps, low, s),
    ensures
        ramps.quartered(m, low, high, n, s) matches Some(after) ==> on_ramps(
            ramps,
            if n == 4 {
                high
            } else {
                super::quarter(low, high, n as int)
            },
            after,
        ),
    decreases n,
{
    lemma_first_quarter(low, high);
    if n > 0 {
        lemma_quartered(ramps, m, low, high, (n - 1) as nat, s);
        if let Some(before) = ramps.quartered(m, low, high, (n - 1) as nat, s) {
            lemma_stepped(
                ramps,
                m,
                super::quarter(low, high, n - 1),
                if n == 4 {
                    high
                } else {
                    super::quarter(low, high, n as int)
                },
                before,
            );
        }
    }
}

proof fn lemma_integrated(
    ramps: Ramps,
    m: spec_fn(Elementary) -> Binary64,
    cuts: Seq<Binary64>,
    n: nat,
    s: Integration,
)
    requires
        n < cuts.len(),
        forall|i: int|
            0 <= i < cuts.len() ==> (#[trigger] cuts[i]).finite() && Binary64::of(ZERO).le(cuts[i]),
        on_ramps(ramps, cuts[0], s),
    ensures
        ramps.integrated(m, cuts, n, s) matches Some(after) ==> on_ramps(
            ramps,
            cuts[n as int],
            after,
        ),
    decreases n,
{
    if n > 0 {
        lemma_integrated(ramps, m, cuts, (n - 1) as nat, s);
        if let Some(before) = ramps.integrated(m, cuts, (n - 1) as nat, s) {
            let (low, high) = (cuts[n - 1], cuts[n as int]);
            lemma_bounded_difference(high, low);
            lemma_quartered(ramps, m, low, high, 4, before);
        }
    }
}

/// The difference of two finite numbers that are not negative is finite.
pub proof fn lemma_bounded_difference(a: Binary64, b: Binary64)
    requires
        a.finite(),
        b.finite(),
        Binary64::of(ZERO).le(a),
        Binary64::of(ZERO).le(b),
    ensures
        a.minus(b).finite(),
{
    let zero = Binary64::of(ZERO);
    laws::law_sums_are_monotone(zero, b, a);
    laws::law_sums_are_monotone(zero, a, b);
    signs::law_zero_adds_nothing(a, zero);
    signs::law_zero_adds_nothing(b, zero);
}

/// The cuts begin at no time and end at the whole of it.
pub proof fn lemma_cuts(ramps: Ramps, dt: Binary64)
    requires
        dt.finite(),
        Binary64::of(ZERO).le(dt),
        !ramps.speed.arrival.nan(),
        !ramps.speed.arrival.negative(),
        !ramps.curvature.arrival.nan(),
        !ramps.curvature.arrival.negative(),
    ensures
        ({
            let cuts = super::cuts_of(ramps, dt);
            &&& cuts.len() == 4
            &&& cuts[0].same(Binary64::of(ZERO))
            &&& cuts[3].same(dt)
            &&& forall|i: int|
                0 <= i < 4 ==> (#[trigger] cuts[i]).finite() && Binary64::of(ZERO).le(cuts[i])
                    && cuts[i].le(dt)
            &&& forall|i: int, j: int|
                0 <= i < j < 4 ==> (#[trigger] cuts[i]).le(#[trigger] cuts[j])
        }),
{
    let z = Binary64::of(ZERO);
    let a = ramps.speed.arrival.min(dt);
    let b = ramps.curvature.arrival.min(dt);
    let one = super::inserted(seq![z], a);
    reveal_with_fuel(super::inserted, 4);
    assert(seq![z].drop_last() =~= Seq::empty());
    assert(one =~= seq![z, a] || one =~= seq![a, z]);
    assert(seq![z, a].drop_last() =~= seq![z]);
    assert(seq![a, z].drop_last() =~= seq![a]);
    assert(seq![a].drop_last() =~= Seq::empty());
    let two = super::inserted(one, b);
    assert(two.len() == 3);
    assert(forall|i: int| 0 <= i < 3 ==> #[trigger] two[i] == z || two[i] == a || two[i] == b);
    assert(dt.negative() ==> dt.zero());
    assert(a.total_rank() <= dt.total_rank() || dt.zero());
    assert(b.total_rank() <= dt.total_rank() || dt.zero());
    if !dt.zero() {
        assert(two[0] == z);
        assert(two.last().total_rank() <= dt.total_rank());
        assert(super::inserted(two, dt) == two.push(dt));
    } else {
        lemma_inserted(two, dt);
    }
}

/// An insertion adds one element and no other.
proof fn lemma_inserted(s: Seq<Binary64>, x: Binary64)
    ensures
        super::inserted(s, x).len() == s.len() + 1,
        forall|i: int|
            0 <= i < s.len() + 1 ==> #[trigger] super::inserted(s, x)[i] == x || exists|j: int|
                0 <= j < s.len() && s[j] == super::inserted(s, x)[i],
    decreases s.len(),
{
    if s.len() > 0 && s.last().total_rank() > x.total_rank() {
        lemma_inserted(s.drop_last(), x);
        let t = super::inserted(s.drop_last(), x);
        assert forall|i: int| 0 <= i < s.len() + 1 implies #[trigger] super::inserted(s, x)[i] == x
            || exists|j: int| 0 <= j < s.len() && s[j] == super::inserted(s, x)[i] by {
            if i < s.len() {
                assert(super::inserted(s, x)[i] == t[i]);
                if t[i] != x {
                    let j = choose|j: int| 0 <= j < s.len() - 1 && s.drop_last()[j] == t[i];
                    assert(s[j] == t[i]);
                }
            } else {
                assert(s[s.len() - 1] == super::inserted(s, x)[i]);
            }
        }
    } else {
        assert forall|i: int| 0 <= i < s.len() + 1 implies #[trigger] super::inserted(s, x)[i] == x
            || exists|j: int| 0 <= j < s.len() && s[j] == super::inserted(s, x)[i] by {
            if i < s.len() {
                assert(s[i] == super::inserted(s, x)[i]);
            }
        }
    }
}

/// The ramps of a transition arrive after a time that is not negative.
pub proof fn lemma_arrivals(motion: MotionTransition)
    requires
        super::ramps_of(motion) is Some,
        safety::positive(motion.max_accel_mps2),
        safety::positive(motion.max_decel_mps2),
        safety::positive(motion.max_curvature_rate_per_s),
    ensures
        ({
            let ramps = super::ramps_of(motion)->0;
            &&& !ramps.speed.arrival.nan() && !ramps.speed.arrival.negative()
            &&& !ramps.curvature.arrival.nan() && !ramps.curvature.arrival.negative()
        }),
{
    let rate = if motion.initial_speed_mps.le(motion.target_speed_mps) {
        motion.max_accel_mps2
    } else {
        motion.max_decel_mps2
    };
    let way = motion.target_speed_mps.minus(motion.initial_speed_mps);
    let bend = motion.target_curvature_per_m.minus(motion.initial_curvature_per_m);
    lemma_quotient_is_a_number(way.abs(), rate);
    lemma_quotient_is_a_number(bend.abs(), motion.max_curvature_rate_per_s);
    signs::law_products_take_their_sign(way.abs(), rate);
    signs::law_products_take_their_sign(bend.abs(), motion.max_curvature_rate_per_s);
}

/// A prediction ends on its ramps.
proof fn lemma_predicted(
    m: spec_fn(Elementary) -> Binary64,
    pose: Pose2,
    motion: MotionTransition,
    dt: Binary64,
)
    requires
        super::predicted(m, pose, motion, dt) is Some,
    ensures
        ({
            let end = super::predicted(m, pose, motion, dt)->0.projection;
            let rate = if motion.initial_speed_mps.le(motion.target_speed_mps) {
                motion.max_accel_mps2
            } else {
                motion.max_decel_mps2
            };
            &&& goes(motion.initial_speed_mps, motion.target_speed_mps, rate, dt, end.speed_mps)
            &&& goes(
                motion.initial_curvature_per_m,
                motion.target_curvature_per_m,
                motion.max_curvature_rate_per_s,
                dt,
                end.curvature_per_m,
            )
        }),
{
    let ramps = super::ramps_of(motion)->0;
    let rate = if motion.initial_speed_mps.le(motion.target_speed_mps) {
        motion.max_accel_mps2
    } else {
        motion.max_decel_mps2
    };
    lemma_ramp(motion.initial_speed_mps, motion.target_speed_mps, rate, dt);
    lemma_ramp(
        motion.initial_curvature_per_m,
        motion.target_curvature_per_m,
        motion.max_curvature_rate_per_s,
        dt,
    );
    lemma_arrivals(motion);
    lemma_cuts(ramps, dt);
    let cuts = super::cuts_of(ramps, dt);
    let s = super::initial_integration(pose, motion);
    lemma_integrated(ramps, m, cuts, 3, s);
}

/// The predicted speed is the target once the difference of the speeds has been
/// covered at the rate, which is that of speeding up or that of slowing down.
/// Before that it is the initial speed, raised or lowered by the rate times the
/// time: it is not below the initial speed on the way up and not above it on
/// the way down, and strictly beyond it unless the step is lost in rounding. It
/// does not pass the target either, wherever the initial speed and the
/// difference add up to the target without rounding.
pub proof fn law_speed_goes_to_its_target(
    m: spec_fn(Elementary) -> Binary64,
    pose: Pose2,
    motion: MotionTransition,
    dt: Binary64,
)
    requires
        super::predicted(m, pose, motion, dt) is Some,
    ensures
        ({
            let speed = super::predicted(m, pose, motion, dt)->0.projection.speed_mps;
            let (from, to) = (motion.initial_speed_mps, motion.target_speed_mps);
            let (up, down) = (motion.max_accel_mps2, motion.max_decel_mps2);
            let way = to.minus(from);
            &&& dt.zero() ==> speed == from
            &&& !dt.zero() && from.le(to) && way.abs().over(up).le(dt) ==> speed == to
            &&& !dt.zero() && to.lt(from) && way.abs().over(down).le(dt) ==> speed == to
            &&& from.le(to) && dt.lt(way.abs().over(up)) ==> from.le(speed) && (from.plus(way).same(
                to,
            ) ==> speed.le(to))
            &&& to.lt(from) && dt.lt(way.abs().over(down)) ==> speed.le(from) && (from.plus(
                way,
            ).same(to) ==> to.le(speed))
            &&& to.lt(from) && !dt.zero() && from.minus(down.times(dt)).lt(from) ==> speed.lt(from)
            &&& from.lt(to) && !dt.zero() && from.lt(from.plus(up.times(dt))) ==> from.lt(speed)
            &&& from.lt(to) && !dt.zero() && dt.lt(way.abs().over(up)) ==> speed == from.plus(
                up.times(dt),
            )
            &&& to.lt(from) && !dt.zero() && dt.lt(way.abs().over(down)) ==> speed == from.minus(
                down.times(dt),
            )
        }),
{
    lemma_predicted(m, pose, motion, dt);
}

/// The predicted curvature is the target once the difference of the curvatures
/// has been covered at the rate of steering. Before that it is the initial
/// curvature moved towards the target by the rate times the time, on the side
/// of the initial one where the target is.
pub proof fn law_curvature_goes_to_its_target(
    m: spec_fn(Elementary) -> Binary64,
    pose: Pose2,
    motion: MotionTransition,
    dt: Binary64,
)
    requires
        super::predicted(m, pose, motion, dt) is Some,
    ensures
        ({
            let curvature = super::predicted(m, pose, motion, dt)->0.projection.curvature_per_m;
            let (from, to) = (motion.initial_curvature_per_m, motion.target_curvature_per_m);
            let rate = motion.max_curvature_rate_per_s;
            let way = to.minus(from);
            &&& dt.zero() ==> curvature == from
            &&& !dt.zero() && way.abs().over(rate).le(dt) ==> curvature == to
            &&& from.le(to) && dt.lt(way.abs().over(rate)) ==> from.le(curvature) && (from.plus(
                way,
            ).same(to) ==> curvature.le(to))
            &&& to.le(from) && dt.lt(way.abs().over(rate)) ==> curvature.le(from) && (from.plus(
                way,
            ).same(to) ==> to.le(curvature))
            &&& from.lt(to) && !dt.zero() && dt.lt(way.abs().over(rate)) ==> curvature
                == from.plus(rate.times(dt))
            &&& to.lt(from) && !dt.zero() && dt.lt(way.abs().over(rate)) ==> curvature
                == from.minus(rate.times(dt))
        }),
{
    lemma_predicted(m, pose, motion, dt);
}

/// Without any time nothing changes: the pose, the speed and the curvature are
/// the first ones, and nothing has been travelled.
pub proof fn law_no_time_changes_nothing(
    m: spec_fn(Elementary) -> Binary64,
    pose: Pose2,
    motion: MotionTransition,
    dt: Binary64,
)
    requires
        super::predicted(m, pose, motion, dt) is Some,
        dt.zero(),
    ensures
        ({
            let end = super::predicted(m, pose, motion, dt)->0;
            &&& end.projection.pose == pose
            &&& end.projection.speed_mps == motion.initial_speed_mps
            &&& end.projection.curvature_per_m == motion.initial_curvature_per_m
            &&& end.projection.distance_m == Binary64::of(ZERO)
            &&& end.position_error_m == Binary64::of(ZERO)
            &&& end.heading_error_rad == Binary64::of(ZERO)
        }),
{
    let ramps = super::ramps_of(motion)->0;
    lemma_arrivals(motion);
    lemma_cuts(ramps, dt);
    let cuts = super::cuts_of(ramps, dt);
    assert(cuts[0].zero() && cuts[1].zero() && cuts[2].zero() && cuts[3].zero());
    reveal_with_fuel(Ramps::integrated, 4);
}

/// The way of a course is the speed times the time where it keeps its speed, no
/// less where it speeds up and no more where it slows down. From a standstill it
/// is half of what the acceleration and the time, twice, make.
pub proof fn law_ways_grow_with_the_acceleration(c: Course, h: Binary64)
    requires
        c.v.finite(),
        c.a.finite(),
        h.finite(),
        Binary64::of(ZERO).le(h),
        c.travel(h).finite(),
    ensures
        ({
            let zero = Binary64::of(ZERO);
            &&& c.a.zero() ==> c.travel(h).same(c.v.times(h))
            &&& zero.le(c.a) ==> c.v.times(h).le(c.travel(h))
            &&& c.a.le(zero) ==> c.travel(h).le(c.v.times(h))
            &&& c.v.zero() ==> c.travel(h).same(
                c.a.times(h).times(h).times(Binary64::of(HALF)),
            )
        }),
{
    let zero = Binary64::of(ZERO);
    let half = Binary64::of(HALF);
    let way = c.v.times(h);
    let once = c.a.times(h);
    let twice = once.times(h);
    let gained = twice.times(half);
    laws::law_infinite_sum(way, gained);
    signs::law_products_follow_the_signs(c.a, h);
    if once.nan() {
        laws::law_nan_propagates(once, h);
        laws::law_nan_propagates(twice, half);
    }
    if twice.nan() {
        laws::law_nan_propagates(twice, half);
    }
    signs::law_products_follow_the_signs(once, h);
    signs::law_products_follow_the_signs(twice, half);
    if zero.le(gained) {
        laws::law_sums_are_monotone(zero, gained, way);
    }
    if gained.le(zero) {
        laws::law_sums_are_monotone(gained, zero, way);
    }
    if c.v.zero() {
        signs::law_zero_makes_zero(h, c.v);
        signs::law_zero_adds_nothing(gained, way);
    }
    signs::law_zero_adds_nothing(way, zero);
    signs::law_products_commute(way, gained);
}

/// The bound after a segment takes in every part: the bounds before it, those of
/// the segment itself, and what the heading's bound, up to that of a whole
/// reversal, displaces the end of the segment by.
pub proof fn law_uncertainty_takes_in_every_part(before: ErrorBound, next: BoundedProjection)
    requires
        before.advanced(next) is Some,
    ensures
        ({
            let after = before.advanced(next)->0;
            let most = if before.heading_rad.le(Binary64::of(TWO)) {
                before.heading_rad
            } else {
                Binary64::of(TWO)
            };
            &&& before.position_m.plus(next.position_error_m).le(after.position_m)
            &&& next.position_error_m.le(after.position_m)
            &&& next.projection.distance_m.times(most).le(after.position_m)
            &&& before.heading_rad.plus(next.heading_error_rad).le(after.heading_rad)
            &&& next.heading_error_rad.le(after.heading_rad)
        }),
{
    let turned = next.projection.distance_m.times(before.heading_rad.min(Binary64::of(TWO)));
    let sum = before.position_m.plus(next.position_error_m);
    let turn = before.heading_rad.plus(next.heading_error_rad);
    lemma_covers(before.position_m, next.position_error_m);
    lemma_covers(before.heading_rad, next.heading_error_rad);
    laws::law_product_is_not_negative(
        next.projection.distance_m,
        before.heading_rad.min(Binary64::of(TWO)),
    );
    laws::law_infinite_sum(sum, turned);
    if turned.nan() {
        laws::law_nan_propagates(sum, turned);
    }
    if sum.plus(turned).finite() {
        lemma_covers(sum, turned);
    }
}

/// A sum of terms that are not negative is not less than either, and neither is
/// the number after it.
proof fn lemma_covers(a: Binary64, b: Binary64)
    requires
        a.finite(),
        b.finite(),
        Binary64::of(ZERO).le(a),
        Binary64::of(ZERO).le(b),
    ensures
        a.le(a.plus(b)),
        b.le(a.plus(b)),
        a.plus(b).le(a.plus(b).next_up()),
        Binary64::of(ZERO).le(a.plus(b)),
{
    laws::law_sums_do_not_shrink(a, b);
    laws::law_sums_do_not_shrink(b, a);
    signs::law_products_commute(a, b);
}

/// The bound on the remainder of a step takes in every part of it: that of the
/// acceleration, with three times its size either way, that of the rate of the
/// curvature either way, and that of the curvature itself.
pub proof fn law_remainders_take_in_every_part(
    c: Course,
    fastest: Binary64,
    sharpest: Binary64,
    h: Binary64,
)
    requires
        motion_transition::nonnegative(fastest),
        motion_transition::nonnegative(sharpest),
        motion_transition::nonnegative(h),
        c.a.finite(),
        c.r.finite(),
        c.remainder(fastest, sharpest, h).finite(),
    ensures
        ({
            let bound = c.remainder(fastest, sharpest, h);
            let cubed = h.times(h).times(h);
            let all = Binary64::of(TWENTY_FOUR);
            let first = Binary64::of(THREE).times(c.a.abs()).times(fastest).times(sharpest);
            let second = fastest.times(fastest).times(c.r.abs());
            let third = fastest.times(fastest).times(fastest).times(sharpest.times(sharpest));
            let other = Course { a: c.a.negated(), r: c.r.negated(), ..c };
            &&& first.times(cubed).over(all).le(bound)
            &&& second.times(cubed).over(all).le(bound)
            &&& third.times(cubed).over(all).le(bound)
            &&& other.remainder(fastest, sharpest, h) == bound
        }),
{
    let zero = Binary64::of(ZERO);
    let cubed = h.times(h).times(h);
    let all = Binary64::of(TWENTY_FOUR);
    let first = Binary64::of(THREE).times(c.a.abs()).times(fastest).times(sharpest);
    let second = fastest.times(fastest).times(c.r.abs());
    let third = fastest.times(fastest).times(fastest).times(sharpest.times(sharpest));
    let part = first.plus(second);
    let sum = part.plus(third);
    signs::law_negation_mirrors(c.a, c.a);
    signs::law_negation_mirrors(c.r, c.r);
    let product = sum.times(cubed);
    assert(product.finite()) by {
        reveal(Binary64::spec_over);
    }
    assert(sum.finite() && cubed.finite()) by {
        reveal(Binary64::spec_times);
    }
    laws::law_infinite_sum(part, third);
    laws::law_infinite_sum(first, second);
    laws::law_product_is_not_negative(h, h);
    lemma_number(h, h, h);
    laws::law_product_is_not_negative(h.times(h), h);
    lemma_sign(Binary64::of(THREE), c.a.abs(), fastest, sharpest);
    lemma_sign_of_three(fastest, fastest, c.r.abs());
    lemma_sign_of_three(fastest, fastest, fastest);
    laws::law_product_is_not_negative(sharpest, sharpest);
    if fastest.times(fastest).times(fastest).nan() || sharpest.times(sharpest).nan() {
        laws::law_nan_propagates(
            fastest.times(fastest).times(fastest),
            sharpest.times(sharpest),
        );
    }
    laws::law_product_is_not_negative(
        fastest.times(fastest).times(fastest),
        sharpest.times(sharpest),
    );
    lemma_covers(first, second);
    lemma_covers(part, third);
    lemma_share(first, sum, cubed, all);
    lemma_share(second, sum, cubed, all);
    lemma_share(third, sum, cubed, all);
}

proof fn lemma_number(a: Binary64, b: Binary64, c: Binary64)
    ensures
        a.times(b).nan() ==> a.times(b).times(c).nan(),
{
    if a.times(b).nan() {
        laws::law_nan_propagates(a.times(b), c);
    }
}

proof fn lemma_sign_of_three(a: Binary64, b: Binary64, c: Binary64)
    requires
        Binary64::of(ZERO).le(a),
        Binary64::of(ZERO).le(b),
        Binary64::of(ZERO).le(c),
    ensures
        a.times(b).times(c).nan() || Binary64::of(ZERO).le(a.times(b).times(c)),
{
    laws::law_product_is_not_negative(a, b);
    lemma_number(a, b, c);
    if !a.times(b).nan() {
        laws::law_product_is_not_negative(a.times(b), c);
    }
}

proof fn lemma_sign(a: Binary64, b: Binary64, c: Binary64, d: Binary64)
    requires
        Binary64::of(ZERO).le(a),
        Binary64::of(ZERO).le(b),
        Binary64::of(ZERO).le(c),
        Binary64::of(ZERO).le(d),
    ensures
        a.times(b).times(c).times(d).nan() || Binary64::of(ZERO).le(a.times(b).times(c).times(d)),
{
    lemma_sign_of_three(a, b, c);
    lemma_number(a.times(b), c, d);
    if !a.times(b).times(c).nan() {
        laws::law_product_is_not_negative(a.times(b).times(c), d);
    }
}

/// A part of a sum, scaled and divided as it is, is not more than it is.
proof fn lemma_share(part: Binary64, sum: Binary64, factor: Binary64, divisor: Binary64)
    requires
        part.finite(),
        sum.finite(),
        factor.finite(),
        Binary64::of(ZERO).le(part),
        part.le(sum),
        Binary64::of(ZERO).le(factor),
        safety::positive(divisor),
        sum.times(factor).finite(),
    ensures
        part.times(factor).over(divisor).le(sum.times(factor).over(divisor)),
{
    signs::law_products_are_monotone(part, sum, factor);
    signs::law_products_follow_the_signs(part, factor);
    signs::law_quotients_are_monotone(
        part.times(factor),
        sum.times(factor),
        divisor,
        divisor,
    );
}

} // verus!
