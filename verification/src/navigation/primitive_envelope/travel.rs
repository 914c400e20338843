//! Which way a predicted motion goes.
use super::motion;
use super::{Course, Integration, Ramp, Ramps};
use crate::autonomy::Pose2;
use crate::binary64::constants;
use crate::binary64::conversion;
use crate::binary64::laws;
use crate::binary64::rounding;
use crate::binary64::signs;
use crate::binary64::values::{FOUR, HALF, ONE, THREE, ZERO};
use crate::binary64::{Binary64, HIDDEN};
use crate::elementary::Elementary;
use crate::motion_transition::MotionTransition;
use crate::safety;
use vstd::arithmetic::power2::{lemma_pow2_adds, lemma_pow2_pos, pow2};
use vstd::prelude::*;

verus! {

/// Whether a value, where it is a number, is not negative.
spec fn up(x: Binary64) -> bool {
    x.nan() || Binary64::of(ZERO).le(x)
}

/// Whether a value, where it is a number, is not positive.
spec fn down(x: Binary64) -> bool {
    x.nan() || x.le(Binary64::of(ZERO))
}

proof fn lemma_times(a: Binary64, b: Binary64)
    ensures
        up(a) && up(b) ==> up(a.times(b)),
        up(a) && down(b) ==> down(a.times(b)),
        down(a) && up(b) ==> down(a.times(b)),
{
    if a.nan() || b.nan() {
        laws::law_nan_propagates(a, b);
    } else {
        signs::law_products_follow_the_signs(a, b);
    }
}

proof fn lemma_plus(a: Binary64, b: Binary64)
    ensures
        up(a) && up(b) ==> up(a.plus(b)),
        down(a) && down(b) ==> down(a.plus(b)),
{
    if a.nan() || b.nan() {
        laws::law_nan_propagates(a, b);
    } else {
        signs::law_sums_keep_a_common_sign(a, b);
    }
}

proof fn lemma_third(a: Binary64)
    ensures
        up(a) ==> up(a.over(Binary64::of(THREE))),
        down(a) ==> down(a.over(Binary64::of(THREE))),
{
    let three = Binary64::of(THREE);
    if a.nan() {
        laws::law_nan_propagates(a, three);
    } else {
        signs::law_products_take_their_sign(a, three);
        if a.zero() {
            signs::law_zero_parts_are_zero(a, three);
        }
    }
}

/// With speed and acceleration forwards the turn has the side of the curvature
/// and its rate.
proof fn lemma_turn(c: Course, t: Binary64)
    requires
        up(c.v),
        up(t),
    ensures
        up(c.a) && up(c.k) && up(c.r) ==> up(c.turn(t)),
        up(c.a) && down(c.k) && down(c.r) ==> down(c.turn(t)),
{
    let half = Binary64::of(HALF);
    let vk = c.v.times(c.k);
    let vr = c.v.times(c.r);
    let ak = c.a.times(c.k);
    let ar = c.a.times(c.r);
    lemma_times(c.v, c.k);
    lemma_times(vk, t);
    lemma_times(c.v, c.r);
    lemma_times(c.a, c.k);
    lemma_plus(vr, ak);
    let s = vr.plus(ak);
    lemma_times(s, t);
    lemma_times(s.times(t), t);
    lemma_times(s.times(t).times(t), half);
    lemma_plus(vk.times(t), s.times(t).times(t).times(half));
    lemma_times(c.a, c.r);
    lemma_times(ar, t);
    lemma_times(ar.times(t), t);
    lemma_times(ar.times(t).times(t), t);
    let cubed = ar.times(t).times(t).times(t);
    lemma_third(cubed);
    lemma_plus(
        vk.times(t).plus(s.times(t).times(t).times(half)),
        cubed.over(Binary64::of(THREE)),
    );
}

/// Whether a value, where it is a number, is zero.
spec fn nil(x: Binary64) -> bool {
    x.nan() || x.zero()
}

proof fn lemma_nil(a: Binary64, b: Binary64)
    ensures
        nil(a) ==> nil(a.times(b)) && nil(b.times(a)),
        nil(a) && nil(b) ==> nil(a.plus(b)),
        nil(a) ==> nil(a.over(Binary64::of(THREE))),
{
    signs::law_products_commute(a, b);
    if a.nan() || b.nan() {
        laws::law_nan_propagates(a, b);
    } else if a.zero() {
        reveal(Binary64::spec_times);
        if b.finite() {
            signs::law_zero_makes_zero(b, a);
        }
        if b.zero() {
            signs::law_zero_adds_nothing(a, b);
        }
    }
    if a.nan() {
        laws::law_nan_propagates(a, Binary64::of(THREE));
    } else if a.zero() {
        signs::law_zero_parts_are_zero(a, Binary64::of(THREE));
    }
}

/// Without curvature nothing turns.
proof fn lemma_no_turn(c: Course, t: Binary64)
    requires
        nil(c.k),
        nil(c.r),
    ensures
        nil(c.turn(t)),
{
    let half = Binary64::of(HALF);
    let vk = c.v.times(c.k);
    let vr = c.v.times(c.r);
    let ak = c.a.times(c.k);
    let ar = c.a.times(c.r);
    lemma_nil(c.k, c.v);
    lemma_nil(vk, t);
    lemma_nil(c.r, c.v);
    lemma_nil(c.k, c.a);
    lemma_nil(vr, ak);
    let s = vr.plus(ak);
    lemma_nil(s, t);
    lemma_nil(s.times(t), t);
    lemma_nil(s.times(t).times(t), half);
    lemma_nil(vk.times(t), s.times(t).times(t).times(half));
    lemma_nil(c.r, c.a);
    lemma_nil(ar, t);
    lemma_nil(ar.times(t), t);
    lemma_nil(ar.times(t).times(t), t);
    let cubed = ar.times(t).times(t).times(t);
    lemma_nil(cubed, half);
    lemma_nil(
        vk.times(t).plus(s.times(t).times(t).times(half)),
        cubed.over(Binary64::of(THREE)),
    );
}

/// The quarters of an interval of times come in order and stay in it.
proof fn lemma_quarters(low: Binary64, high: Binary64, i: int)
    requires
        low.finite(),
        high.finite(),
        Binary64::of(ZERO).le(low),
        low.le(high),
        0 <= i <= 3,
    ensures
        ({
            let q = super::quarter(low, high, i);
            &&& q.finite() && low.le(q) && q.le(high)
            &&& i < 3 ==> q.le(super::quarter(low, high, i + 1))
        }),
{
    let zero = Binary64::of(ZERO);
    motion::lemma_bounded_difference(high, low);
    signs::law_differences_order_their_terms(high, low);
    let d = high.minus(low);
    lemma_parts(i);
    lemma_parts(3);
    if i < 3 {
        lemma_parts(i + 1);
    }
    let f = part(i);
    signs::law_products_are_monotone(zero, f, d);
    signs::law_products_are_monotone(f, part(3), d);
    signs::law_zero_and_one(d);
    lemma_three_quarters(low, high);
    let x = d.times(f);
    let last = d.times(part(3));
    assert(last.finite());
    lemma_moved(low, d.times(zero), x);
    lemma_moved(low, x, last);
    signs::law_zero_adds_nothing(low, d.times(zero));
    if i < 3 {
        let g = part(i + 1);
        signs::law_products_are_monotone(f, g, d);
        signs::law_products_are_monotone(g, part(3), d);
        lemma_moved(low, x, d.times(g));
    }
}

proof fn lemma_moved(a: Binary64, x: Binary64, y: Binary64)
    requires
        a.finite(),
        x.finite(),
        y.finite(),
        x.le(y),
    ensures
        a.plus(x).le(a.plus(y)),
{
    laws::law_sums_are_monotone(x, y, a);
    signs::law_products_commute(a, x);
    signs::law_products_commute(a, y);
}

spec fn part(i: int) -> Binary64 {
    Binary64::from_natural(i as u64).over(Binary64::of(FOUR))
}

/// The parts of a whole that are so many quarters are exact.
proof fn lemma_parts(i: int)
    requires
        0 <= i <= 3,
    ensures
        part(i).finite(),
        Binary64::of(ZERO).le(part(i)),
        part(i).le(part(3)),
        i < 3 ==> part(i).le(part(i + 1)),
        4 * part(i).magnitude() == i * conversion::one(),
        !part(i).negative(),
{
    lemma_part_is_exact(i);
    lemma_part_is_exact(3);
    laws::law_order_is_that_of_the_values(Binary64::of(ZERO), part(i));
    laws::lemma_zero_magnitude(Binary64::of(ZERO));
    lemma_pow2_pos(1074);
    let u = conversion::one();
    assert(i * u <= 3 * u && 0 <= i * u) by (nonlinear_arith)
        requires 0 <= i <= 3, u > 0;
    laws::law_order_is_that_of_the_values(part(i), part(3));
    if i < 3 {
        lemma_part_is_exact(i + 1);
        assert(i * u <= (i + 1) * u) by (nonlinear_arith)
            requires u > 0;
        laws::law_order_is_that_of_the_values(part(i), part(i + 1));
    }
}

proof fn lemma_part_is_exact(i: int)
    requires
        0 <= i <= 3,
    ensures
        part(i).finite(),
        !part(i).negative(),
        4 * part(i).magnitude() == i * conversion::one(),
{
    reveal(Binary64::spec_over);
    let n = Binary64::from_natural(i as u64);
    let u = pow2(1074);
    lemma_pow2_pos(1074);
    laws::law_small_naturals_are_exact(i as u64);
    vstd::arithmetic::power2::lemma2_to64();
    vstd::arithmetic::power2::lemma2_to64_rest();
    constants::lemma_whole(FOUR, 1025, 4, 50);
    laws::lemma_zero_magnitude(n);
    laws::lemma_zero_magnitude(Binary64::of(FOUR));
    constants::law_rounding_cancels(false, i as nat * u, 4, u);
    lemma_pow2_adds(2, 1072);
    let p = pow2(1072);
    assert(i as nat * u == (i as nat * p) * 4) by (nonlinear_arith)
        requires u == 4 * p;
    constants::law_rounding_cancels(false, i as nat * p, 1, 4);
    laws::law_rounding_is_exact_on_representable_values(false, i as nat, 1072);
}

/// Three quarters of the way do not pass the end.
proof fn lemma_three_quarters(low: Binary64, high: Binary64)
    requires
        low.finite(),
        high.finite(),
        Binary64::of(ZERO).le(low),
        low.le(high),
        high.minus(low).finite(),
    ensures
        high.minus(low).times(part(3)).finite(),
        low.plus(high.minus(low).times(part(3))).le(high),
{
    let d = high.minus(low);
    let f = part(3);
    let u = pow2(1074);
    lemma_pow2_pos(1074);
    lemma_part_is_exact(3);
    laws::law_order_is_that_of_the_values(low, high);
    laws::lemma_zero_magnitude(low);
    laws::lemma_zero_magnitude(high);
    laws::lemma_zero_magnitude(d);
    laws::lemma_zero_magnitude(f);
    signs::law_differences_order_their_terms(high, low);
    let n = (high.units() - low.units()) as nat;
    assert(low.negated().magnitude() == low.magnitude());
    reveal(Binary64::spec_plus);
    reveal(Binary64::spec_times);
    if n == 0 {
        signs::law_zero_makes_zero(f, d);
        let x = d.times(f);
        signs::law_zero_adds_nothing(low, x);
    } else {
        assert(d == rounding::nearest(false, n, 1));
        let m = d.magnitude();
        let k = f.magnitude();
        let x = d.times(f);
        assert(x == rounding::nearest(false, m * k, u));
        assert(m * k <= m * u) by (nonlinear_arith)
            requires 4 * k == 3 * u;
        laws::law_rounding_is_monotone(false, m * k, m * u, u);
        constants::law_rounding_cancels(false, m, 1, u);
        assert(1 * u == u);
        rounding::lemma_exact(d);
        assert(x.pattern() <= d.pattern());
        laws::lemma_zero_magnitude(x);
        let y = x.magnitude();
        if n < 2 * HIDDEN {
            vstd::arithmetic::power2::lemma2_to64();
            laws::law_rounding_is_exact_on_representable_values(false, n, 0);
            assert(n * pow2(0) == n);
            if x.pattern() < d.pattern() {
                laws::lemma_magnitude_increases(x, d);
            }
            assert(y <= n);
        } else {
            laws::law_rounding_is_near(false, n, 1);
            laws::law_rounding_is_near(false, m * k, u);
            assert(m * 1 == m);
            lemma_large(n, m, y, k, u);
        }
        let sum = low.units() + x.units();
        if sum == 0 {
        } else {
            laws::law_rounding_is_monotone(false, sum as nat, high.magnitude(), 1);
            rounding::lemma_exact(high);
            laws::law_rounding_is_monotone(false, high.magnitude(), high.magnitude(), 1);
        }
    }
}

proof fn lemma_large(n: nat, m: nat, y: nat, k: nat, u: nat)
    requires
        n >= 2 * HIDDEN,
        4 * k == 3 * u,
        u > 0,
        (2 * HIDDEN) * m <= (2 * HIDDEN + 1) * n + HIDDEN,
        (2 * HIDDEN) * (y * u) <= (2 * HIDDEN + 1) * (m * k) + HIDDEN * u,
    ensures
        y <= n,
{
    let h: int = HIDDEN as int;
    assert(h == 0x0010_0000_0000_0000);
    assert(4 * (m * k) == 3 * (m * u)) by (nonlinear_arith)
        requires 4 * k == 3 * u;
    let (a, b) = (y * u, m * u);
    assert((8 * h) * a <= (3 * (2 * h + 1)) * b + (4 * h) * u) by (nonlinear_arith)
        requires (2 * h) * a <= (2 * h + 1) * (m * k) + h * u, 4 * (m * k) == 3 * b;
    assert((8 * h) * y <= (3 * (2 * h + 1)) * m + 4 * h) by (nonlinear_arith)
        requires (8 * h) * a <= (3 * (2 * h + 1)) * b + (4 * h) * u, a == y * u, b == m * u, u > 0;
    assert(36028797018963968 * y <= 27021597764222979 * m + 18014398509481984);
    assert(9007199254740992 * m <= 9007199254740993 * n + 4503599627370496);
    lemma_numbers(n as int, m as int, y as int);
}

proof fn lemma_numbers(n: int, m: int, y: int)
    requires
        n >= 9007199254740992,
        36028797018963968 * y <= 27021597764222979 * m + 18014398509481984,
        9007199254740992 * m <= 9007199254740993 * n + 4503599627370496,
    ensures
        y <= n,
{
}

/// What a course is at a time: forwards, and to the side of the ramp of
/// curvatures.
proof fn lemma_sides(initial: Binary64, target: Binary64, rate: Binary64, time: Binary64)
    requires
        initial.finite(),
        target.finite(),
        safety::positive(rate),
        time.finite(),
        Binary64::of(ZERO).le(time),
        Ramp::between(initial, target, rate) is Some,
    ensures
        ({
            let ramp = Ramp::between(initial, target, rate)->0;
            let zero = Binary64::of(ZERO);
            &&& zero.le(initial) && initial.le(target) ==> up(ramp.at(time)) && up(
                ramp.derivative(time),
            )
            &&& initial.le(zero) && target.le(initial) ==> down(ramp.at(time)) && down(
                ramp.derivative(time),
            )
            &&& initial.zero() && target.zero() ==> nil(ramp.at(time)) && nil(
                ramp.derivative(time),
            )
        }),
{
    let ramp = Ramp::between(initial, target, rate)->0;
    let way = target.minus(initial);
    motion::lemma_ramp(initial, target, rate, time);
    signs::law_differences_order_their_terms(target, initial);
    signs::law_zero_and_one(rate);
    signs::law_products_are_mirrored(Binary64::of(ONE), rate);
    assert(way.signum() == Binary64::of(ONE) || way.signum() == Binary64::of(ONE).negated());
    if way.zero() {
        signs::law_zero_parts_are_zero(way.abs(), rate);
    }
}

/// A bearing that a prediction keeps: to the left, to the right, or straight
/// on, and straight along one of the axes.
#[derive(Clone, Copy)]
enum Bearing {
    Left,
    Right,
    Straight,
    First,
    Second,
}

/// Whether the ramps keep a bearing.
spec fn kept(b: Bearing, motion: MotionTransition) -> bool {
    let zero = Binary64::of(ZERO);
    let (k, l) = (motion.initial_curvature_per_m, motion.target_curvature_per_m);
    let faster = motion.initial_speed_mps.le(motion.target_speed_mps);
    match b {
        Bearing::Left => faster && zero.le(k) && k.le(l),
        Bearing::Right => faster && k.le(zero) && l.le(k),
        Bearing::Straight => k.zero() && l.zero(),
        _ => faster && k.zero() && l.zero(),
    }
}

/// Whether the host says that a heading is along the first axis.
pub open spec fn along_first(m: spec_fn(Elementary) -> Binary64, yaw: Binary64) -> bool {
    forall|a: Binary64|
        #![trigger a.same(yaw)]
        a.same(yaw) ==> m(Elementary::Cosine(a)) == Binary64::of(ONE) && m(
            Elementary::Sine(a),
        ).zero()
}

/// Whether the host says that a heading is along the second axis.
pub open spec fn along_second(m: spec_fn(Elementary) -> Binary64, yaw: Binary64) -> bool {
    forall|a: Binary64|
        #![trigger a.same(yaw)]
        a.same(yaw) ==> m(Elementary::Cosine(a)).zero() && m(Elementary::Sine(a)) == Binary64::of(
            ONE,
        )
}

spec fn headed(b: Bearing, m: spec_fn(Elementary) -> Binary64, yaw: Binary64) -> bool {
    &&& b is First ==> along_first(m, yaw)
    &&& b is Second ==> along_second(m, yaw)
}

/// Whether a pose lies from a start as a bearing says, as far as it can be
/// represented.
spec fn lies(b: Bearing, start: Pose2, p: Pose2) -> bool {
    match b {
        Bearing::Left => p.yaw_rad.finite() ==> start.yaw_rad.le(p.yaw_rad),
        Bearing::Right => p.yaw_rad.finite() ==> p.yaw_rad.le(start.yaw_rad),
        Bearing::Straight => p.yaw_rad.same(start.yaw_rad),
        Bearing::First => {
            &&& p.yaw_rad.same(start.yaw_rad)
            &&& p.x_m.finite() ==> start.x_m.le(p.x_m)
            &&& p.y_m.same(start.y_m)
        },
        Bearing::Second => {
            &&& p.yaw_rad.same(start.yaw_rad)
            &&& p.y_m.finite() ==> start.y_m.le(p.y_m)
            &&& p.x_m.same(start.x_m)
        },
    }
}

proof fn lemma_further(a: Binary64, b: Binary64)
    requires
        a.plus(b).finite(),
    ensures
        a.finite(),
        b.finite(),
        up(b) ==> a.le(a.plus(b)),
        down(b) ==> a.plus(b).le(a),
        nil(b) ==> a.plus(b).same(a),
{
    let zero = Binary64::of(ZERO);
    laws::law_infinite_sum(a, b);
    signs::law_zero_adds_nothing(a, zero);
    if up(b) {
        lemma_moved(a, zero, b);
    }
    if down(b) {
        lemma_moved(a, b, zero);
    }
    if nil(b) {
        signs::law_zero_adds_nothing(a, b);
    }
}

/// A step forwards in time keeps a bearing.
#[verifier::rlimit(30)]
proof fn lemma_step(
    b: Bearing,
    motion: MotionTransition,
    m: spec_fn(Elementary) -> Binary64,
    start: Pose2,
    from: Binary64,
    to: Binary64,
    s: Integration,
    ramps: Ramps,
    dt: Binary64,
)
    requires
        motion.well_formed(dt),
        super::ramps_of(motion) == Some(ramps),
        kept(b, motion),
        headed(b, m, start.yaw_rad),
        start.finite(),
        lies(b, start, s.projected.pose),
        from.finite(),
        to.finite(),
        Binary64::of(ZERO).le(from),
        from.le(to),
    ensures
        ramps.stepped(m, from, to, s) matches Some(after) ==> lies(b, start, after.projected.pose),
{
    let h = to.minus(from);
    let c = ramps.course(from);
    let pose = s.projected.pose;
    let rate = if motion.initial_speed_mps.le(motion.target_speed_mps) {
        motion.max_accel_mps2
    } else {
        motion.max_decel_mps2
    };
    signs::law_differences_order_their_terms(to, from);
    lemma_sides(motion.initial_speed_mps, motion.target_speed_mps, rate, from);
    lemma_sides(
        motion.initial_curvature_per_m,
        motion.target_curvature_per_m,
        motion.max_curvature_rate_per_s,
        from,
    );
    if ramps.stepped(m, from, to, s) is Some && !h.same(Binary64::of(ZERO)) {
        let after = ramps.stepped(m, from, to, s)->0.projected.pose;
        let half = Binary64::of(HALF);
        let mid = h.times(half);
        lemma_times(h, half);
        let dyaw = c.turn(h);
        if b is Left || b is Right {
            lemma_turn(c, h);
            if after.yaw_rad.finite() {
                lemma_further(pose.yaw_rad, dyaw);
            }
        } else {
            lemma_no_turn(c, h);
            lemma_no_turn(c, mid);
            signs::law_zero_adds_nothing(pose.yaw_rad, dyaw);
            let bend = c.turn(mid);
            let middle = pose.yaw_rad.plus(bend);
            let speed = c.v.plus(c.a.times(h).times(half));
            let cos = m(Elementary::Cosine(middle));
            let sin = m(Elementary::Sine(middle));
            let dx = speed.times(cos).times(h);
            let dy = speed.times(sin).times(h);
            if b is First || b is Second {
                if bend.nan() {
                    motion::lemma_bounded_difference(to, from);
                    lemma_nan_bend(c, h);
                }
                signs::law_zero_adds_nothing(pose.yaw_rad, bend);
                assert(middle.same(start.yaw_rad));
                lemma_times(c.a, h);
                lemma_times(c.a.times(h), half);
                lemma_plus(c.v, c.a.times(h).times(half));
                if b is First {
                    assert(m(Elementary::Cosine(middle)) == Binary64::of(ONE));
                    lemma_times(speed, cos);
                    lemma_times(speed.times(cos), h);
                    lemma_nil(sin, speed);
                    lemma_nil(speed.times(sin), h);
                    if after.x_m.finite() {
                        lemma_further(pose.x_m, dx);
                    }
                    signs::law_zero_adds_nothing(pose.y_m, dy);
                } else {
                    assert(m(Elementary::Sine(middle)) == Binary64::of(ONE));
                    lemma_times(speed, sin);
                    lemma_times(speed.times(sin), h);
                    lemma_nil(cos, speed);
                    lemma_nil(speed.times(cos), h);
                    if after.y_m.finite() {
                        lemma_further(pose.y_m, dy);
                    }
                    signs::law_zero_adds_nothing(pose.x_m, dx);
                }
            }
        }
    }
}

/// Half of a time turns by a number where the whole of it does, without
/// curvature.
proof fn lemma_nan_bend(c: Course, h: Binary64)
    requires
        nil(c.k),
        nil(c.r),
        h.finite(),
        c.turn(h).finite(),
    ensures
        !c.turn(h.times(Binary64::of(HALF))).nan(),
{
    let half = Binary64::of(HALF);
    let t = h.times(half);
    let zero = Binary64::of(ZERO);
    reveal(Binary64::spec_times);
    let vk = c.v.times(c.k);
    let s = c.v.times(c.r).plus(c.a.times(c.k));
    let ar = c.a.times(c.r);
    let first = vk.times(h);
    let second = s.times(h).times(h).times(half);
    let third = ar.times(h).times(h).times(h).over(Binary64::of(THREE));
    laws::law_infinite_sum(first.plus(second), third);
    laws::law_infinite_sum(first, second);
    laws::law_infinite_sum(c.v.times(c.r), c.a.times(c.k));
    reveal(Binary64::spec_over);
    assert(t.finite()) by {
        lemma_half_is_finite(h);
    }
    assert(vk.finite() && s.finite() && ar.finite());
    lemma_nil(c.k, c.v);
    lemma_nil(c.r, c.v);
    lemma_nil(c.k, c.a);
    lemma_nil(c.v.times(c.r), c.a.times(c.k));
    lemma_nil(c.r, c.a);
    assert(vk.zero() && s.zero() && ar.zero());
    signs::law_zero_makes_zero(t, vk);
    signs::law_zero_makes_zero(t, s);
    signs::law_zero_makes_zero(t, s.times(t));
    signs::law_zero_makes_zero(half, s.times(t).times(t));
    signs::law_zero_makes_zero(t, ar);
    signs::law_zero_makes_zero(t, ar.times(t));
    signs::law_zero_makes_zero(t, ar.times(t).times(t));
    signs::law_zero_parts_are_zero(ar.times(t).times(t).times(t), Binary64::of(THREE));
    signs::law_zero_adds_nothing(vk.times(t), s.times(t).times(t).times(half));
    signs::law_zero_adds_nothing(
        vk.times(t).plus(s.times(t).times(t).times(half)),
        ar.times(t).times(t).times(t).over(Binary64::of(THREE)),
    );
}

proof fn lemma_half_is_finite(h: Binary64)
    requires
        h.finite(),
    ensures
        h.times(Binary64::of(HALF)).finite(),
{
    let half = Binary64::of(HALF);
    let one = Binary64::of(ONE);
    signs::law_zero_and_one(h.abs());
    signs::law_products_are_monotone(half, one, h.abs());
    signs::law_products_are_monotone(Binary64::of(ZERO), half, h.abs());
    signs::law_products_commute(half, h.abs());
    signs::law_products_are_mirrored(h, half);
}

/// The quarters of a piece of the time keep a bearing.
proof fn lemma_piece(
    b: Bearing,
    motion: MotionTransition,
    m: spec_fn(Elementary) -> Binary64,
    start: Pose2,
    low: Binary64,
    high: Binary64,
    n: nat,
    s: Integration,
    ramps: Ramps,
    dt: Binary64,
)
    requires
        n <= 4,
        motion.well_formed(dt),
        super::ramps_of(motion) == Some(ramps),
        kept(b, motion),
        headed(b, m, start.yaw_rad),
        start.finite(),
        lies(b, start, s.projected.pose),
        low.finite(),
        high.finite(),
        Binary64::of(ZERO).le(low),
        low.le(high),
    ensures
        ramps.quartered(m, low, high, n, s) matches Some(after) ==> lies(
            b,
            start,
            after.projected.pose,
        ),
    decreases n,
{
    if n > 0 {
        lemma_piece(b, motion, m, start, low, high, (n - 1) as nat, s, ramps, dt);
        lemma_quarters(low, high, n - 1);
        if n < 4 {
            lemma_quarters(low, high, n as int);
        }
        if let Some(before) = ramps.quartered(m, low, high, (n - 1) as nat, s) {
            lemma_step(
                b,
                motion,
                m,
                start,
                super::quarter(low, high, n - 1),
                if n == 4 {
                    high
                } else {
                    super::quarter(low, high, n as int)
                },
                before,
                ramps,
                dt,
            );
        }
    }
}

/// The pieces between cuts in order keep a bearing.
proof fn lemma_pieces(
    b: Bearing,
    motion: MotionTransition,
    m: spec_fn(Elementary) -> Binary64,
    start: Pose2,
    cuts: Seq<Binary64>,
    n: nat,
    s: Integration,
    ramps: Ramps,
    dt: Binary64,
)
    requires
        n < cuts.len(),
        motion.well_formed(dt),
        super::ramps_of(motion) == Some(ramps),
        kept(b, motion),
        headed(b, m, start.yaw_rad),
        start.finite(),
        lies(b, start, s.projected.pose),
        forall|i: int|
            0 <= i < cuts.len() ==> (#[trigger] cuts[i]).finite() && Binary64::of(ZERO).le(cuts[i]),
        forall|i: int, j: int|
            0 <= i < j < cuts.len() ==> (#[trigger] cuts[i]).le(#[trigger] cuts[j]),
    ensures
        ramps.integrated(m, cuts, n, s) matches Some(after) ==> lies(
            b,
            start,
            after.projected.pose,
        ),
    decreases n,
{
    if n > 0 {
        lemma_pieces(b, motion, m, start, cuts, (n - 1) as nat, s, ramps, dt);
        if let Some(before) = ramps.integrated(m, cuts, (n - 1) as nat, s) {
            assert(cuts[n - 1].le(cuts[n as int]));
            lemma_piece(b, motion, m, start, cuts[n - 1], cuts[n as int], 4, before, ramps, dt);
        }
    }
}

/// A prediction keeps its bearing.
proof fn lemma_predicted(
    b: Bearing,
    m: spec_fn(Elementary) -> Binary64,
    pose: Pose2,
    motion: MotionTransition,
    dt: Binary64,
)
    requires
        super::predicted(m, pose, motion, dt) is Some,
        kept(b, motion),
        headed(b, m, pose.yaw_rad),
    ensures
        lies(b, pose, super::predicted(m, pose, motion, dt)->0.projection.pose),
{
    let ramps = super::ramps_of(motion)->0;
    motion::lemma_arrivals(motion);
    motion::lemma_cuts(ramps, dt);
    lemma_pieces(
        b,
        motion,
        m,
        pose,
        super::cuts_of(ramps, dt),
        3,
        super::initial_integration(pose, motion),
        ramps,
        dt,
    );
}

/// A vehicle that does not slow down and is steered to the left, and further to
/// the left, is turned to the left or not at all, and one steered to the right to
/// the right. One that is steered straight keeps its heading, whatever its
/// speed.
pub proof fn law_motions_turn_to_the_side_of_their_curvature(
    m: spec_fn(Elementary) -> Binary64,
    pose: Pose2,
    motion: MotionTransition,
    dt: Binary64,
)
    requires
        super::predicted(m, pose, motion, dt) is Some,
    ensures
        ({
            let end = super::predicted(m, pose, motion, dt)->0.projection.pose;
            let (k, l) = (motion.initial_curvature_per_m, motion.target_curvature_per_m);
            let zero = Binary64::of(ZERO);
            let faster = motion.initial_speed_mps.le(motion.target_speed_mps);
            &&& faster && zero.le(k) && k.le(l) ==> pose.yaw_rad.le(end.yaw_rad)
            &&& faster && k.le(zero) && l.le(k) ==> end.yaw_rad.le(pose.yaw_rad)
            &&& k.zero() && l.zero() ==> end.yaw_rad.same(pose.yaw_rad)
        }),
{
    if kept(Bearing::Left, motion) {
        lemma_predicted(Bearing::Left, m, pose, motion, dt);
    }
    if kept(Bearing::Right, motion) {
        lemma_predicted(Bearing::Right, m, pose, motion, dt);
    }
    if kept(Bearing::Straight, motion) {
        lemma_predicted(Bearing::Straight, m, pose, motion, dt);
    }
}

/// A vehicle that goes straight along an axis, and does not slow down, goes
/// forwards along that axis or stays, and its other coordinate stays as it is.
/// The host says that the heading is along the axis: its cosine is one and its
/// sine zero along the first, and the other way round along the second.
pub proof fn law_straight_motions_go_along_their_heading(
    m: spec_fn(Elementary) -> Binary64,
    pose: Pose2,
    motion: MotionTransition,
    dt: Binary64,
)
    requires
        super::predicted(m, pose, motion, dt) is Some,
        motion.initial_speed_mps.le(motion.target_speed_mps),
        motion.initial_curvature_per_m.zero(),
        motion.target_curvature_per_m.zero(),
    ensures
        ({
            let end = super::predicted(m, pose, motion, dt)->0.projection.pose;
            &&& along_first(m, pose.yaw_rad) ==> pose.x_m.le(end.x_m) && end.y_m.same(pose.y_m)
            &&& along_second(m, pose.yaw_rad) ==> pose.y_m.le(end.y_m) && end.x_m.same(pose.x_m)
        }),
{
    if headed(Bearing::First, m, pose.yaw_rad) {
        lemma_predicted(Bearing::First, m, pose, motion, dt);
    }
    if headed(Bearing::Second, m, pose.yaw_rad) {
        lemma_predicted(Bearing::Second, m, pose, motion, dt);
    }
}

} // verus!
