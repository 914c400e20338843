//! What the numbers of the protocols measure.
use super::chassis::FactoryProfile;
use super::imu::ImuConfig;
use super::imu;
use super::n10::{N10Config, Packet};
use crate::binary64::constants;
use crate::binary64::conversion;
use crate::binary64::laws;
use crate::binary64::signs;
use crate::binary64::values::{
    DEGREE, FIFTEEN, FULL_SCALE, GAIN_1200, GAIN_1300, GRAVITY, HALF_TURN_DEG, HUNDRED, ONE, PI,
    PWM_CENTRE, PWM_HIGH, SIXTEEN, THOUSAND, TWO, TWO_THOUSAND, ZERO,
};
use crate::binary64::{Binary64, HIDDEN};
use crate::elementary::Elementary;
use crate::sensors::{Timestamp, Vec3};
use vstd::prelude::*;

verus! {

/// A word of an inertial frame is its two bytes, the low one first, in two's
/// complement: it is congruent to them modulo the number of words, and the
/// nearest such number to zero.
pub proof fn law_inertial_words_are_signed(low: u8, high: u8)
    ensures
        (imu::word(low, high) - (low + 256 * high)) % 65_536 == 0,
        -32_768 <= imu::word(low, high) <= 32_767,
        imu::word(low, high) < 0 <==> high >= 128,
{
}

/// An integer becomes a number with its sign, and a larger one no smaller a
/// number.
proof fn lemma_integers(a: i64, b: i64)
    requires
        -32_768 <= a <= b <= 32_767,
    ensures
        Binary64::from_integer(a).finite(),
        Binary64::from_integer(b).finite(),
        Binary64::from_integer(a).le(Binary64::from_integer(b)),
        a == 0 ==> Binary64::from_integer(a).zero(),
{
    reveal(Binary64::spec_from_integer);
    let u = conversion::one();
    vstd::arithmetic::power2::lemma_pow2_pos(1074);
    let p = (if a < 0 {
        -a as int
    } else {
        a as int
    }) as nat;
    let q = (if b < 0 {
        -b as int
    } else {
        b as int
    }) as nat;
    laws::law_rounding_is_exact_on_representable_values(a < 0, p, 1074);
    laws::law_rounding_is_exact_on_representable_values(b < 0, q, 1074);
    let (x, y) = (Binary64::from_integer(a), Binary64::from_integer(b));
    assert(x.units() == a * u) by (nonlinear_arith)
        requires x.units() == (if a < 0 { -(p * u) } else { (p * u) as int }), a < 0 ==> p == -a,
            a >= 0 ==> p == a;
    assert(y.units() == b * u) by (nonlinear_arith)
        requires y.units() == (if b < 0 { -(q * u) } else { (q * u) as int }), b < 0 ==> q == -b,
            b >= 0 ==> q == b;
    assert(a * u <= b * u) by (nonlinear_arith)
        requires a <= b, u > 0;
    laws::law_order_is_that_of_the_values(x, y);
    laws::lemma_zero_magnitude(x);
    if a == 0 {
        assert(0 * u == 0);
    }
}

/// A step of a word is not negative.
proof fn lemma_steps(kind: u8)
    ensures
        imu::step_of(kind).nan() || Binary64::of(ZERO).le(imu::step_of(kind)),
{
    let zero = Binary64::of(ZERO);
    let a = Binary64::of(SIXTEEN).times(
        Binary64::of(GRAVITY),
    );
    let b = Binary64::of(TWO_THOUSAND).times(
        Binary64::of(PI),
    );
    let half = Binary64::of(HALF_TURN_DEG);
    let full = Binary64::of(FULL_SCALE);
    signs::law_products_take_their_sign(
        Binary64::of(SIXTEEN),
        Binary64::of(GRAVITY),
    );
    signs::law_products_take_their_sign(
        Binary64::of(TWO_THOUSAND),
        Binary64::of(PI),
    );
    signs::law_products_take_their_sign(b, half);
    signs::law_products_take_their_sign(a, full);
    signs::law_products_take_their_sign(b.over(half), full);
    signs::law_products_take_their_sign(Binary64::of(PI), full);
    if a.nan() {
        laws::law_nan_propagates(a, full);
    }
    if b.nan() {
        laws::law_nan_propagates(b, half);
    }
    if b.over(half).nan() {
        laws::law_nan_propagates(b.over(half), full);
    }
}

/// The vector of an inertial frame has its first axis from the first word of
/// the payload, its second from the second and its third from the third. In
/// frames of one kind a larger word is no smaller a value on its axis, and
/// without a bias a word that is not negative is no negative value.
pub proof fn law_inertial_vectors_follow_their_words(
    config: ImuConfig,
    a: Seq<(u8, Timestamp)>,
    b: Seq<(u8, Timestamp)>,
)
    requires
        a.len() == 11,
        b.len() == 11,
        a[1].0 == b[1].0,
        config.fault() is None,
    ensures
        ({
            let (u, v) = (config.vector(a), config.vector(b));
            let x = imu::word(a[2].0, a[3].0) <= imu::word(b[2].0, b[3].0);
            let y = imu::word(a[4].0, a[5].0) <= imu::word(b[4].0, b[5].0);
            let z = imu::word(a[6].0, a[7].0) <= imu::word(b[6].0, b[7].0);
            &&& x && u.x.finite() && v.x.finite() ==> u.x.le(v.x)
            &&& y && u.y.finite() && v.y.finite() ==> u.y.le(v.y)
            &&& z && u.z.finite() && v.z.finite() ==> u.z.le(v.z)
        }),
{
    let kind = a[1].0;
    let step = imu::step_of(kind);
    let bias = config.bias(kind);
    lemma_steps(kind);
    lemma_axis(a[2].0, a[3].0, b[2].0, b[3].0, step, bias.x);
    lemma_axis(a[4].0, a[5].0, b[4].0, b[5].0, step, bias.y);
    lemma_axis(a[6].0, a[7].0, b[6].0, b[7].0, step, bias.z);
}

proof fn lemma_axis(a: u8, b: u8, c: u8, d: u8, step: Binary64, bias: Binary64)
    requires
        step.nan() || Binary64::of(ZERO).le(step),
        bias.finite(),
    ensures
        ({
            let x = Binary64::from_integer(imu::word(a, b)).times(step).minus(bias);
            let y = Binary64::from_integer(imu::word(c, d)).times(step).minus(bias);
            imu::word(a, b) <= imu::word(c, d) && x.finite() && y.finite() ==> x.le(y)
        }),
{
    if imu::word(a, b) <= imu::word(c, d) {
        let (p, q) = (
            Binary64::from_integer(imu::word(a, b)),
            Binary64::from_integer(imu::word(c, d)),
        );
        lemma_integers(imu::word(a, b), imu::word(c, d));
        let (x, y) = (p.times(step), q.times(step));
        if x.minus(bias).finite() && y.minus(bias).finite() {
            laws::law_infinite_sum(x, bias.negated());
            laws::law_infinite_sum(y, bias.negated());
            assert(step.finite()) by {
                reveal(Binary64::spec_times);
            }
            signs::law_products_are_monotone(p, q, step);
            laws::law_sums_are_monotone(x, y, bias);
        }
    }
}

/// The rotation by roll alone is about the first axis, by pitch alone about the
/// second and by yaw alone about the third, and by two of them it is the product
/// of both, the roll first and the yaw last.
pub proof fn law_rotations_roll_pitch_then_yaw(
    sr: Binary64,
    cr: Binary64,
    sp: Binary64,
    cp: Binary64,
    sy: Binary64,
    cy: Binary64,
)
    requires
        sr.finite() && cr.finite() && sp.finite() && cp.finite() && sy.finite() && cy.finite(),
        sr.times(cp).finite() && cr.times(sp).finite() && cr.times(cp).finite() && sr.times(
            sp,
        ).finite() && sr.times(cy).finite() && sr.times(sy).finite() && cr.times(cy).finite()
            && cr.times(sy).finite() && sp.times(cy).finite() && sp.times(sy).finite() && cp.times(
            cy,
        ).finite() && cp.times(sy).finite(),
    ensures
        ({
            let q = imu::rotation(sr, cr, sp, cp, sy, cy);
            let one = Binary64::of(ONE);
            &&& sy.zero() && cy == one ==> q.x.same(sr.times(cp)) && q.y.same(cr.times(sp))
                && q.z.same(sr.times(sp).negated()) && q.w.same(cr.times(cp))
            &&& sp.zero() && cp == one ==> q.x.same(sr.times(cy)) && q.y.same(sr.times(sy))
                && q.z.same(cr.times(sy)) && q.w.same(cr.times(cy))
            &&& sr.zero() && cr == one ==> q.x.same(sp.times(sy).negated()) && q.y.same(
                sp.times(cy),
            ) && q.z.same(cp.times(sy)) && q.w.same(cp.times(cy))
        }),
{
    let one = Binary64::of(ONE);
    if sy.zero() && cy == one {
        lemma_third(sr.times(cp), sy);
        lemma_third(cr.times(sp), sy);
        lemma_third(cr.times(cp), sy);
        lemma_third(sr.times(sp), sy);
        signs::law_zero_adds_nothing(sr.times(cp), cr.times(sp).times(sy));
        signs::law_zero_adds_nothing(cr.times(sp), sr.times(cp).times(sy));
        signs::law_zero_adds_nothing(sr.times(sp), cr.times(cp).times(sy));
        signs::law_zero_adds_nothing(cr.times(cp), sr.times(sp).times(sy));
    }
    if sp.zero() && cp == one {
        signs::law_zero_and_one(sr);
        signs::law_zero_and_one(cr);
        signs::law_zero_makes_zero(sr, sp);
        signs::law_zero_makes_zero(cr, sp);
        signs::law_zero_makes_zero(sy, cr.times(sp));
        signs::law_zero_makes_zero(cy, cr.times(sp));
        signs::law_zero_makes_zero(sy, sr.times(sp));
        signs::law_zero_makes_zero(cy, sr.times(sp));
        signs::law_zero_adds_nothing(sr.times(cy), cr.times(sp).times(sy));
        signs::law_zero_adds_nothing(sr.times(sy), cr.times(sp).times(cy));
        signs::law_zero_adds_nothing(cr.times(sy), sr.times(sp).times(cy));
        signs::law_zero_adds_nothing(cr.times(cy), sr.times(sp).times(sy));
    }
    if sr.zero() && cr == one {
        signs::law_zero_and_one(sp);
        signs::law_zero_and_one(cp);
        signs::law_zero_makes_zero(cp, sr);
        signs::law_zero_makes_zero(sp, sr);
        signs::law_zero_makes_zero(cy, sr.times(cp));
        signs::law_zero_makes_zero(sy, sr.times(cp));
        signs::law_zero_makes_zero(cy, sr.times(sp));
        signs::law_zero_makes_zero(sy, sr.times(sp));
        signs::law_zero_adds_nothing(sp.times(sy), sr.times(cp).times(cy));
        signs::law_zero_adds_nothing(sp.times(cy), sr.times(cp).times(sy));
        signs::law_zero_adds_nothing(cp.times(sy), sr.times(sp).times(cy));
        signs::law_zero_adds_nothing(cp.times(cy), sr.times(sp).times(sy));
    }
}

proof fn lemma_third(a: Binary64, s: Binary64)
    requires
        a.finite(),
        s.zero(),
    ensures
        a.times(s).zero(),
        a.times(Binary64::of(ONE)) == a,
{
    signs::law_zero_and_one(a);
    signs::law_zero_makes_zero(a, s);
}

/// The orientation is the rotation by half of each angle: its questions to the
/// host are the sines and cosines of half the roll, the pitch and the yaw.
pub proof fn law_orientations_halve_their_angles(m: spec_fn(Elementary) -> Binary64, angle: Vec3)
    ensures
        ({
            let two = Binary64::of(TWO);
            let (x, y, z) = (angle.x.over(two), angle.y.over(two), angle.z.over(two));
            imu::orientation(m, angle) == imu::rotation(
                m(Elementary::Sine(x)),
                m(Elementary::Cosine(x)),
                m(Elementary::Sine(y)),
                m(Elementary::Cosine(y)),
                m(Elementary::Sine(z)),
                m(Elementary::Cosine(z)),
            )
        }),
{
}

/// A return is its distance in millimetres over a thousand, up to rounding,
/// where it is neither missing nor out of range. The distance is the first two
/// of its three bytes, the high one first, and its intensity the third.
pub proof fn law_returns_are_millimetres(
    config: N10Config,
    frame: Seq<(u8, Timestamp)>,
    slot: int,
)
    requires
        frame.len() == 58,
        0 <= slot < 16,
    ensures
        ({
            let p = config.point(frame, slot);
            let high = frame[7 + 3 * slot].0;
            let low = frame[8 + 3 * slot].0;
            let exact = p.raw_distance_mm as nat * conversion::one();
            &&& p.raw_distance_mm == 256 * high + low
            &&& p.intensity == frame[9 + 3 * slot].0
            &&& p.range_m matches Some(r) ==> {
                &&& 0 < p.raw_distance_mm < 0xffff
                &&& config.range_min_m.le(r) && r.le(config.range_max_m)
                &&& r.finite() && !r.negative()
                &&& (2 * HIDDEN) * (r.magnitude() * 1000) <= (2 * HIDDEN + 1) * exact + HIDDEN
                    * 1000
                &&& (2 * HIDDEN - 1) * exact <= (2 * HIDDEN) * (r.magnitude() * 1000) + HIDDEN
                    * 1000
            }
        }),
{
    let raw = config.point(frame, slot).raw_distance_mm;
    laws::law_small_naturals_are_exact(raw as u64);
    vstd::arithmetic::power2::lemma2_to64();
    vstd::arithmetic::power2::lemma2_to64_rest();
    constants::lemma_whole(THOUSAND, 1032, 1000, 43);
    constants::lemma_whole_quotient(
        Binary64::from_natural(raw as u64),
        Binary64::of(THOUSAND),
        raw as nat,
        1000,
    );
}

/// A packet sweeps clockwise, so its angles are handed on with their signs
/// changed: the first angle and the step are not positive, and a packet that
/// starts later starts at no larger an angle. Its time is that of its first
/// byte, its ranges are those of its returns, one for each, and a packet without
/// any return, or without a sweep, gives none.
pub proof fn law_packets_sweep_clockwise(a: Packet, b: Packet)
    requires
        a.sample() is Some,
        b.sample() is Some,
        a.start_angle_cdeg <= b.start_angle_cdeg < 36_000,
    ensures
        ({
            let (s, t) = (a.sample()->0, b.sample()->0);
            let zero = Binary64::of(ZERO);
            &&& !s.angle_min_rad.nan() ==> s.angle_min_rad.le(zero)
            &&& !s.angle_increment_rad.nan() ==> s.angle_increment_rad.le(zero)
            &&& s.angle_min_rad.finite() && t.angle_min_rad.finite() ==> t.angle_min_rad.le(
                s.angle_min_rad,
            )
            &&& s.captured_at == a.first_received_at
            &&& s.ranges_m.len() == a.points.len()
            &&& forall|i: int|
                0 <= i < a.points.len() ==> #[trigger] s.ranges_m[i] == a.points[i].range_m
            &&& a.end_angle_cdeg != a.start_angle_cdeg
        }),
{
    let hundred = Binary64::of(HUNDRED);
    let degree = Binary64::of(DEGREE);
    let fifteen = Binary64::of(FIFTEEN);
    let zero = Binary64::of(ZERO);
    let (p, q) = (
        Binary64::from_natural(a.start_angle_cdeg as u64),
        Binary64::from_natural(b.start_angle_cdeg as u64),
    );
    let span = Binary64::from_natural(a.span_cdeg() as u64);
    laws::law_small_naturals_are_exact(a.start_angle_cdeg as u64);
    laws::law_small_naturals_are_exact(b.start_angle_cdeg as u64);
    laws::law_small_naturals_are_exact(a.span_cdeg() as u64);
    let u = conversion::one();
    assert(a.start_angle_cdeg * u <= b.start_angle_cdeg * u) by (nonlinear_arith)
        requires a.start_angle_cdeg <= b.start_angle_cdeg, u >= 0;
    laws::law_order_is_that_of_the_values(p, q);
    signs::law_products_take_their_sign(p, hundred);
    signs::law_products_take_their_sign(q, hundred);
    signs::law_products_take_their_sign(p.over(hundred), degree);
    signs::law_products_take_their_sign(q.over(hundred), degree);
    signs::law_products_take_their_sign(span, hundred);
    signs::law_products_take_their_sign(span.over(hundred), fifteen);
    signs::law_products_take_their_sign(span.over(hundred).over(fifteen), degree);
    signs::law_quotients_are_monotone(p, q, hundred, hundred);
    if p.over(hundred).nan() {
        laws::law_nan_propagates(p.over(hundred), degree);
    }
    if span.over(hundred).nan() {
        laws::law_nan_propagates(span.over(hundred), fifteen);
    }
    if span.over(hundred).over(fifteen).nan() {
        laws::law_nan_propagates(span.over(hundred).over(fifteen), degree);
    }
    let (x, y) = (p.over(hundred).times(degree), q.over(hundred).times(degree));
    if x.finite() && y.finite() {
        reveal(Binary64::spec_times);
        signs::law_products_are_monotone(p.over(hundred), q.over(hundred), degree);
    }
}

/// By a navigation profile more speed is no smaller a motor width and more turn
/// no smaller a servo width; by the profile in degrees the motor width is given
/// and more degrees are no larger a servo width.
pub proof fn law_profiles_follow_their_inputs(
    profile: FactoryProfile,
    slow: Binary64,
    fast: Binary64,
    right: Binary64,
    left: Binary64,
)
    requires
        slow.finite() && fast.finite() && right.finite() && left.finite(),
        slow.le(fast),
        right.le(left),
        profile is TeleopPwmDegrees ==> Binary64::of(ZERO).le(right),
        profile.widths(slow, right).0.finite() && profile.widths(fast, left).0.finite(),
        profile.widths(slow, right).1.finite() && profile.widths(fast, left).1.finite(),
    ensures
        ({
            let (a, b) = (profile.widths(slow, right), profile.widths(fast, left));
            &&& a.0.le(b.0)
            &&& profile is TeleopPwmDegrees ==> a.0 == slow && b.1.le(a.1)
            &&& !(profile is TeleopPwmDegrees) ==> a.1.le(b.1)
        }),
{
    let hundred = Binary64::of(HUNDRED);
    lemma_profile(slow, fast, hundred);
    lemma_profile(right, left, Binary64::of(GAIN_1300));
    lemma_profile(right, left, Binary64::of(GAIN_1200));
    let wide = Binary64::of(TWO_THOUSAND);
    let half = Binary64::of(HALF_TURN_DEG);
    let top = Binary64::of(PWM_HIGH);
    if profile is TeleopPwmDegrees {
        let (x, y) = (right.times(wide), left.times(wide));
        laws::law_infinite_sum(top, x.over(half).negated());
        laws::law_infinite_sum(top, y.over(half).negated());
        signs::law_products_are_monotone(right, left, wide);
        signs::law_products_follow_the_signs(right, wide);
        reveal(Binary64::spec_over);
        assert(x.finite() && y.finite());
        signs::law_quotients_are_monotone(x, y, half, half);
        laws::law_sums_are_monotone(x.over(half), y.over(half), top);
    }
}

proof fn lemma_profile(a: Binary64, b: Binary64, gain: Binary64)
    requires
        a.finite(),
        b.finite(),
        a.le(b),
        gain.finite(),
        Binary64::of(ZERO).le(gain),
    ensures
        ({
            let centre = Binary64::of(PWM_CENTRE);
            let (x, y) = (centre.plus(a.times(gain)), centre.plus(b.times(gain)));
            x.finite() && y.finite() ==> x.le(y)
        }),
{
    let centre = Binary64::of(PWM_CENTRE);
    signs::law_products_are_monotone(a, b, gain);
    let (p, q) = (a.times(gain), b.times(gain));
    laws::law_infinite_sum(centre, p);
    laws::law_infinite_sum(centre, q);
    if p.finite() && q.finite() {
        laws::law_sums_are_monotone(p, q, centre);
        signs::law_products_commute(p, centre);
        signs::law_products_commute(q, centre);
    }
}

/// An inertial sample is of one moment: its three parts were received no farther
/// apart than the skew allows, and its time is that of the earliest. The part
/// that completes it is the frame's, in the place of the frame's kind, and the
/// other two are those held before. A part that does not complete a sample is
/// held in its place.
pub proof fn law_inertial_samples_are_of_one_moment(
    d: imu::Decode,
    m: spec_fn(Elementary) -> Binary64,
    config: ImuConfig,
    frame: Seq<(u8, Timestamp)>,
)
    requires
        frame.len() == 11,
        0x51 <= frame[1].0 <= 0x53,
    ensures
        ({
            let after = d.accepted(m, config, frame);
            let kind = frame[1].0;
            let part = Some((config.vector(frame), frame[0].1));
            let a = if kind == 0x51 {
                part
            } else {
                d.parts.acceleration
            };
            let r = if kind == 0x52 {
                part
            } else {
                d.parts.rate
            };
            let g = if kind == 0x53 {
                part
            } else {
                d.parts.angle
            };
            let whole = a is Some && r is Some && g is Some;
            let (x, y, z) = ((a->0).1.0, (r->0).1.0, (g->0).1.0);
            let skew = config.max_component_skew_ms;
            let near = x <= y + skew && y <= x + skew && x <= z + skew && z <= x + skew && y <= z
                + skew && z <= y + skew;
            &&& whole && near ==> {
                let s = after.batch.samples.last();
                &&& after.batch.samples.len() == d.batch.samples.len() + 1
                &&& s.acceleration_mps2 == (a->0).0
                &&& s.angular_velocity_radps == (r->0).0
                &&& s.orientation_xyzw == imu::orientation(m, (g->0).0)
                &&& s.captured_at.0 <= x && s.captured_at.0 <= y && s.captured_at.0 <= z
                &&& s.captured_at.0 == x || s.captured_at.0 == y || s.captured_at.0 == z
                &&& after.parts == imu::Components::none()
            }
            &&& !(whole && near) ==> after.batch.samples == d.batch.samples
            &&& !whole ==> after.parts.acceleration == a && after.parts.rate == r
                && after.parts.angle == g
        }),
{
}

} // verus!
