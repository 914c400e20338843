//! The bounds of the search for a connection, and what the reserve of the
//! ledger is worth: one whole continuation.
use super::solvers::{length_step, max_length, nudge, Approach, Model};
use super::{
    sample_arc_bound, EndpointPolicy, Event, Ledger, TwoArcSeed, Variables, WorkAllowance,
};
use crate::autonomy::Pose2;
use crate::binary64::conversion;
use crate::binary64::laws;
use crate::binary64::rounding;
use crate::binary64::values::{HALF, HALF_PI, MILLIONTH, ONE, THOUSANDTH, THREE, TWO, ZERO};
use crate::binary64::{Binary64, HIDDEN, INFINITY};
use vstd::arithmetic::div_mod::{lemma_fundamental_div_mod, lemma_fundamental_div_mod_converse};
use vstd::arithmetic::power2::{lemma_pow2_adds, lemma_pow2_pos, pow2};
use vstd::prelude::*;

verus! {

/// Two segments need hardly more samples than their whole, however the lengths
/// and quotients were rounded. The estimates allow for one part in `2^20`, far
/// more than the arithmetic needs.
proof fn lemma_parts_of_a_whole(
    unit: nat,
    spacing: nat,
    length: nat,
    whole: nat,
    first: nat,
    second: nat,
    a: nat,
    b: nat,
    p: nat,
    q: nat,
    quotient: nat,
)
    requires
        unit >= 0x100_0000_0000,
        spacing >= 16,
        first <= unit,
        1_048_576 * second <= 1_048_577 * (unit - first) + 1_048_576,
        1_048_576 * (a * unit) <= 1_048_577 * (length * first) + 1_048_576 * unit,
        1_048_576 * (b * unit) <= 1_048_577 * (length * second) + 1_048_576 * unit,
        1_048_576 * (p * spacing) <= 1_048_577 * (a * unit) + 1_048_576 * spacing,
        1_048_576 * (q * spacing) <= 1_048_577 * (b * unit) + 1_048_576 * spacing,
        1_048_575 * (whole * unit) <= 1_048_576 * (quotient * spacing) + 1_048_576 * spacing,
        length <= whole,
        quotient <= 2046 * unit,
    ensures
        p + q <= quotient + unit,
{
    let t = length * first + length * second;
    let w = length * unit;
    assert(1_048_576 * t <= 1_048_578 * w) by {
        assert(length * (1_048_576 * first + 1_048_576 * second) <= length * (1_048_578 * unit)) by (nonlinear_arith)
            requires
                0 <= length,
                1_048_576 * first + 1_048_576 * second <= 1_048_578 * unit,
        ;
        assert(1_048_576 * t == length * (1_048_576 * first + 1_048_576 * second)) by (nonlinear_arith)
            requires t == length * first + length * second;
        assert(length * (1_048_578 * unit) == 1_048_578 * w) by (nonlinear_arith)
            requires w == length * unit;
    }
    let v = whole * unit;
    assert(w <= v) by (nonlinear_arith)
        requires w == length * unit, v == whole * unit, length <= whole;
    let r = quotient * spacing;
    let y = a * unit + b * unit;
    let z = p * spacing + q * spacing;
    let cell = unit * spacing;
    assert(16 * unit <= cell) by (nonlinear_arith)
        requires cell == unit * spacing, spacing >= 16;
    assert(0x100_0000_0000 * spacing <= cell) by (nonlinear_arith)
        requires cell == unit * spacing, unit >= 0x100_0000_0000;
    assert(r <= 2046 * cell) by (nonlinear_arith)
        requires r == quotient * spacing, cell == unit * spacing, quotient <= 2046 * unit;
    assert(1_048_576 * y <= 1_048_577 * t + 2_097_152 * unit);
    assert(1_048_576 * z <= 1_048_577 * y + 2_097_152 * spacing);
    assert(z <= r + cell);
    assert(z == (p + q) * spacing) by (nonlinear_arith)
        requires z == p * spacing + q * spacing;
    assert(r + cell == (quotient + unit) * spacing) by (nonlinear_arith)
        requires r == quotient * spacing, cell == unit * spacing;
    assert(p + q <= quotient + unit) by (nonlinear_arith)
        requires (p + q) * spacing <= (quotient + unit) * spacing, spacing > 0;
}

proof fn lemma_coarser(n: nat, d: nat, scaled: nat)
    requires
        (2 * HIDDEN) * scaled <= (2 * HIDDEN + 1) * n + HIDDEN * d,
        (2 * HIDDEN - 1) * n <= (2 * HIDDEN) * scaled + HIDDEN * d,
    ensures
        1_048_576 * scaled <= 1_048_577 * n + 1_048_576 * d,
        1_048_575 * n <= 1_048_576 * scaled + 1_048_576 * d,
{
    assert(0x20_0000_0000_0000 * scaled <= 0x20_0000_0000_0001 * n + 0x10_0000_0000_0000 * d);
    assert(0x1f_ffff_ffff_ffff * n <= 0x20_0000_0000_0000 * scaled + 0x10_0000_0000_0000 * d);
}

/// The nearness of a rounding, in coarser parts.
proof fn lemma_near(n: nat, d: nat)
    requires
        d > 0,
        rounding::nearest(false, n, d).finite(),
    ensures
        ({
            let scaled = rounding::nearest(false, n, d).magnitude() * d;
            &&& 1_048_576 * scaled <= 1_048_577 * n + 1_048_576 * d
            &&& 1_048_575 * n <= 1_048_576 * scaled + 1_048_576 * d
        }),
{
    laws::law_rounding_is_near(false, n, d);
    lemma_coarser(n, d, rounding::nearest(false, n, d).magnitude() * d);
}

/// Rounding does not depend on a common factor.
proof fn lemma_nearest_scaled(negative: bool, n: nat, d: nat)
    requires
        d > 0,
    ensures
        rounding::nearest(negative, n * d, d) == rounding::nearest(negative, n, 1),
{
    vstd::arithmetic::div_mod::lemma_div_by_multiple(n as int, d as int);
    assert(n / 1 == n);
    let p = pow2(rounding::excess(n));
    lemma_pow2_pos(rounding::excess(n));
    assert(1 * p == p && d * p == p * d) by (nonlinear_arith);
    rounding::lemma_half_even_scaled(n, p, d);
}

proof fn lemma_one()
    ensures
        Binary64::of(ONE).finite(),
        !Binary64::of(ONE).negative(),
        Binary64::of(ONE).magnitude() == conversion::one(),
        conversion::one() >= 0x100_0000_0000,
{
    lemma_fundamental_div_mod_converse(ONE as int, HIDDEN as int, 1023, 0);
    vstd::arithmetic::power2::lemma2_to64();
    vstd::arithmetic::power2::lemma2_to64_rest();
    lemma_pow2_adds(52, 1022);
    lemma_pow2_pos(1022);
    assert(HIDDEN * pow2(1022) >= HIDDEN) by (nonlinear_arith)
        requires pow2(1022) >= 1;
}

/// A product with a factor of at most one is not larger than the other factor.
proof fn lemma_part_of(x: Binary64, f: Binary64)
    requires
        x.finite(),
        !x.negative(),
        f.finite(),
        !f.negative(),
        f.magnitude() <= conversion::one(),
    ensures
        x.times(f).finite(),
        !x.times(f).negative(),
        x.times(f).pattern() <= x.pattern(),
        x.times(f) == rounding::nearest(false, x.magnitude() * f.magnitude(), conversion::one()),
{
    reveal(Binary64::spec_times);
    let u = conversion::one();
    lemma_pow2_pos(1074);
    assert(x.magnitude() * f.magnitude() <= x.magnitude() * u) by (nonlinear_arith)
        requires f.magnitude() <= u;
    laws::law_rounding_is_monotone(false, x.magnitude() * f.magnitude(), x.magnitude() * u, u);
    lemma_nearest_scaled(false, x.magnitude(), u);
    rounding::lemma_exact(x);
}

/// The arc searched over a distance is at least as long, and grows with it.
proof fn lemma_longest_arc(near: Binary64, far: Binary64)
    requires
        near.finite(),
        !near.negative(),
        !far.nan(),
        !far.negative(),
        near.pattern() <= far.pattern(),
    ensures
        !max_length(near).negative(),
        !max_length(far).negative(),
        max_length(far).pattern() <= INFINITY,
        near.pattern() <= max_length(near).pattern(),
        far.pattern() <= max_length(far).pattern(),
        max_length(near).pattern() <= max_length(far).pattern(),
{
    reveal(Binary64::spec_times);
    let u = conversion::one();
    let h = Binary64::of(HALF_PI);
    lemma_one();
    lemma_pow2_pos(1074);
    lemma_fundamental_div_mod_converse(
        HALF_PI as int,
        HIDDEN as int,
        1023,
        HALF_PI - 1023 * HIDDEN,
    );
    assert(h.finite() && !h.negative() && !h.zero());
    laws::lemma_magnitude_increases(Binary64::of(ONE), h);
    let a = near.magnitude();
    assert(a * u <= a * h.magnitude()) by (nonlinear_arith)
        requires u <= h.magnitude();
    laws::law_rounding_is_monotone(false, a * u, a * h.magnitude(), u);
    lemma_nearest_scaled(false, a, u);
    rounding::lemma_exact(near);
    if far.finite() {
        let b = far.magnitude();
        if near.pattern() < far.pattern() {
            laws::lemma_magnitude_increases(near, far);
        }
        assert(b * u <= b * h.magnitude()) by (nonlinear_arith)
            requires u <= h.magnitude();
        laws::law_rounding_is_monotone(false, b * u, b * h.magnitude(), u);
        lemma_nearest_scaled(false, b, u);
        rounding::lemma_exact(far);
        assert(a * h.magnitude() <= b * h.magnitude()) by (nonlinear_arith)
            requires a <= b;
        laws::law_rounding_is_monotone(false, a * h.magnitude(), b * h.magnitude(), u);
    }
}

/// The whole number that a positive quotient is rounded up to.
proof fn lemma_rounded_up(q: Binary64)
    requires
        q.finite(),
        !q.negative(),
    ensures
        !q.ceil().negative(),
        q.ceil().pattern() <= INFINITY,
        ({
            let up = conversion::upper(q.magnitude(), conversion::one());
            &&& up < 2 * HIDDEN ==> q.ceil().finite() && q.ceil().magnitude() == up
                * conversion::one()
            &&& up >= 2047 && q.ceil().finite() ==> q.ceil().magnitude() >= 2047
                * conversion::one()
            &&& (up - 1) * conversion::one() < q.magnitude() <= up * conversion::one() || up == 0
                && q.magnitude() == 0
        }),
{
    reveal(Binary64::spec_ceil);
    let u = conversion::one();
    lemma_pow2_pos(1074);
    let up = conversion::upper(q.magnitude(), u);
    lemma_fundamental_div_mod(q.magnitude() as int, u as int);
    let whole = q.magnitude() / u;
    let rest = q.magnitude() % u;
    assert(u * (whole + 1) == u * whole + u) by (nonlinear_arith);
    assert((whole - 1) * u == u * whole - u) by (nonlinear_arith);
    assert(whole * u == u * whole && (whole + 1) * u == u * (whole + 1)) by (nonlinear_arith);
    assert(0 <= up * u) by (nonlinear_arith)
        requires up >= 0, u >= 0;
    laws::law_rounding_is_monotone(false, 0, up * u, 1);
    if up < 2 * HIDDEN {
        laws::law_rounding_is_exact_on_representable_values(false, up, 1074);
    }
    if up >= 2047 {
        assert(2047 * u <= up * u) by (nonlinear_arith)
            requires up >= 2047;
        laws::law_rounding_is_exact_on_representable_values(false, 2047, 1074);
        laws::law_rounding_is_monotone(false, 2047 * u, up * u, 1);
        let least = rounding::nearest(false, 2047 * u, 1);
        if q.ceil().finite() && least.pattern() < q.ceil().pattern() {
            laws::lemma_magnitude_increases(least, q.ceil());
        } else if q.ceil().finite() {
            assert(least == q.ceil());
        }
    }
}

/// What is left of one.
proof fn lemma_rest(f: Binary64)
    requires
        Binary64::of(ZERO).le(f),
        f.le(Binary64::of(ONE)),
    ensures
        f.finite(),
        f.negative() ==> f.zero(),
        f.magnitude() <= conversion::one(),
        Binary64::of(ONE).minus(f).finite(),
        !Binary64::of(ONE).minus(f).negative(),
        Binary64::of(ONE).minus(f).magnitude() <= conversion::one(),
        1_048_576 * Binary64::of(ONE).minus(f).magnitude() <= 1_048_577 * (conversion::one()
            - f.magnitude()) + 1_048_576,
{
    reveal(Binary64::spec_plus);
    let u = conversion::one();
    let one = Binary64::of(ONE);
    let rest = one.minus(f);
    lemma_one();
    laws::lemma_zero_magnitude(f);
    if f.pattern() < one.pattern() {
        laws::lemma_magnitude_increases(f, one);
    }
    let back = f.negated();
    assert(back.pattern() == f.pattern());
    assert(back.magnitude() == f.magnitude());
    assert(one.units() + back.units() == u - f.magnitude());
    let left = (u - f.magnitude()) as nat;
    if left == 0 {
        laws::lemma_zero_magnitude(rest);
    } else {
        laws::law_rounding_is_monotone(false, left, u, 1);
        rounding::lemma_exact(one);
        lemma_near(left, 1);
        if rest.pattern() < one.pattern() {
            laws::lemma_magnitude_increases(rest, one);
        }
        assert(rest.magnitude() * 1 == rest.magnitude());
    }
}

/// The distance between samples is a number that is not negative.
proof fn lemma_spacing(resolution: Binary64)
    requires
        Binary64::of(ZERO).lt(resolution),
    ensures
        sample_arc_bound(resolution).finite(),
        !sample_arc_bound(resolution).negative(),
{
    reveal(Binary64::spec_over);
    let three = Binary64::of(THREE);
    let n = resolution.magnitude() * pow2(1074);
    laws::lemma_zero_magnitude(three);
    if resolution.finite() {
        laws::law_rounding_is_monotone(false, n, n, three.magnitude());
    }
}

/// A quotient below zero, or none, takes one sample.
proof fn lemma_one_sample(m: Model, length: Binary64)
    requires
        ({
            let q = length.over(sample_arc_bound(m.resolution));
            q.nan() || q.negative()
        }),
    ensures
        m.samples(length) == 1,
{
    reveal(Binary64::spec_ceil);
    reveal(Binary64::truncated);
    let q = length.over(sample_arc_bound(m.resolution));
    let u = conversion::one();
    lemma_one();
    lemma_fundamental_div_mod_converse(u as int, u as int, 1, 0);
    if q.finite() {
        let whole = q.magnitude() / u;
        laws::law_rounding_is_monotone(true, whole * u, whole * u, 1);
    }
}

/// Else there is one sample for each spacing that was begun.
proof fn lemma_samples(m: Model, length: Binary64)
    requires
        ({
            let q = length.over(sample_arc_bound(m.resolution));
            &&& q.finite()
            &&& !q.negative()
            &&& conversion::upper(q.magnitude(), conversion::one()) <= 1_048_576
        }),
    ensures
        ({
            let up = conversion::upper(
                length.over(sample_arc_bound(m.resolution)).magnitude(),
                conversion::one(),
            );
            m.samples(length) == if up == 0 {
                1
            } else {
                up
            }
        }),
{
    reveal(Binary64::truncated);
    let q = length.over(sample_arc_bound(m.resolution));
    let u = conversion::one();
    let up = conversion::upper(q.magnitude(), u);
    lemma_one();
    lemma_rounded_up(q);
    laws::law_order_is_that_of_the_values(q.ceil(), Binary64::of(ONE));
    lemma_fundamental_div_mod_converse(u as int, u as int, 1, 0);
    lemma_fundamental_div_mod_converse((up * u) as int, u as int, up as int, 0);
    assert(up == 0 <==> up * u < u) by (nonlinear_arith)
        requires u > 0, up >= 0;
}

/// The reserve of an arc is the number of spacings begun on it, and both are
/// proper numbers where the reserve is small.
proof fn lemma_segment(far: Binary64, resolution: Binary64)
    requires
        Binary64::of(ZERO).lt(resolution),
        Binary64::of(MILLIONTH).le(far),
        super::segment_samples(far, resolution) <= 2046,
    ensures
        ({
            let whole = max_length(far);
            let spacing = sample_arc_bound(resolution);
            let q = whole.over(spacing);
            let u = conversion::one();
            &&& whole.finite() && !whole.negative() && whole.magnitude() >= HIDDEN
            &&& spacing.finite() && !spacing.negative() && spacing.magnitude() >= 16
            &&& q.finite() && !q.negative()
            &&& q == rounding::nearest(false, whole.magnitude() * u, spacing.magnitude())
            &&& conversion::upper(q.magnitude(), u) == super::segment_samples(far, resolution)
            &&& q.magnitude() <= super::segment_samples(far, resolution) * u
        }),
{
    reveal(Binary64::spec_over);
    reveal(Binary64::spec_ceil);
    reveal(Binary64::truncated);
    let least = Binary64::of(MILLIONTH);
    let whole = max_length(far);
    let spacing = sample_arc_bound(resolution);
    let q = whole.over(spacing);
    let u = conversion::one();
    let n = whole.magnitude() * u;
    lemma_one();
    lemma_spacing(resolution);
    assert(least.finite() && !least.negative() && !least.zero());
    assert(!far.negative());
    lemma_longest_arc(least, far);
    laws::lemma_zero_magnitude(spacing);
    assert(!whole.zero());
    if whole.finite() && !spacing.zero() {
        laws::law_rounding_is_monotone(false, n, n, spacing.magnitude());
    }
    assert(q.finite());
    lemma_rounded_up(q);
    let up = conversion::upper(q.magnitude(), u);
    let ceil = q.ceil();
    if ceil.finite() {
        lemma_fundamental_div_mod(ceil.magnitude() as int, u as int);
        if up >= 2047 {
            assert(ceil.magnitude() / u >= 2047) by (nonlinear_arith)
                requires
                    ceil.magnitude() >= 2047 * u,
                    ceil.magnitude() == u * (ceil.magnitude() / u) + ceil.magnitude() % u,
                    ceil.magnitude() % u < u,
                    u > 0,
            ;
        }
    }
    assert(up < 2047);
    lemma_fundamental_div_mod_converse((up * u) as int, u as int, up as int, 0);
    // the spacing is no smaller than so small a number of samples allows
    lemma_fundamental_div_mod_converse(
        MILLIONTH as int,
        HIDDEN as int,
        1003,
        MILLIONTH - 1003 * HIDDEN,
    );
    lemma_pow2_pos(1002);
    assert(least.magnitude() >= HIDDEN) by (nonlinear_arith)
        requires
            least.magnitude() == least.significand() * pow2(1002),
            least.significand() >= HIDDEN,
            pow2(1002) >= 1,
    ;
    if least.pattern() < whole.pattern() {
        laws::lemma_magnitude_increases(least, whole);
    }
    let beta = spacing.magnitude();
    lemma_near(n, beta);
    assert(up * u <= 2046 * u) by (nonlinear_arith)
        requires up <= 2046;
    assert(beta >= 16) by (nonlinear_arith)
        requires
            1_048_575 * n <= 1_048_576 * (q.magnitude() * beta) + 1_048_576 * beta,
            n == whole.magnitude() * u,
            q.magnitude() <= 2046 * u,
            whole.magnitude() >= 0x10_0000_0000_0000,
            u >= 1,
            beta >= 0,
    ;
}

/// Nothing to drive takes one sample.
proof fn lemma_nothing(m: Model, length: Binary64)
    requires
        length.nan() || length.negative() || length.zero(),
        sample_arc_bound(m.resolution).finite(),
        !sample_arc_bound(m.resolution).negative(),
        sample_arc_bound(m.resolution).magnitude() > 0,
    ensures
        m.samples(length) == 1,
{
    reveal(Binary64::spec_over);
    let spacing = sample_arc_bound(m.resolution);
    let u = conversion::one();
    let n = length.magnitude() * u;
    lemma_pow2_pos(1074);
    laws::lemma_zero_magnitude(spacing);
    laws::lemma_zero_magnitude(length);
    if length.nan() {
        lemma_one_sample(m, length);
    } else if length.negative() {
        laws::law_rounding_is_monotone(true, n, n, spacing.magnitude());
        lemma_one_sample(m, length);
    } else {
        let q = length.over(spacing);
        rounding::lemma_nearest_zero(false, spacing.magnitude());
        assert(n == 0) by (nonlinear_arith)
            requires n == length.magnitude() * u, length.magnitude() == 0;
        laws::lemma_zero_magnitude(q);
        vstd::arithmetic::div_mod::lemma_small_mod(0, u);
        vstd::arithmetic::div_mod::lemma_basic_div(0, u as int);
        lemma_samples(m, length);
    }
}

/// A part of an arc takes at most the samples of the arc.
proof fn lemma_part(m: Model, far: Binary64, length: Binary64)
    requires
        Binary64::of(ZERO).lt(m.resolution),
        Binary64::of(MILLIONTH).le(far),
        super::segment_samples(far, m.resolution) <= 2046,
        length.finite(),
        !length.negative(),
        length.pattern() <= max_length(far).pattern(),
    ensures
        ({
            let segment = super::segment_samples(far, m.resolution);
            let spacing = sample_arc_bound(m.resolution);
            let q = length.over(spacing);
            let u = conversion::one();
            let up = conversion::upper(q.magnitude(), u);
            &&& q.finite() && !q.negative()
            &&& 1_048_576 * (q.magnitude() * spacing.magnitude()) <= 1_048_577 * (
            length.magnitude() * u) + 1_048_576 * spacing.magnitude()
            &&& up <= segment
            &&& m.samples(length) == if up == 0 {
                1
            } else {
                up
            }
            &&& up > 0 ==> (up - 1) * u < q.magnitude()
        }),
{
    reveal(Binary64::spec_over);
    let u = conversion::one();
    let whole = max_length(far);
    let spacing = sample_arc_bound(m.resolution);
    let segment = super::segment_samples(far, m.resolution);
    let all = whole.over(spacing);
    let q = length.over(spacing);
    lemma_pow2_pos(1074);
    lemma_segment(far, m.resolution);
    laws::lemma_zero_magnitude(spacing);
    if length.pattern() < whole.pattern() {
        laws::lemma_magnitude_increases(length, whole);
    }
    let (n, k) = (length.magnitude() * u, whole.magnitude() * u);
    assert(n <= k) by (nonlinear_arith)
        requires n == length.magnitude() * u, k == whole.magnitude() * u, length.magnitude()
            <= whole.magnitude();
    laws::law_rounding_is_monotone(false, n, k, spacing.magnitude());
    assert(q == rounding::nearest(false, n, spacing.magnitude()));
    if q.pattern() < all.pattern() {
        laws::lemma_magnitude_increases(q, all);
    }
    lemma_near(n, spacing.magnitude());
    lemma_rounded_up(q);
    let up = conversion::upper(q.magnitude(), u);
    assert(up <= segment) by {
        if up > segment {
            assert((up - 1) * u >= segment * u) by (nonlinear_arith)
                requires up - 1 >= segment;
        }
    }
    lemma_samples(m, length);
}

/// However an arc is divided in two, its parts take at most two samples more
/// than are reserved for the arc.
proof fn lemma_pair(m: Model, far: Binary64, length: Binary64, fraction: Binary64)
    requires
        Binary64::of(ZERO).lt(m.resolution),
        Binary64::of(MILLIONTH).le(far),
        super::segment_samples(far, m.resolution) <= 2046,
        length.nan() || length.le(max_length(far)),
        Binary64::of(ZERO).le(fraction),
        fraction.le(Binary64::of(ONE)),
    ensures
        m.samples(length.times(fraction)) + m.samples(
            length.times(Binary64::of(ONE).minus(fraction)),
        ) <= super::segment_samples(far, m.resolution) + 2,
{
    let u = conversion::one();
    let rest = Binary64::of(ONE).minus(fraction);
    let whole = max_length(far);
    let spacing = sample_arc_bound(m.resolution);
    let segment = super::segment_samples(far, m.resolution) as int;
    let first = length.times(fraction);
    let second = length.times(rest);
    lemma_one();
    lemma_rest(fraction);
    lemma_segment(far, m.resolution);
    laws::lemma_zero_magnitude(fraction);
    if length.nan() || length.negative() {
        lemma_backwards(length, fraction);
        lemma_backwards(length, rest);
        lemma_nothing(m, first);
        lemma_nothing(m, second);
    } else {
        assert(length.finite());
        lemma_part_of(length, rest);
        lemma_part(m, far, second);
        if fraction.negative() {
            lemma_backwards(length, fraction);
            lemma_nothing(m, first);
        } else {
            lemma_part_of(length, fraction);
            lemma_part(m, far, first);
            let p = first.over(spacing).magnitude();
            let q = second.over(spacing).magnitude();
            let all = whole.over(spacing).magnitude();
            if length.pattern() < whole.pattern() {
                laws::lemma_magnitude_increases(length, whole);
            }
            lemma_near(length.magnitude() * fraction.magnitude(), u);
            lemma_near(length.magnitude() * rest.magnitude(), u);
            lemma_near(whole.magnitude() * u, spacing.magnitude());
            assert(segment * u <= 2046 * u) by (nonlinear_arith)
                requires segment <= 2046, u >= 0;
            lemma_parts_of_a_whole(
                u,
                spacing.magnitude(),
                length.magnitude(),
                whole.magnitude(),
                fraction.magnitude(),
                rest.magnitude(),
                first.magnitude(),
                second.magnitude(),
                p,
                q,
                all,
            );
            let a = conversion::upper(p, u);
            let b = conversion::upper(q, u);
            if a > 0 && b > 0 {
                assert(a + b - 2 < segment + 1) by (nonlinear_arith)
                    requires
                        (a - 1) * u < p,
                        (b - 1) * u < q,
                        p + q <= all + u,
                        all <= segment * u,
                        u > 0,
                ;
            }
        }
    }
}

/// A product with a number below zero leads nowhere.
proof fn lemma_backwards(length: Binary64, factor: Binary64)
    requires
        length.nan() || length.negative() || factor.negative(),
        factor.finite(),
        factor.negative() ==> factor.zero(),
    ensures
        ({
            let r = length.times(factor);
            r.nan() || r.negative() || r.zero()
        }),
{
    reveal(Binary64::spec_times);
    let n = length.magnitude() * factor.magnitude();
    lemma_pow2_pos(1074);
    laws::lemma_zero_magnitude(factor);
    if length.finite() {
        laws::law_rounding_is_monotone(true, n, n, pow2(1074));
        if factor.zero() {
            assert(n == 0) by (nonlinear_arith)
                requires n == length.magnitude() * factor.magnitude(), factor.magnitude() == 0;
            rounding::lemma_nearest_zero(false, pow2(1074));
            rounding::lemma_nearest_zero(true, pow2(1074));
        }
    }
}

/// Whether a ledger grants so much work.
pub open spec fn grants(b: Ledger, solvers: int, iterations: int, samples: int) -> bool {
    &&& b.cold_ceiling is None
    &&& !b.cold_deferred
    &&& !b.work.budget_exhausted
    &&& b.work.solver_attempts + solvers <= b.work.solver_limit
    &&& b.work.iterations + iterations <= b.work.iteration_limit
    &&& b.work.primitive_samples + samples <= b.work.sample_limit
}

/// Whether at most so much work was done, and none of it refused.
pub open spec fn spent(
    before: Ledger,
    after: Ledger,
    solvers: int,
    iterations: int,
    samples: int,
) -> bool {
    &&& after.cold_ceiling is None
    &&& !after.cold_deferred
    &&& !after.work.budget_exhausted
    &&& after.work.solver_limit == before.work.solver_limit
    &&& after.work.iteration_limit == before.work.iteration_limit
    &&& after.work.sample_limit == before.work.sample_limit
    &&& after.work.solver_attempts <= before.work.solver_attempts + solvers
    &&& after.work.iterations <= before.work.iterations + iterations
    &&& after.work.primitive_samples <= before.work.primitive_samples + samples
}

/// Whether a length is one that the search over a distance may reach.
spec fn fits(length: Binary64, far: Binary64) -> bool {
    length.nan() || length.le(max_length(far))
}

/// The conditions under which the reserve of a distance is what an approach
/// needs.
spec fn covers(m: Model, distance: Binary64, far: Binary64, fraction: Binary64) -> bool {
    &&& Binary64::of(ZERO).lt(m.resolution)
    &&& Binary64::of(MILLIONTH).le(distance)
    &&& distance.finite()
    &&& distance.le(far)
    &&& super::segment_samples(far, m.resolution) <= 2046
    &&& Binary64::of(ZERO).le(fraction)
    &&& fraction.le(Binary64::of(ONE))
}

proof fn lemma_driven_twice(
    m: Model,
    b: Ledger,
    a: Approach,
    v: Variables,
    distance: Binary64,
    far: Binary64,
    fraction: Binary64,
)
    requires
        covers(m, distance, far, fraction),
        fits(v.length, distance),
        grants(b, 0, 0, super::segment_samples(far, m.resolution) + 2),
    ensures
        spent(
            b,
            m.driven_twice(b, a, v, fraction).0,
            0,
            0,
            super::segment_samples(far, m.resolution) + 2,
        ),
{
    reveal(Model::driven_twice);
    lemma_longest_arc(distance, far);
    lemma_pair(m, far, v.length, fraction);
}

/// Moving a length by a step leaves it within reach.
proof fn lemma_nudged(length: Binary64, distance: Binary64)
    requires
        fits(length, distance),
        distance.finite(),
        Binary64::of(MILLIONTH).le(distance),
    ensures
        fits(
            length.plus(nudge(length, length_step(distance), max_length(distance))),
            distance,
        ),
{
    reveal(Binary64::spec_plus);
    let step = length_step(distance);
    let upper = max_length(distance);
    laws::law_product_is_not_negative(distance, Binary64::of(THOUSANDTH));
    lemma_longest_arc(distance, distance);
    assert(Binary64::of(ZERO).le(step) && step.finite());
    assert(Binary64::of(ZERO).le(upper));
    if !length.nan() && !length.plus(step).le(upper) && !step.nan() {
        let back = step.negated();
        let sum = length.units() + back.units();
        laws::lemma_zero_magnitude(step);
        assert(back.pattern() == step.pattern());
        assert(back.magnitude() == step.magnitude());
        if length.finite() && back.finite() && sum > 0 {
            laws::lemma_zero_magnitude(length);
            laws::law_rounding_is_monotone(false, sum as nat, length.magnitude(), 1);
            rounding::lemma_exact(length);
        } else if length.finite() && back.finite() && sum < 0 {
            laws::law_rounding_is_monotone(true, (-sum) as nat, (-sum) as nat, 1);
        }
    }
}

/// One slope is one sampling of both segments.
proof fn lemma_slope(
    m: Model,
    b: Ledger,
    a: Approach,
    v: Variables,
    distance: Binary64,
    far: Binary64,
    fraction: Binary64,
    column: u8,
    base: Pose2,
)
    requires
        covers(m, distance, far, fraction),
        fits(v.length, distance),
        grants(b, 0, 0, super::segment_samples(far, m.resolution) + 2),
    ensures
        spent(
            b,
            m.slope(b, a, v, fraction, distance, column, base).0,
            0,
            0,
            super::segment_samples(far, m.resolution) + 2,
        ),
{
    let delta = m.delta(v, column, distance);
    lemma_nudged(v.length, distance);
    lemma_driven_twice(m, b, a, m.moved(v, column, delta), distance, far, fraction);
}

/// The correction of an iteration is three samplings, and keeps the length
/// within reach.
proof fn lemma_improved(
    m: Model,
    b: Ledger,
    a: Approach,
    heading: Binary64,
    v: Variables,
    distance: Binary64,
    far: Binary64,
    fraction: Binary64,
    end: Pose2,
)
    requires
        covers(m, distance, far, fraction),
        fits(v.length, distance),
        grants(b, 0, 0, 3 * (super::segment_samples(far, m.resolution) + 2)),
    ensures
        spent(
            b,
            m.improved(b, a, heading, v, fraction, distance, end).0,
            0,
            0,
            3 * (super::segment_samples(far, m.resolution) + 2),
        ),
        m.improved(b, a, heading, v, fraction, distance, end).1 matches Some(next) ==> fits(
            next.length,
            distance,
        ),
{
    reveal(Model::improved);
    let b0 = m.slope(b, a, v, fraction, distance, 0, end).0;
    let b1 = m.slope(b0, a, v, fraction, distance, 1, end).0;
    lemma_slope(m, b, a, v, distance, far, fraction, 0, end);
    lemma_slope(m, b0, a, v, distance, far, fraction, 1, end);
    lemma_slope(m, b1, a, v, distance, far, fraction, 2, end);
    lemma_longest_arc(distance, distance);
}

/// At most `n` iterations take at most `n` times four samplings.
proof fn lemma_two_arc_in(
    m: Model,
    b: Ledger,
    a: Approach,
    heading: Binary64,
    v: Variables,
    distance: Binary64,
    far: Binary64,
    fraction: Binary64,
    used_seed: bool,
    policy: EndpointPolicy,
    n: nat,
)
    requires
        covers(m, distance, far, fraction),
        fits(v.length, distance),
        grants(b, 0, n as int, n * (4 * (super::segment_samples(far, m.resolution) + 2))),
    ensures
        spent(
            b,
            m.two_arc_in(b, a, heading, v, fraction, distance, used_seed, policy, n).0,
            0,
            n as int,
            n * (4 * (super::segment_samples(far, m.resolution) + 2)),
        ),
    decreases n,
{
    let each = super::segment_samples(far, m.resolution) + 2;
    if n > 0 {
        let less = (n - 1) as nat;
        assert(n * (4 * each) == less * (4 * each) + 4 * each && less * (4 * each) >= 0)
            by (nonlinear_arith)
            requires n == less + 1, each >= 0;
        let b1 = b.charged(0, 1, 0).0;
        lemma_driven_twice(m, b1, a, v, distance, far, fraction);
        let (b2, end) = m.driven_twice(b1, a, v, fraction);
        if let Some(end) = end {
            lemma_improved(m, b2, a, heading, v, distance, far, fraction, end.endpoint);
            let (b3, next) = m.improved(b2, a, heading, v, fraction, distance, end.endpoint);
            if let Some(next) = next {
                lemma_two_arc_in(
                    m,
                    b3,
                    a,
                    heading,
                    next,
                    distance,
                    far,
                    fraction,
                    used_seed,
                    policy,
                    less,
                );
            }
        }
    }
}

/// A reserve without a shortfall is enough for one whole continuation over at
/// most the distance that it was made for: whatever a cold round asked for in
/// between, nothing of the continuation is refused, and it takes no more than
/// was reserved.
pub proof fn law_reserve_covers_a_continuation(
    m: Model,
    before: Ledger,
    max_distance: Binary64,
    asks: Seq<WorkAllowance>,
    a: Approach,
    heading: Binary64,
    seed: TwoArcSeed,
)
    requires
        before.sound(),
        !before.work.budget_exhausted,
        before.work.sample_limit <= Ledger::fresh(false).work.sample_limit,
        before.reserving(max_distance, m.resolution).work.recovery_reservation_shortfalls == 0,
        Binary64::of(ZERO).lt(m.resolution),
        (m.math)(a.start.point().separation(a.goal)).le(max_distance),
        Binary64::of(ZERO).le(seed.first_fraction),
        seed.first_fraction.le(Binary64::of(ONE)),
    ensures
        ({
            let held = before.reserving(max_distance, m.resolution);
            let end = super::after_cold_round(held, asks);
            let released = Ledger { cold_ceiling: None, cold_deferred: false, ..end };
            spent(
                released,
                m.continued(released, a, heading, seed).0,
                held.work.recovery_reserved_solvers as int,
                held.work.recovery_reserved_iterations as int,
                held.work.recovery_reserved_samples as int,
            )
        }),
{
    let held = before.reserving(max_distance, m.resolution);
    let end = super::after_cold_round(held, asks);
    let released = Ledger { cold_ceiling: None, cold_deferred: false, ..end };
    super::lemma_cold_round_stays_below(held, asks);
    let segment = super::segment_samples(max_distance, m.resolution);
    assert(segment <= 2046);
    let b = released.counting(Event::SeedAttempt);
    let b1 = b.charged(1, 0, 0).0;
    let local = a.start.seen(m.math, a.goal);
    let distance = (m.math)(a.start.point().separation(a.goal));
    let reach = Binary64::of(TWO).times(m.config.lookahead_m).min(Binary64::of(TWO));
    if !local.x_m.le(Binary64::of(ZERO)) && Binary64::of(MILLIONTH).le(distance) && distance.le(
        reach,
    ) {
        assert(distance.finite());
        lemma_longest_arc(distance, distance);
        lemma_two_arc_in(
            m,
            b1,
            a,
            heading,
            m.guess(a, heading, Some(seed), local, distance),
            distance,
            max_distance,
            seed.first_fraction,
            true,
            EndpointPolicy::ExactCenter,
            8,
        );
    }
}

/// What is left of a seed after some travel is still divided in two parts, and
/// not longer than it was.
pub proof fn law_travelled_seeds_stay_divided(seed: TwoArcSeed, distance: Binary64)
    requires
        seed.variables.length.finite(),
        Binary64::of(ZERO).le(seed.variables.length),
        Binary64::of(ZERO).le(seed.first_fraction),
        seed.first_fraction.le(Binary64::of(ONE)),
        distance.finite(),
        Binary64::of(ZERO).le(distance),
    ensures
        seed.after_travel(distance) matches Some(left) ==> {
            &&& left.variables.length.finite()
            &&& Binary64::of(ZERO).le(left.variables.length)
            &&& left.variables.length.le(seed.variables.length)
            &&& Binary64::of(ZERO).le(left.first_fraction)
            &&& left.first_fraction.le(Binary64::of(ONE))
        },
{
    let length = seed.variables.length;
    let fraction = seed.first_fraction;
    let part = length.times(fraction);
    let first = part.minus(distance);
    let remaining = length.minus(distance);
    let u = conversion::one();
    if seed.after_travel(distance) is Some {
        lemma_one();
        lemma_rest(fraction);
        laws::lemma_zero_magnitude(length);
        laws::lemma_zero_magnitude(distance);
        if length.negative() || fraction.negative() {
            lemma_no_part(length, fraction);
            lemma_shortened(part, distance);
        } else {
            lemma_part_of(length, fraction);
            laws::lemma_zero_magnitude(part);
            lemma_shortened(part, distance);
            lemma_shortened(length, distance);
            if part.pattern() < length.pattern() {
                laws::lemma_magnitude_increases(part, length);
            }
            let near = (part.magnitude() - distance.magnitude()) as nat;
            let far = (length.magnitude() - distance.magnitude()) as nat;
            laws::law_rounding_is_monotone(false, near, far, 1);
            if first.pattern() < remaining.pattern() {
                laws::lemma_magnitude_increases(first, remaining);
            }
            laws::lemma_zero_magnitude(remaining);
            reveal(Binary64::spec_over);
            let (a, b) = (first.magnitude(), remaining.magnitude());
            assert(a * u <= u * b) by (nonlinear_arith)
                requires a <= b;
            laws::law_rounding_is_monotone(false, a * u, u * b, b);
            lemma_nearest_scaled(false, u, b);
            rounding::lemma_exact(Binary64::of(ONE));
        }
    }
}

/// A part of nothing, or no part, is nothing.
proof fn lemma_no_part(length: Binary64, fraction: Binary64)
    requires
        length.finite(),
        fraction.finite(),
        length.zero() || fraction.zero(),
    ensures
        length.times(fraction).zero(),
{
    reveal(Binary64::spec_times);
    let n = length.magnitude() * fraction.magnitude();
    lemma_pow2_pos(1074);
    laws::lemma_zero_magnitude(length);
    laws::lemma_zero_magnitude(fraction);
    assert(n == 0) by (nonlinear_arith)
        requires n == length.magnitude() * fraction.magnitude(), length.magnitude() == 0
            || fraction.magnitude() == 0;
    rounding::lemma_nearest_zero(false, pow2(1074));
    rounding::lemma_nearest_zero(true, pow2(1074));
}

/// What a travelled distance leaves of a length, where it leaves more than a
/// trace.
proof fn lemma_shortened(length: Binary64, distance: Binary64)
    requires
        length.finite(),
        Binary64::of(ZERO).le(length),
        distance.finite(),
        Binary64::of(ZERO).le(distance),
        !length.minus(distance).le(Binary64::of(MILLIONTH)),
    ensures
        length.magnitude() > distance.magnitude(),
        length.minus(distance) == rounding::nearest(
            false,
            (length.magnitude() - distance.magnitude()) as nat,
            1,
        ),
        length.minus(distance).finite(),
        !length.minus(distance).negative(),
        length.minus(distance).pattern() <= length.pattern(),
{
    reveal(Binary64::spec_plus);
    laws::lemma_zero_magnitude(length);
    laws::lemma_zero_magnitude(distance);
    let back = distance.negated();
    assert(back.pattern() == distance.pattern());
    assert(back.magnitude() == distance.magnitude());
    let sum = length.units() + back.units();
    assert(sum == length.magnitude() - distance.magnitude());
    if sum < 0 {
        laws::law_rounding_is_monotone(true, (-sum) as nat, (-sum) as nat, 1);
    } else if sum > 0 {
        laws::law_rounding_is_monotone(false, sum as nat, length.magnitude(), 1);
        rounding::lemma_exact(Binary64 { bits: length.pattern() as u64 });
    }
}

/// Whether no variable lies beyond the limits of the search.
pub open spec fn bounded(v: Variables, max_curvature: Binary64, distance: Binary64) -> bool {
    &&& !max_curvature.lt(v.first.abs())
    &&& !max_curvature.lt(v.second.abs())
    &&& !v.length.lt(distance)
    &&& !max_length(distance).lt(v.length)
}

proof fn lemma_two_arc_bounded(
    m: Model,
    b: Ledger,
    a: Approach,
    heading: Binary64,
    v: Variables,
    fraction: Binary64,
    distance: Binary64,
    used_seed: bool,
    policy: EndpointPolicy,
    n: nat,
)
    requires
        bounded(v, m.config.max_curvature_per_m, distance),
        Binary64::of(ZERO).le(m.config.max_curvature_per_m),
        distance.finite(),
        !distance.negative(),
    ensures
        m.two_arc_in(b, a, heading, v, fraction, distance, used_seed, policy, n).1 matches Some(c)
            ==> {
            &&& bounded(c.seed.variables, m.config.max_curvature_per_m, distance)
            &&& c.seed.first_fraction == fraction
        },
    decreases n,
{
    if n > 0 {
        let (b1, granted) = b.charged(0, 1, 0);
        if let (b2, Some(end)) = m.driven_twice(b1, a, v, fraction) {
            if let (b3, Some(next)) = m.improved(
                b2,
                a,
                heading,
                v,
                fraction,
                distance,
                end.endpoint,
            ) {
                assert(bounded(next, m.config.max_curvature_per_m, distance)) by {
                    reveal(Model::improved);
                    lemma_longest_arc(distance, distance);
                }
                lemma_two_arc_bounded(
                    m,
                    b3,
                    a,
                    heading,
                    next,
                    fraction,
                    distance,
                    used_seed,
                    policy,
                    (n - 1) as nat,
                );
            }
        }
    }
}

/// The variables of a connection stay within the limits of the curvature and of
/// the length searched, and its parts are those of the seed, or halves.
pub proof fn law_connections_stay_within_bounds(
    m: Model,
    b: Ledger,
    a: Approach,
    heading: Binary64,
    seed: Option<TwoArcSeed>,
    policy: EndpointPolicy,
)
    requires
        Binary64::of(ZERO).le(m.config.max_curvature_per_m),
        seed matches Some(s) ==> {
            &&& !m.config.max_curvature_per_m.lt(s.variables.first.abs())
            &&& !m.config.max_curvature_per_m.lt(s.variables.second.abs())
        },
    ensures
        m.two_arc_solved(b, a, heading, seed, policy).1 matches Some(c) ==> {
            &&& bounded(
                c.seed.variables,
                m.config.max_curvature_per_m,
                (m.math)(a.start.point().separation(a.goal)),
            )
            &&& c.seed.first_fraction == match seed {
                Some(s) => s.first_fraction,
                None => Binary64::of(HALF),
            }
        },
{
    let local = a.start.seen(m.math, a.goal);
    let distance = (m.math)(a.start.point().separation(a.goal));
    let reach = Binary64::of(TWO).times(m.config.lookahead_m).min(Binary64::of(TWO));
    if Binary64::of(MILLIONTH).le(distance) && distance.le(reach) {
        assert(distance.finite());
        lemma_longest_arc(distance, distance);
        lemma_two_arc_bounded(
            m,
            b.charged(1, 0, 0).0,
            a,
            heading,
            m.guess(a, heading, seed, local, distance),
            match seed {
                Some(seed) => seed.first_fraction,
                None => Binary64::of(HALF),
            },
            distance,
            seed is Some,
            policy,
            8,
        );
    }
}

} // verus!
