//! How results follow the signs and the order of their operands.
use super::constants;
use super::conversion;
use super::laws;
use super::rounding;
use super::values::{ONE, TWO, ZERO};
use super::{Binary64, HIDDEN};
use vstd::arithmetic::power2::{lemma_pow2_pos, lemma_pow2_unfold, pow2};
use vstd::prelude::*;

verus! {

/// A change of sign is undone by another one and mirrors the order.
pub proof fn law_negation_mirrors(a: Binary64, b: Binary64)
    ensures
        a.negated().negated() == a,
        a.negated().nan() == a.nan(),
        a.negated().finite() == a.finite(),
        a.negated().zero() == a.zero(),
        a.negated().negative() == !a.negative(),
        a.negated().pattern() == a.pattern(),
        a.negated().abs() == a.abs(),
        a.negated().le(b.negated()) == b.le(a),
        a.negated().lt(b.negated()) == b.lt(a),
{
}

/// An absolute value is the number or its negation, whichever is not negative.
pub proof fn law_absolute_values_cover_both_signs(a: Binary64)
    requires
        !a.nan(),
    ensures
        a.le(a.abs()),
        a.negated().le(a.abs()),
        Binary64::of(0).le(a.abs()),
        a.abs() == a || a.abs() == a.negated(),
{
}

/// A finite difference has the sign of the comparison of its terms.
pub proof fn law_differences_order_their_terms(a: Binary64, b: Binary64)
    requires
        a.finite(),
        b.finite(),
    ensures
        !a.minus(b).nan(),
        Binary64::of(0).le(a.minus(b)) <==> b.le(a),
        Binary64::of(0).lt(a.minus(b)) <==> b.lt(a),
        a.minus(b).le(Binary64::of(0)) <==> a.le(b),
        a.minus(b).lt(Binary64::of(0)) <==> a.lt(b),
{
    reveal(Binary64::spec_plus);
    laws::law_order_is_that_of_the_values(a, b);
    laws::law_order_is_that_of_the_values(b, a);
    lemma_negated_units(b);
    let s = a.units() - b.units();
    if s != 0 {
        let n = if s < 0 {
            (-s) as nat
        } else {
            s as nat
        };
        lemma_nonzero(s < 0, n);
    }
}

proof fn lemma_negated_units(a: Binary64)
    requires
        a.finite(),
    ensures
        a.negated().finite(),
        a.negated().units() == -a.units(),
{
    laws::lemma_zero_magnitude(a);
    assert(a.negated().pattern() == a.pattern());
    assert(a.negated().magnitude() == a.magnitude());
}

/// A whole number of units other than zero does not round to zero.
proof fn lemma_nonzero(negative: bool, n: nat)
    requires
        n >= 1,
    ensures
        rounding::nearest(negative, n, 1).pattern() > 0,
        !rounding::nearest(negative, n, 1).nan(),
        rounding::nearest(negative, n, 1).negative() == negative,
{
    let unit = rounding::signed(negative, 1);
    assert(unit.pattern() == 1);
    vstd::arithmetic::power2::lemma2_to64();
    assert(unit.magnitude() == 1) by {
        assert(unit.exponent() == 0);
        assert(1 * pow2(0) == 1);
    }
    rounding::lemma_exact(unit);
    laws::law_rounding_is_monotone(negative, 1, n, 1);
    laws::law_rounding_is_monotone(negative, n, n, 1);
}

/// A sum of terms that are not negative is not negative, and one of terms that
/// are not positive is not positive.
pub proof fn law_sums_keep_a_common_sign(a: Binary64, b: Binary64)
    requires
        !a.nan(),
        !b.nan(),
    ensures
        Binary64::of(0).le(a) && Binary64::of(0).le(b) ==> Binary64::of(0).le(a.plus(b)),
        a.le(Binary64::of(0)) && b.le(Binary64::of(0)) ==> a.plus(b).le(Binary64::of(0)),
{
    reveal(Binary64::spec_plus);
    if a.finite() && b.finite() {
        laws::lemma_zero_magnitude(a);
        laws::lemma_zero_magnitude(b);
        let s = a.units() + b.units();
        if s != 0 {
            let n = if s < 0 {
                (-s) as nat
            } else {
                s as nat
            };
            lemma_nonzero(s < 0, n);
        }
    }
}

/// A product is negative where the signs of its factors differ, and so is a
/// quotient.
pub proof fn law_products_take_their_sign(a: Binary64, b: Binary64)
    ensures
        !a.times(b).nan() ==> a.times(b).negative() == (a.negative() != b.negative()),
        !a.over(b).nan() ==> a.over(b).negative() == (a.negative() != b.negative()),
{
    reveal(Binary64::spec_times);
    reveal(Binary64::spec_over);
}

/// The sign of a factor is the only thing that a product or a quotient takes
/// from it.
pub proof fn law_products_are_mirrored(a: Binary64, b: Binary64)
    ensures
        !a.times(b).nan() ==> a.negated().times(b) == a.times(b).negated() && a.times(b.negated())
            == a.times(b).negated() && a.negated().times(b.negated()) == a.times(b),
        a.times(b).nan() ==> a.negated().times(b) == a.times(b) && a.times(b.negated()) == a.times(b)
            && a.negated().times(b.negated()) == a.times(b),
        !a.over(b).nan() ==> a.negated().over(b) == a.over(b).negated() && a.over(b.negated())
            == a.over(b).negated() && a.negated().over(b.negated()) == a.over(b),
        a.over(b).nan() ==> a.negated().over(b) == a.over(b) && a.over(b.negated()) == a.over(b)
            && a.negated().over(b.negated()) == a.over(b),
{
    reveal(Binary64::spec_times);
    reveal(Binary64::spec_over);
    assert(a.negated().magnitude() == a.magnitude());
    assert(b.negated().magnitude() == b.magnitude());
}

/// The factors of a product may change places.
pub proof fn law_products_commute(a: Binary64, b: Binary64)
    ensures
        a.times(b) == b.times(a),
        a.plus(b) == b.plus(a),
{
    reveal(Binary64::spec_times);
    reveal(Binary64::spec_plus);
    assert(a.magnitude() * b.magnitude() == b.magnitude() * a.magnitude()) by (nonlinear_arith);
}

/// Keeping within a bound on both sides commutes with a change of sign.
pub proof fn law_clamping_is_mirrored(a: Binary64, bound: Binary64)
    requires
        !a.nan(),
        Binary64::of(0).le(bound),
    ensures
        a.negated().clamp(bound.negated(), bound) == a.clamp(bound.negated(), bound).negated(),
        Binary64::of(0).le(a) ==> Binary64::of(0).le(a.clamp(bound.negated(), bound)),
        a.le(Binary64::of(0)) ==> a.clamp(bound.negated(), bound).le(Binary64::of(0)),
        a.clamp(bound.negated(), bound).pattern() <= a.pattern(),
        a.clamp(bound.negated(), bound) == a || a.clamp(bound.negated(), bound).pattern()
            == bound.pattern(),
{
}

/// A quotient lies within a rounding of the exact one.
pub proof fn law_quotients_are_near(a: Binary64, b: Binary64)
    requires
        a.finite(),
        b.finite(),
        a.over(b).finite(),
    ensures
        ({
            let exact = a.magnitude() * pow2(1074);
            let scaled = a.over(b).magnitude() * b.magnitude();
            &&& (2 * HIDDEN) * scaled <= (2 * HIDDEN + 1) * exact + HIDDEN * b.magnitude()
            &&& (2 * HIDDEN - 1) * exact <= (2 * HIDDEN) * scaled + HIDDEN * b.magnitude()
        }),
{
    reveal(Binary64::spec_over);
    laws::lemma_zero_magnitude(b);
    laws::law_rounding_is_near(
        a.negative() != b.negative(),
        a.magnitude() * pow2(1074),
        b.magnitude(),
    );
}

/// Twice a number is exact unless it is too large to be represented.
pub proof fn law_doubling_is_exact(a: Binary64)
    requires
        a.finite(),
        Binary64::of(TWO).times(a).finite(),
    ensures
        Binary64::of(TWO).times(a).magnitude() == 2 * a.magnitude(),
        Binary64::of(TWO).times(a).negative() == a.negative(),
{
    reveal(Binary64::spec_times);
    vstd::arithmetic::power2::lemma2_to64();
    vstd::arithmetic::power2::lemma2_to64_rest();
    constants::lemma_whole(TWO, 1024, 2, 51);
    let u = pow2(1074);
    lemma_pow2_pos(1074);
    let n = 2 * a.magnitude();
    assert((2 * u) * a.magnitude() == n * u) by (nonlinear_arith)
        requires n == 2 * a.magnitude();
    constants::law_rounding_cancels(a.negative(), n, 1, u);
    assert(1 * u == u);
    let k = a.scale();
    let s = a.significand();
    vstd::arithmetic::div_mod::lemma_fundamental_div_mod(a.pattern() as int, HIDDEN as int);
    lemma_pow2_unfold(k + 1);
    assert(n == s * pow2(k + 1)) by (nonlinear_arith)
        requires n == 2 * (s * pow2(k)), pow2(k + 1) == 2 * pow2(k);
    assert(a.exponent() <= 2046) by (nonlinear_arith)
        requires a.pattern() == HIDDEN * a.exponent() + a.pattern() % (HIDDEN as nat), a.pattern()
            < 2047 * HIDDEN, a.pattern() % (HIDDEN as nat) >= 0;
    if k < 2045 {
        laws::law_rounding_is_exact_on_representable_values(a.negative(), s, k + 1);
    } else {
        assert(k == 2045);
        let q = s * pow2(2046);
        lemma_pow2_pos(2046);
        lemma_pow2_unfold(2047);
        assert(HIDDEN * pow2(2046) <= q < HIDDEN * pow2(2047)) by (nonlinear_arith)
            requires q == s * pow2(2046), HIDDEN <= s < 2 * HIDDEN, pow2(2047) == 2 * pow2(2046),
                pow2(2046) > 0;
        rounding::lemma_excess(q, 2046);
        assert(q / 1 == q && 1 * pow2(2046) == pow2(2046));
        vstd::arithmetic::div_mod::lemma_fundamental_div_mod_converse(
            q as int,
            pow2(2046) as int,
            s as int,
            0,
        );
        assert(false);
    }
}

/// A product with a factor that is not negative keeps the order.
pub proof fn law_products_are_monotone(a: Binary64, b: Binary64, c: Binary64)
    requires
        a.finite(),
        b.finite(),
        c.finite(),
        Binary64::of(0).le(c),
        a.le(b),
    ensures
        a.times(c).le(b.times(c)),
        c.times(a).le(c.times(b)),
{
    law_products_commute(a, c);
    law_products_commute(b, c);
    reveal(Binary64::spec_times);
    laws::law_order_is_that_of_the_values(a, b);
    laws::lemma_zero_magnitude(a);
    laws::lemma_zero_magnitude(b);
    laws::lemma_zero_magnitude(c);
    let u = pow2(1074);
    lemma_pow2_pos(1074);
    let x = a.magnitude() * c.magnitude();
    let y = b.magnitude() * c.magnitude();
    if c.zero() || a.zero() {
        assert(x == 0) by (nonlinear_arith)
            requires x == a.magnitude() * c.magnitude(), a.magnitude() == 0 || c.magnitude() == 0;
    }
    if c.zero() || b.zero() {
        assert(y == 0) by (nonlinear_arith)
            requires y == b.magnitude() * c.magnitude(), b.magnitude() == 0 || c.magnitude() == 0;
    }
    laws::law_rounding_is_monotone(true, x, x, u);
    laws::law_rounding_is_monotone(false, x, x, u);
    laws::law_rounding_is_monotone(true, y, y, u);
    laws::law_rounding_is_monotone(false, y, y, u);
    rounding::lemma_nearest_zero(true, u);
    rounding::lemma_nearest_zero(false, u);
    if a.magnitude() <= b.magnitude() {
        assert(x <= y) by (nonlinear_arith)
            requires x == a.magnitude() * c.magnitude(), y == b.magnitude() * c.magnitude(),
                a.magnitude() <= b.magnitude();
        laws::law_rounding_is_monotone(false, x, y, u);
        laws::law_rounding_is_monotone(true, x, y, u);
    } else {
        assert(y <= x) by (nonlinear_arith)
            requires x == a.magnitude() * c.magnitude(), y == b.magnitude() * c.magnitude(),
                b.magnitude() <= a.magnitude();
        laws::law_rounding_is_monotone(true, y, x, u);
    }
}

/// A product is zero where a factor is and the other one finite, and a product
/// with one is the other factor.
pub proof fn law_zero_and_one(a: Binary64)
    requires
        a.finite(),
    ensures
        a.times(Binary64::of(ZERO)).zero(),
        Binary64::of(ZERO).times(a).zero(),
        a.times(Binary64::of(ONE)) == a,
        Binary64::of(ONE).times(a) == a,
{
    reveal(Binary64::spec_times);
    law_products_commute(a, Binary64::of(ONE));
    law_products_commute(a, Binary64::of(ZERO));
    vstd::arithmetic::power2::lemma2_to64();
    vstd::arithmetic::power2::lemma2_to64_rest();
    constants::lemma_whole(ONE, 1023, 1, 52);
    let u = pow2(1074);
    lemma_pow2_pos(1074);
    let n = a.magnitude();
    constants::law_rounding_cancels(a.negative(), n, 1, u);
    assert(1 * u == u);
    rounding::lemma_exact(a);
    laws::lemma_zero_magnitude(Binary64::of(ZERO));
    assert(n * 0 == 0);
    rounding::lemma_nearest_zero(a.negative(), u);
}

/// A sum with zero is the other term.
pub proof fn law_zero_adds_nothing(a: Binary64, z: Binary64)
    requires
        !a.nan(),
        z.zero(),
    ensures
        a.plus(z).same(a),
        z.plus(a).same(a),
        a.minus(z).same(a),
        z.minus(a).same(a.negated()),
{
    reveal(Binary64::spec_plus);
    law_products_commute(a, z);
    laws::lemma_zero_magnitude(a);
    laws::lemma_zero_magnitude(z);
    laws::lemma_zero_magnitude(z.negated());
    laws::lemma_zero_magnitude(a.negated());
    if a.finite() {
        rounding::lemma_exact(a);
        rounding::lemma_exact(a.negated());
        assert(a.negated().magnitude() == a.magnitude());
    }
}

/// A sum of terms with their signs changed has the opposite value.
pub proof fn law_sums_are_mirrored(a: Binary64, b: Binary64)
    requires
        !a.plus(b).nan(),
    ensures
        a.negated().plus(b.negated()).same(a.plus(b).negated()),
{
    reveal(Binary64::spec_plus);
    if a.finite() && b.finite() {
        lemma_negated_units(a);
        lemma_negated_units(b);
        let s = a.units() + b.units();
        if s != 0 {
            let n = if s < 0 {
                (-s) as nat
            } else {
                s as nat
            };
            lemma_nonzero(true, n);
            lemma_nonzero(false, n);
        }
    }
}

/// A product of a finite number with zero is zero.
pub proof fn law_zero_makes_zero(a: Binary64, b: Binary64)
    requires
        a.finite(),
        b.zero(),
    ensures
        a.times(b).zero(),
        b.times(a).zero(),
{
    law_products_commute(a, b);
    reveal(Binary64::spec_times);
    laws::lemma_zero_magnitude(b);
    assert(a.magnitude() * 0 == 0);
    lemma_pow2_pos(1074);
    rounding::lemma_nearest_zero(a.negative() != b.negative(), pow2(1074));
}

/// Zero over a finite number that is not zero is zero.
pub proof fn law_zero_parts_are_zero(a: Binary64, b: Binary64)
    requires
        a.zero(),
        b.finite(),
        !b.zero(),
    ensures
        a.over(b).zero(),
{
    reveal(Binary64::spec_over);
    laws::lemma_zero_magnitude(a);
    laws::lemma_zero_magnitude(b);
    assert(0 * pow2(1074) == 0);
    rounding::lemma_nearest_zero(a.negative() != b.negative(), b.magnitude());
}

/// A product that is a number is not negative where the signs of its factors
/// agree, not positive where they differ, and both where a factor is zero.
pub proof fn law_products_follow_the_signs(a: Binary64, b: Binary64)
    requires
        !a.nan(),
        !b.nan(),
    ensures
        ({
            let zero = Binary64::of(ZERO);
            let p = a.times(b);
            &&& zero.le(a) && zero.le(b) && !p.nan() ==> zero.le(p)
            &&& a.le(zero) && b.le(zero) && !p.nan() ==> zero.le(p)
            &&& zero.le(a) && b.le(zero) && !p.nan() ==> p.le(zero)
            &&& a.le(zero) && zero.le(b) && !p.nan() ==> p.le(zero)
        }),
{
    law_products_take_their_sign(a, b);
    reveal(Binary64::spec_times);
    if a.zero() && b.finite() {
        law_zero_makes_zero(b, a);
    }
    if b.zero() && a.finite() {
        law_zero_makes_zero(a, b);
    }
}

/// A quotient grows with its dividend and falls with its divisor, where these
/// are not negative and the divisors positive.
pub proof fn law_quotients_are_monotone(a: Binary64, b: Binary64, c: Binary64, d: Binary64)
    requires
        a.finite(),
        b.finite(),
        c.finite(),
        d.finite(),
        Binary64::of(ZERO).le(a),
        a.le(b),
        Binary64::of(ZERO).lt(c),
        c.le(d),
    ensures
        a.over(d).le(a.over(c)),
        a.over(c).le(b.over(c)),
        Binary64::of(ZERO).le(a.over(c)),
{
    reveal(Binary64::spec_over);
    laws::lemma_zero_magnitude(a);
    laws::lemma_zero_magnitude(b);
    laws::lemma_zero_magnitude(c);
    laws::lemma_zero_magnitude(d);
    laws::law_order_is_that_of_the_values(a, b);
    laws::law_order_is_that_of_the_values(c, d);
    let u = pow2(1074);
    lemma_pow2_pos(1074);
    let (x, y) = (a.magnitude() * u, b.magnitude() * u);
    let (p, q) = (c.magnitude(), d.magnitude());
    if a.zero() {
        law_zero_parts_are_zero(a, c);
        law_zero_parts_are_zero(a, d);
    }
    if b.zero() {
        law_zero_parts_are_zero(b, c);
    }
    law_products_take_their_sign(a, c);
    law_products_take_their_sign(b, c);
    law_products_take_their_sign(a, d);
    assert(x <= y) by (nonlinear_arith)
        requires x == a.magnitude() * u, y == b.magnitude() * u, a.magnitude() <= b.magnitude();
    laws::law_rounding_is_monotone(false, x, y, p);
    laws::law_rounding_is_monotone(false, x, x, p);
    laws::law_rounding_is_monotone(false, x, x, q);
    assert(x * p <= x * q) by (nonlinear_arith)
        requires p <= q;
    assert(p * q > 0 && q * p == p * q) by (nonlinear_arith)
        requires p > 0, q > 0;
    laws::law_rounding_is_monotone(false, x * p, x * q, p * q);
    constants::law_rounding_cancels(false, x, p, q);
    constants::law_rounding_cancels(false, x, q, p);
}

/// A number over itself is one.
pub proof fn law_a_whole_is_one(a: Binary64)
    requires
        a.finite(),
        Binary64::of(ZERO).lt(a),
    ensures
        a.over(a) == Binary64::of(ONE),
{
    reveal(Binary64::spec_over);
    laws::lemma_zero_magnitude(a);
    vstd::arithmetic::power2::lemma2_to64();
    vstd::arithmetic::power2::lemma2_to64_rest();
    constants::lemma_whole(ONE, 1023, 1, 52);
    let n = a.magnitude();
    constants::law_rounding_cancels(false, pow2(1074), 1, n);
    assert(n * pow2(1074) == pow2(1074) * n && 1 * n == n) by (nonlinear_arith);
    rounding::lemma_exact(Binary64::of(ONE));
}

/// Rounding to whole numbers keeps the order of numbers that are not negative,
/// and cutting to a width does too.
pub proof fn law_whole_parts_keep_the_order(a: Binary64, b: Binary64, limit: u64)
    requires
        a.finite(),
        b.finite(),
        Binary64::of(ZERO).le(a),
        a.le(b),
        a.round().finite(),
        b.round().finite(),
    ensures
        a.round().truncated(limit) <= b.round().truncated(limit),
{
    reveal(Binary64::spec_round);
    reveal(Binary64::truncated);
    let u = conversion::one();
    lemma_pow2_pos(1074);
    laws::lemma_zero_magnitude(a);
    laws::lemma_zero_magnitude(b);
    laws::law_order_is_that_of_the_values(a, b);
    let (x, y) = (a.magnitude(), b.magnitude());
    vstd::arithmetic::div_mod::lemma_fundamental_div_mod(x as int, u as int);
    vstd::arithmetic::div_mod::lemma_fundamental_div_mod(y as int, u as int);
    vstd::arithmetic::div_mod::lemma_div_is_ordered(x as int, y as int, u as int);
    let (p, q) = (conversion::half_up(x, u), conversion::half_up(y, u));
    if x / u == y / u {
        let (q, r, s) = (x / u, x % u, y % u);
        assert(r <= s) by (nonlinear_arith)
            requires x <= y, x == u * q + r, y == u * q + s;
    }
    assert(p <= q);
    assert(p * u <= q * u) by (nonlinear_arith)
        requires p <= q;
    if !a.negative() && !b.negative() {
        laws::law_rounding_is_monotone(false, p * u, q * u, 1);
        let (r, s) = (a.round(), b.round());
        if r.pattern() < s.pattern() {
            laws::lemma_magnitude_increases(r, s);
        }
        assert(r.magnitude() <= s.magnitude());
        vstd::arithmetic::div_mod::lemma_div_is_ordered(
            r.magnitude() as int,
            s.magnitude() as int,
            u as int,
        );
    }
    if b.negative() {
        assert(b.zero() && a.zero());
        laws::law_rounding_is_monotone(true, q * u, q * u, 1);
        assert(x == 0 && y == 0);
        vstd::arithmetic::div_mod::lemma_div_basics(u as int);
        vstd::arithmetic::div_mod::lemma_small_mod(0, u);
        assert(p == 0 && q == 0);
        assert(0 * u == 0);
        rounding::lemma_nearest_zero(a.negative(), 1);
        assert(a.round().magnitude() == 0) by {
            laws::lemma_zero_magnitude(a.round());
        }
    }
    if a.negative() {
        laws::law_rounding_is_monotone(true, p * u, p * u, 1);
    }
}

} // verus!
