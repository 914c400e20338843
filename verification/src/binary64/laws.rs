//! What holds of the arithmetic as a whole.
use super::conversion;
use super::rounding;
use super::{Binary64, HIDDEN, INFINITY};
use vstd::arithmetic::div_mod::{lemma_fundamental_div_mod, lemma_fundamental_div_mod_converse};
use vstd::arithmetic::power2::{lemma_pow2_pos, lemma_pow2_unfold, pow2};
use vstd::prelude::*;

verus! {

/// A larger exponent at most doubles the weight of what fits below it.
proof fn lemma_scale_steps(lower: nat, upper: nat)
    requires
        lower < upper,
    ensures
        2 * pow2(lower) <= pow2(upper),
    decreases upper,
{
    lemma_pow2_unfold(upper);
    if lower + 1 < upper {
        lemma_scale_steps(lower, (upper - 1) as nat);
        lemma_pow2_pos((upper - 1) as nat);
    }
}

/// Finite numbers are ordered by their patterns as by their magnitudes.
pub proof fn lemma_magnitude_increases(a: Binary64, b: Binary64)
    requires
        a.pattern() < b.pattern(),
    ensures
        a.magnitude() < b.magnitude(),
{
    lemma_fundamental_div_mod(a.pattern() as int, HIDDEN as int);
    lemma_fundamental_div_mod(b.pattern() as int, HIDDEN as int);
    let p = pow2(a.scale());
    let q = pow2(b.scale());
    let m = a.significand();
    let n = b.significand();
    lemma_pow2_pos(a.scale());
    lemma_pow2_pos(b.scale());
    if a.scale() == b.scale() {
        assert(m < n);
        assert(m * p < n * p) by (nonlinear_arith)
            requires m < n, p > 0;
    } else {
        lemma_scale_steps(a.scale(), b.scale());
        assert(m * p < n * q) by (nonlinear_arith)
            requires m < 2 * HIDDEN, n >= HIDDEN, 2 * p <= q, p > 0;
    }
}

/// The comparisons of finite numbers are those of their values.
pub proof fn law_order_is_that_of_the_values(a: Binary64, b: Binary64)
    requires
        a.finite(),
        b.finite(),
    ensures
        a.lt(b) <==> a.units() < b.units(),
        a.le(b) <==> a.units() <= b.units(),
        a.same(b) <==> a.units() == b.units(),
{
    if a.pattern() < b.pattern() {
        lemma_magnitude_increases(a, b);
    } else if b.pattern() < a.pattern() {
        lemma_magnitude_increases(b, a);
    }
    lemma_zero_magnitude(a);
    lemma_zero_magnitude(b);
}

pub proof fn lemma_zero_magnitude(a: Binary64)
    ensures
        a.magnitude() == 0 <==> a.zero(),
{
    lemma_pow2_pos(a.scale());
    lemma_fundamental_div_mod(a.pattern() as int, HIDDEN as int);
    let m = a.significand();
    let p = pow2(a.scale());
    assert(m * p == 0 <==> m == 0) by (nonlinear_arith)
        requires p > 0;
}

/// Rounding is exact on every product of a significand and a power of two that
/// the exponents can weigh.
pub proof fn law_rounding_is_exact_on_representable_values(negative: bool, m: nat, e: nat)
    requires
        m < 2 * HIDDEN,
        e <= 2045,
    ensures
        ({
            let r = rounding::nearest(negative, m * pow2(e), 1);
            &&& r.finite()
            &&& r.negative() == negative
            &&& r.magnitude() == m * pow2(e)
        }),
    decreases e,
{
    lemma_pow2_pos(e);
    vstd::arithmetic::power2::lemma2_to64();
    if e > 0 && m < HIDDEN {
        lemma_pow2_unfold(e);
        assert((2 * m) * pow2((e - 1) as nat) == m * pow2(e)) by (nonlinear_arith)
            requires pow2(e) == 2 * pow2((e - 1) as nat);
        law_rounding_is_exact_on_representable_values(negative, 2 * m, (e - 1) as nat);
    } else {
        let n = m * pow2(e);
        lemma_pow2_unfold(e + 1);
        assert(n < HIDDEN * pow2(e + 1)) by (nonlinear_arith)
            requires n == m * pow2(e), m < 2 * HIDDEN, pow2(e + 1) == 2 * pow2(e), pow2(e) > 0;
        if e > 0 {
            assert(n >= HIDDEN * pow2(e)) by (nonlinear_arith)
                requires n == m * pow2(e), m >= HIDDEN;
        }
        rounding::lemma_excess(n, e);
        assert(n / 1 == n);
        assert(1 * pow2(e) == pow2(e));
        assert(n == m * pow2(e) + 0);
        lemma_fundamental_div_mod_converse(n as int, pow2(e) as int, m as int, 0);
        assert(rounding::half_even(n, pow2(e)) == m);
        let pattern = e * (HIDDEN as nat) + m;
        assert(pattern < INFINITY);
        let r = rounding::nearest(negative, n, 1);
        assert(r.pattern() == pattern);
        if m < HIDDEN {
            lemma_fundamental_div_mod_converse(pattern as int, HIDDEN as int, 0, m as int);
        } else {
            lemma_fundamental_div_mod_converse(
                pattern as int,
                HIDDEN as int,
                e as int + 1,
                m - HIDDEN,
            );
        }
    }
}

/// Natural numbers up to fifty-three bits are represented exactly.
pub proof fn law_small_naturals_are_exact(x: u64)
    requires
        x < 2 * HIDDEN,
    ensures
        Binary64::from_natural(x).finite(),
        !Binary64::from_natural(x).negative(),
        Binary64::from_natural(x).magnitude() == x * conversion::one(),
{
    reveal(Binary64::spec_from_natural);
    law_rounding_is_exact_on_representable_values(false, x as nat, 1074);
}

/// A number between two naturals of at most sixteen bits has its integer part
/// between them.
pub proof fn law_truncation_stays_between(low: u16, x: Binary64, high: u16)
    requires
        Binary64::from_natural(low as u64).le(x),
        x.le(Binary64::from_natural(high as u64)),
    ensures
        low <= x.truncated(0xffff) <= high,
{
    reveal(Binary64::truncated);
    let a = Binary64::from_natural(low as u64);
    let b = Binary64::from_natural(high as u64);
    law_small_naturals_are_exact(low as u64);
    law_small_naturals_are_exact(high as u64);
    law_order_is_that_of_the_values(a, x);
    law_order_is_that_of_the_values(x, b);
    lemma_pow2_pos(1074);
    let d = conversion::one();
    if x.negative() {
        lemma_zero_magnitude(x);
        assert(low * d >= 0 && (low * d == 0 <==> low == 0)) by (nonlinear_arith)
            requires d > 0;
        assert(x.units() >= 0);
    } else {
        let q = x.magnitude() / d;
        lemma_fundamental_div_mod(x.magnitude() as int, d as int);
        assert(low <= q) by (nonlinear_arith)
            requires low * d <= x.magnitude(), x.magnitude() == d * q + x.magnitude() % d,
                x.magnitude() % d < d, d > 0;
        assert(q <= high) by (nonlinear_arith)
            requires x.magnitude() <= high * d, x.magnitude() == d * q + x.magnitude() % d,
                x.magnitude() % d >= 0, d > 0;
    }
}

/// A NaN among the operands makes the result one.
pub proof fn law_nan_propagates(a: Binary64, b: Binary64)
    requires
        a.nan() || b.nan(),
    ensures
        a.plus(b).nan(),
        a.minus(b).nan(),
        a.times(b).nan(),
        a.over(b).nan(),
        a.remainder(b).nan(),
{
    reveal(Binary64::spec_plus);
    reveal(Binary64::spec_times);
    reveal(Binary64::spec_over);
    reveal(Binary64::spec_remainder);
}

/// Where a quotient is cut: the power of two that leaves fifty-three bits.
proof fn lemma_excess_bounds(q: nat)
    ensures
        q < HIDDEN * pow2(rounding::excess(q) + 1),
        rounding::excess(q) == 0 || q >= HIDDEN * pow2(rounding::excess(q)),
    decreases q,
{
    let k = rounding::excess(q);
    vstd::arithmetic::power2::lemma2_to64();
    lemma_pow2_unfold(k + 1);
    if q >= 2 * HIDDEN {
        lemma_excess_bounds(q / 2);
        let j = rounding::excess(q / 2);
        assert(k == j + 1);
        lemma_pow2_unfold(j + 1);
        let p = pow2(j);
        lemma_pow2_pos(j);
        assert(HIDDEN * pow2(j + 1) == 2 * (HIDDEN * p)) by (nonlinear_arith)
            requires pow2(j + 1) == 2 * p;
        assert(HIDDEN * pow2(k + 1) == 4 * (HIDDEN * p)) by (nonlinear_arith)
            requires pow2(k + 1) == 2 * pow2(j + 1), pow2(j + 1) == 2 * p;
    }
}

proof fn lemma_half_even_monotone(a: nat, b: nat, d: nat)
    requires
        a <= b,
        d > 0,
    ensures
        rounding::half_even(a, d) <= rounding::half_even(b, d),
        a / d <= rounding::half_even(a, d) <= a / d + 1,
{
    lemma_fundamental_div_mod(a as int, d as int);
    lemma_fundamental_div_mod(b as int, d as int);
    let (p, q) = (a / d, b / d);
    let (r, s) = (a % d, b % d);
    assert(p <= q) by (nonlinear_arith)
        requires a <= b, a == d * p + r, b == d * q + s, 0 <= r, s < d, d > 0;
}

/// Rounding keeps the order of the exact values.
pub proof fn law_rounding_is_monotone(negative: bool, a: nat, b: nat, d: nat)
    requires
        a <= b,
        d > 0,
    ensures
        rounding::nearest(negative, a, d).pattern() <= rounding::nearest(negative, b, d).pattern(),
        rounding::nearest(negative, b, d).pattern() <= INFINITY,
        rounding::nearest(negative, a, d).negative() == negative,
{
    let k = rounding::excess(a / d);
    let l = rounding::excess(b / d);
    let p = pow2(k);
    let q = pow2(l);
    lemma_excess_bounds(a / d);
    lemma_excess_bounds(b / d);
    lemma_pow2_pos(k);
    lemma_pow2_pos(l);
    lemma_pow2_unfold(k + 1);
    lemma_pow2_unfold(l + 1);
    assert(d * p > 0 && d * q > 0) by (nonlinear_arith)
        requires d > 0, p > 0, q > 0;
    let x = rounding::half_even(a, d * p);
    let y = rounding::half_even(b, d * q);
    lemma_half_even_monotone(a, a, d * p);
    lemma_half_even_monotone(b, b, d * q);
    vstd::arithmetic::div_mod::lemma_div_is_ordered(a as int, b as int, d as int);
    if k == l {
        lemma_half_even_monotone(a, b, d * p);
    } else {
        if l < k {
            lemma_scale_steps(l, k);
            assert(b / d < a / d) by (nonlinear_arith)
                requires b / d < HIDDEN * pow2(l + 1), a / d >= HIDDEN * p, pow2(l + 1) == 2 * q,
                    2 * q <= p;
        }
        assert(k < l);
        lemma_fundamental_div_mod(a as int, d as int);
        lemma_fundamental_div_mod(b as int, d as int);
        lemma_fundamental_div_mod(a as int, (d * p) as int);
        lemma_fundamental_div_mod(b as int, (d * q) as int);
        let u = a / (d * p);
        let w = b / (d * q);
        assert(a < (2 * HIDDEN) * (d * p)) by (nonlinear_arith)
            requires a / d < HIDDEN * pow2(k + 1), pow2(k + 1) == 2 * p, a == d * (a / d) + a % d,
                a % d < d, d > 0;
        assert(b >= HIDDEN * (d * q)) by (nonlinear_arith)
            requires b / d >= HIDDEN * q, b == d * (b / d) + b % d, b % d >= 0, d > 0;
        assert(u < 2 * HIDDEN) by (nonlinear_arith)
            requires a < (2 * HIDDEN) * (d * p), a == (d * p) * u + a % (d * p), a % (d * p) >= 0,
                d * p > 0;
        assert(w >= HIDDEN) by (nonlinear_arith)
            requires b >= HIDDEN * (d * q), b == (d * q) * w + b % (d * q), b % (d * q) < d * q,
                d * q > 0;
        assert(k * (HIDDEN as nat) + x <= l * (HIDDEN as nat) + y) by (nonlinear_arith)
            requires x <= 2 * HIDDEN, y >= HIDDEN, k + 1 <= l;
    }
}

/// The magnitude of a pattern that is put together from a significand and the
/// power of two that weighs it.
proof fn lemma_composed(x: Binary64, k: nat, c: nat)
    requires
        x.finite(),
        x.pattern() == k * (HIDDEN as nat) + c,
        c <= 2 * HIDDEN,
        k == 0 || c >= HIDDEN,
    ensures
        x.magnitude() == c * pow2(k),
{
    vstd::arithmetic::power2::lemma2_to64();
    lemma_pow2_unfold(k + 1);
    let h = HIDDEN as int;
    if c < HIDDEN {
        lemma_fundamental_div_mod_converse(x.pattern() as int, h, 0, c as int);
    } else if c < 2 * HIDDEN {
        lemma_fundamental_div_mod_converse(x.pattern() as int, h, k as int + 1, c - HIDDEN);
    } else {
        lemma_fundamental_div_mod_converse(x.pattern() as int, h, k as int + 2, 0);
        assert(h * pow2(k + 1) == (2 * h) * pow2(k)) by (nonlinear_arith)
            requires pow2(k + 1) == 2 * pow2(k);
    }
}

/// A finite rounding lies within one part in `2^53` of the exact value, or
/// within half a unit of it.
pub proof fn law_rounding_is_near(negative: bool, n: nat, d: nat)
    requires
        d > 0,
        rounding::nearest(negative, n, d).finite(),
    ensures
        ({
            let scaled = rounding::nearest(negative, n, d).magnitude() * d;
            &&& (2 * HIDDEN) * scaled <= (2 * HIDDEN + 1) * n + HIDDEN * d
            &&& (2 * HIDDEN - 1) * n <= (2 * HIDDEN) * scaled + HIDDEN * d
        }),
{
    let k = rounding::excess(n / d);
    let p = pow2(k);
    lemma_excess_bounds(n / d);
    lemma_pow2_pos(k);
    lemma_pow2_unfold(k + 1);
    vstd::arithmetic::power2::lemma2_to64();
    assert(d * p > 0) by (nonlinear_arith)
        requires d > 0, p > 0;
    let cut = d * p;
    let c = rounding::half_even(n, cut);
    let r = rounding::nearest(negative, n, d);
    lemma_half_even_monotone(n, n, cut);
    lemma_fundamental_div_mod(n as int, d as int);
    lemma_fundamental_div_mod(n as int, cut as int);
    let floor = n / cut;
    let rest = n % cut;
    assert(n < (2 * HIDDEN) * cut) by (nonlinear_arith)
        requires n / d < HIDDEN * pow2(k + 1), pow2(k + 1) == 2 * p, n == d * (n / d) + n % d,
            n % d < d, d > 0, cut == d * p;
    assert(floor < 2 * HIDDEN) by (nonlinear_arith)
        requires n < (2 * HIDDEN) * cut, n == cut * floor + rest, rest >= 0, cut > 0;
    if k > 0 {
        assert(n >= HIDDEN * cut) by (nonlinear_arith)
            requires n / d >= HIDDEN * p, n == d * (n / d) + n % d, n % d >= 0, d > 0, cut == d * p;
        assert(floor >= HIDDEN) by (nonlinear_arith)
            requires n >= HIDDEN * cut, n == cut * floor + rest, rest < cut, cut > 0;
    }
    assert(r.pattern() == k * (HIDDEN as nat) + c);
    lemma_composed(r, k, c);
    let scaled = r.magnitude() * d;
    assert(scaled == cut * c) by (nonlinear_arith)
        requires scaled == (c * p) * d, cut == d * p;
    assert(cut * (floor + 1) == cut * floor + cut) by (nonlinear_arith);
    assert(2 * (scaled - n) <= cut && 2 * (n - scaled) <= cut);
    if k == 0 {
        assert(cut == d) by (nonlinear_arith)
            requires cut == d * p, p == 1;
    }
}

/// A larger term gives no smaller a sum, and a smaller difference.
pub proof fn law_sums_are_monotone(a: Binary64, b: Binary64, c: Binary64)
    requires
        a.finite(),
        b.finite(),
        c.finite(),
        a.le(b),
    ensures
        a.plus(c).le(b.plus(c)),
        a.minus(c).le(b.minus(c)),
        c.minus(b).le(c.minus(a)),
{
    law_order_is_that_of_the_values(a, b);
    lemma_negated(a);
    lemma_negated(b);
    lemma_negated(c);
    lemma_sum_is_monotone(a, c, b, c);
    lemma_sum_is_monotone(a, c.negated(), b, c.negated());
    lemma_sum_is_monotone(c, b.negated(), c, a.negated());
}

proof fn lemma_negated(a: Binary64)
    requires
        a.finite(),
    ensures
        a.negated().finite(),
        a.negated().units() == -a.units(),
{
    lemma_zero_magnitude(a);
    assert(a.negated().pattern() == a.pattern());
    assert(a.negated().magnitude() == a.magnitude());
}

proof fn lemma_sum_is_monotone(a: Binary64, b: Binary64, c: Binary64, d: Binary64)
    requires
        a.finite(),
        b.finite(),
        c.finite(),
        d.finite(),
        a.units() + b.units() <= c.units() + d.units(),
    ensures
        a.plus(b).le(c.plus(d)),
{
    reveal(Binary64::spec_plus);
    let s = a.units() + b.units();
    let t = c.units() + d.units();
    if s < 0 {
        law_rounding_is_monotone(true, 0, (-s) as nat, 1);
    }
    if t > 0 {
        law_rounding_is_monotone(false, 0, t as nat, 1);
    }
    if s > 0 {
        law_rounding_is_monotone(false, s as nat, t as nat, 1);
    } else if t < 0 {
        law_rounding_is_monotone(true, (-t) as nat, (-s) as nat, 1);
    }
    if s < 0 {
        lemma_nearest_pattern(true, (-s) as nat, 1);
    }
    if t > 0 {
        lemma_nearest_pattern(false, t as nat, 1);
    }
}

/// Adding a number that is not negative never makes a sum smaller.
pub proof fn law_sums_do_not_shrink(a: Binary64, b: Binary64)
    requires
        a.finite(),
        b.finite(),
        Binary64::of(0).le(a),
        Binary64::of(0).le(b),
    ensures
        a.le(a.plus(b)),
        a.le(a.plus(b).next_up()),
{
    reveal(Binary64::spec_plus);
    lemma_zero_magnitude(a);
    lemma_zero_magnitude(b);
    let sum = a.units() + b.units();
    if sum == 0 {
    } else {
        assert(a.units() == a.magnitude() && b.units() == b.magnitude());
        law_rounding_is_monotone(false, a.magnitude(), sum as nat, 1);
        rounding::lemma_exact(a);
    }
}

/// The product of two numbers that are not negative is not negative, or a NaN.
pub proof fn law_product_is_not_negative(a: Binary64, b: Binary64)
    requires
        Binary64::of(0).le(a),
        Binary64::of(0).le(b),
    ensures
        a.times(b).nan() || Binary64::of(0).le(a.times(b)),
{
    reveal(Binary64::spec_times);
    if !a.infinite() && !b.infinite() {
        let n = a.magnitude() * b.magnitude();
        lemma_nearest_pattern(a.negative() != b.negative(), n, pow2(1074));
        if a.zero() || b.zero() {
            lemma_zero_magnitude(a);
            lemma_zero_magnitude(b);
            assert(n == 0) by (nonlinear_arith)
                requires n == a.magnitude() * b.magnitude(), a.magnitude() == 0 || b.magnitude() == 0;
            lemma_pow2_pos(1074);
            rounding::lemma_nearest_zero(a.negative() != b.negative(), pow2(1074));
        }
    }
}

/// A rounded number has the sign asked for and is no NaN.
proof fn lemma_nearest_pattern(negative: bool, n: nat, d: nat)
    ensures
        rounding::nearest(negative, n, d).negative() == negative,
        rounding::nearest(negative, n, d).pattern() <= INFINITY,
{
}

/// A sum with an infinity or a NaN is not finite.
pub proof fn law_infinite_sum(a: Binary64, b: Binary64)
    ensures
        !a.finite() || !b.finite() ==> !a.plus(b).finite(),
        a.plus(b).finite() ==> a.finite() && b.finite(),
{
    reveal(Binary64::spec_plus);
}

} // verus!
