//! The values that patterns stand for.
use super::conversion;
use super::laws;
use super::rounding;
use super::{Binary64, HIDDEN};
use vstd::arithmetic::div_mod::lemma_fundamental_div_mod_converse;
use vstd::arithmetic::power2::{lemma_pow2_adds, lemma_pow2_pos, pow2};
use vstd::prelude::*;

verus! {

/// The value of a pattern whose significand is a natural number times a power
/// of two that makes up for the exponent.
pub proof fn lemma_whole(bits: u64, exponent: nat, n: nat, k: nat)
    requires
        1 <= exponent <= 2046,
        HIDDEN <= n * pow2(k) < 2 * HIDDEN,
        bits == exponent * HIDDEN + (n * pow2(k) - HIDDEN),
        k + (exponent - 1) == 1074,
    ensures
        Binary64::of(bits).finite(),
        !Binary64::of(bits).negative(),
        Binary64::of(bits).magnitude() == n * conversion::one(),
{
    let x = Binary64::of(bits);
    let s = n * pow2(k);
    lemma_fundamental_div_mod_converse(bits as int, HIDDEN as int, exponent as int, s - HIDDEN);
    lemma_pow2_adds(k, (exponent - 1) as nat);
    assert(s * pow2((exponent - 1) as nat) == n * pow2(1074)) by (nonlinear_arith)
        requires s == n * pow2(k), pow2(k) * pow2((exponent - 1) as nat) == pow2(1074);
}

/// Rounding does not depend on a common factor.
pub proof fn law_rounding_cancels(negative: bool, n: nat, d: nat, f: nat)
    requires
        d > 0,
        f > 0,
    ensures
        rounding::nearest(negative, n * f, d * f) == rounding::nearest(negative, n, d),
{
    assert((n * f) / (d * f) == n / d) by {
        vstd::arithmetic::div_mod::lemma_div_denominator((n * f) as int, f as int, d as int);
        vstd::arithmetic::div_mod::lemma_div_by_multiple(n as int, f as int);
        assert(d * f == f * d) by (nonlinear_arith);
    }
    let p = pow2(rounding::excess(n / d));
    lemma_pow2_pos(rounding::excess(n / d));
    assert(d * p > 0 && (d * f) * p == (d * p) * f) by (nonlinear_arith)
        requires d > 0, p > 0;
    rounding::lemma_half_even_scaled(n, d * p, f);
}

/// The product with a whole factor is exact where it has at most fifty-three
/// bits.
pub proof fn lemma_whole_product(a: Binary64, b: Binary64, m: nat, n: nat)
    requires
        a.finite(),
        !a.negative(),
        b.finite(),
        !b.negative(),
        a.magnitude() == m * conversion::one(),
        b.magnitude() == n * conversion::one(),
        m * n < 2 * HIDDEN,
    ensures
        a.times(b).finite(),
        !a.times(b).negative(),
        a.times(b).magnitude() == (m * n) * conversion::one(),
{
    reveal(Binary64::spec_times);
    let u = conversion::one();
    lemma_pow2_pos(1074);
    assert(a.magnitude() * b.magnitude() == ((m * n) * u) * u) by (nonlinear_arith)
        requires a.magnitude() == m * u, b.magnitude() == n * u;
    law_rounding_cancels(false, (m * n) * u, 1, u);
    assert(1 * u == u);
    laws::law_rounding_is_exact_on_representable_values(false, m * n, 1074);
}

/// A quotient of whole numbers lies within a rounding of the exact one.
pub proof fn lemma_whole_quotient(a: Binary64, b: Binary64, m: nat, n: nat)
    requires
        a.finite(),
        !a.negative(),
        b.finite(),
        !b.negative(),
        a.magnitude() == m * conversion::one(),
        b.magnitude() == n * conversion::one(),
        m < 2 * HIDDEN,
        n >= 1,
    ensures
        a.over(b).finite(),
        !a.over(b).negative(),
        (2 * HIDDEN) * (a.over(b).magnitude() * n) <= (2 * HIDDEN + 1) * (m * conversion::one())
            + HIDDEN * n,
        (2 * HIDDEN - 1) * (m * conversion::one()) <= (2 * HIDDEN) * (a.over(b).magnitude() * n)
            + HIDDEN * n,
{
    reveal(Binary64::spec_over);
    let u = conversion::one();
    lemma_pow2_pos(1074);
    assert(n * u > 0) by (nonlinear_arith)
        requires n >= 1, u > 0;
    laws::lemma_zero_magnitude(b);
    laws::lemma_zero_magnitude(a);
    law_rounding_cancels(false, m * u, n, u);
    let r = rounding::nearest(false, m * u, n);
    assert((m * u) * n >= m * u) by (nonlinear_arith)
        requires n >= 1;
    laws::law_rounding_is_monotone(false, m * u, (m * u) * n, n);
    law_rounding_cancels(false, m * u, 1, n);
    assert(1 * n == n);
    laws::law_rounding_is_exact_on_representable_values(false, m, 1074);
    laws::law_rounding_is_near(false, m * u, n);
    assert(a.over(b) == r);
}

} // verus!
