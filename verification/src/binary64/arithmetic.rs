//! Correctly rounded arithmetic on binary64 patterns.
use super::rounding;
use super::{Binary64, HIDDEN, INFINITY, QUIET_NAN, SIGN};
use vstd::arithmetic::div_mod::{lemma_fundamental_div_mod, lemma_fundamental_div_mod_converse};
use vstd::arithmetic::power2::{
    lemma_pow2_adds, lemma_pow2_pos, lemma_pow2_strictly_increases, lemma_pow2_unfold, pow2,
};
use vstd::prelude::*;

verus! {

pub open spec fn magnitude_of(x: int) -> nat {
    if x < 0 {
        (-x) as nat
    } else {
        x as nat
    }
}

impl Binary64 {
    pub open spec fn infinity(negative: bool) -> Self {
        rounding::signed(negative, INFINITY as nat)
    }

    /// The exact sum, rounded. An exact zero is positive unless both terms
    /// are negative zeros.
    #[verifier::opaque]
    pub open spec fn spec_plus(self, other: Self) -> Self {
        if self.nan() || other.nan() {
            Self::invalid()
        } else if self.infinite() {
            if other.infinite() && self.negative() != other.negative() {
                Self::invalid()
            } else {
                self
            }
        } else if other.infinite() {
            other
        } else {
            let sum = self.units() + other.units();
            if sum == 0 {
                rounding::signed(self.negative() && other.negative(), 0)
            } else {
                rounding::nearest(sum < 0, magnitude_of(sum), 1)
            }
        }
    }

    pub open spec fn spec_minus(self, other: Self) -> Self {
        if other.nan() {
            Self::invalid()
        } else {
            self.spec_plus(other.spec_negated())
        }
    }

    /// The exact product, rounded.
    #[verifier::opaque]
    pub open spec fn spec_times(self, other: Self) -> Self {
        let negative = self.negative() != other.negative();
        if self.nan() || other.nan() {
            Self::invalid()
        } else if self.infinite() || other.infinite() {
            if self.zero() || other.zero() {
                Self::invalid()
            } else {
                Self::infinity(negative)
            }
        } else {
            rounding::nearest(negative, self.magnitude() * other.magnitude(), pow2(1074))
        }
    }

    /// The exact quotient, rounded; a nonzero number over zero is an infinity.
    #[verifier::opaque]
    pub open spec fn spec_over(self, other: Self) -> Self {
        let negative = self.negative() != other.negative();
        if self.nan() || other.nan() || (self.infinite() && other.infinite()) || (self.zero()
            && other.zero()) {
            Self::invalid()
        } else if self.infinite() || other.zero() {
            Self::infinity(negative)
        } else if other.infinite() {
            rounding::signed(negative, 0)
        } else {
            rounding::nearest(negative, self.magnitude() * pow2(1074), other.magnitude())
        }
    }

    #[verifier::when_used_as_spec(spec_plus)]
    pub fn plus(self, other: Self) -> (r: Self)
        ensures
            r == self.spec_plus(other),
    {
        reveal(Binary64::spec_plus);
        if self.is_nan() || other.is_nan() {
            return Binary64 { bits: QUIET_NAN };
        }
        if self.is_infinite() {
            if other.is_infinite() && self.is_negative() != other.is_negative() {
                return Binary64 { bits: QUIET_NAN };
            }
            return self;
        }
        if other.is_infinite() {
            return other;
        }
        let (m, e) = self.parts();
        let (n, f) = other.parts();
        if e >= f {
            aligned_sum(self.is_negative(), m, e, other.is_negative(), n, f)
        } else {
            aligned_sum(other.is_negative(), n, f, self.is_negative(), m, e)
        }
    }

    #[verifier::when_used_as_spec(spec_minus)]
    pub fn minus(self, other: Self) -> (r: Self)
        ensures
            r == self.spec_minus(other),
    {
        if other.is_nan() {
            return Binary64 { bits: QUIET_NAN };
        }
        self.plus(other.negated())
    }

    #[verifier::when_used_as_spec(spec_times)]
    pub fn times(self, other: Self) -> (r: Self)
        ensures
            r == self.spec_times(other),
    {
        reveal(Binary64::spec_times);
        let negative: bool = self.is_negative() != other.is_negative();
        if self.is_nan() || other.is_nan() {
            return Binary64 { bits: QUIET_NAN };
        }
        let self_zero: bool = self.abs().bits == 0;
        let other_zero: bool = other.abs().bits == 0;
        if self.is_infinite() || other.is_infinite() {
            if self_zero || other_zero {
                return Binary64 { bits: QUIET_NAN };
            }
            return Binary64 { bits: if negative { INFINITY + SIGN } else { INFINITY } };
        }
        let (m, e) = self.parts();
        let (n, f) = other.parts();
        proof {
            lemma_pow2_pos(e as nat);
            lemma_pow2_pos(f as nat);
            lemma_pow2_pos(1074);
            lemma_units_of_one();
        }
        let ghost product = self.magnitude() * other.magnitude();
        if m == 0 || n == 0 {
            proof {
                assert(product == 0) by (nonlinear_arith)
                    requires
                        product == (m * pow2(e as nat)) * (n * pow2(f as nat)),
                        m == 0 || n == 0,
                ;
                rounding::lemma_nearest_zero(negative, pow2(1074));
            }
            return Binary64 { bits: if negative { SIGN } else { 0 } };
        }
        assert(m * n < 0x4000_0000_0000_0000_0000_0000_0000_0000) by (nonlinear_arith)
            requires m < 0x20_0000_0000_0000, n < 0x20_0000_0000_0000;
        let sig: u128 = (m as u128) * (n as u128);
        let ghost up = (e + f) as nat;
        proof {
            assert(sig > 0) by (nonlinear_arith)
                requires sig == m * n, m > 0, n > 0;
            lemma_pow2_adds(e as nat, f as nat);
            assert(product * pow2(1074) == sig * (pow2(1074) * pow2(up))) by (nonlinear_arith)
                requires
                    product == (m * pow2(e as nat)) * (n * pow2(f as nat)),
                    sig == m * n,
                    pow2(up) == pow2(e as nat) * pow2(f as nat),
            ;
            lemma_pow2_pos(up);
            assert((sig + 1) * (pow2(1074) * pow2(up)) > sig * (pow2(1074) * pow2(up)))
                by (nonlinear_arith)
                requires pow2(1074) > 0, pow2(up) > 0;
        }
        rounding::round_bracket(
            negative,
            sig,
            e as i32 + f as i32 - 1074,
            false,
            Ghost(product),
            Ghost(pow2(1074)),
            Ghost(up),
            Ghost(1074),
        )
    }

    #[verifier::when_used_as_spec(spec_over)]
    pub fn over(self, other: Self) -> (r: Self)
        ensures
            r == self.spec_over(other),
    {
        reveal(Binary64::spec_over);
        let negative: bool = self.is_negative() != other.is_negative();
        let self_zero: bool = self.abs().bits == 0;
        let other_zero: bool = other.abs().bits == 0;
        if self.is_nan() || other.is_nan() || (self.is_infinite() && other.is_infinite()) || (
        self_zero && other_zero) {
            return Binary64 { bits: QUIET_NAN };
        }
        if self.is_infinite() || other_zero {
            return Binary64 { bits: if negative { INFINITY + SIGN } else { INFINITY } };
        }
        if other.is_infinite() {
            return Binary64 { bits: if negative { SIGN } else { 0 } };
        }
        let (m, e) = self.parts();
        let (n, f) = other.parts();
        let ghost dividend = self.magnitude() * pow2(1074);
        let ghost divisor = other.magnitude();
        proof {
            lemma_pow2_pos(e as nat);
            lemma_pow2_pos(f as nat);
            lemma_pow2_pos(1074);
            lemma_units_of_one();
            assert(n > 0);
            assert(divisor > 0) by (nonlinear_arith)
                requires divisor == n * pow2(f as nat), n > 0, pow2(f as nat) > 0;
        }
        if m == 0 {
            proof {
                assert(dividend == 0) by (nonlinear_arith)
                    requires dividend == (m * pow2(e as nat)) * pow2(1074), m == 0;
                rounding::lemma_nearest_zero(negative, divisor);
            }
            return Binary64 { bits: if negative { SIGN } else { 0 } };
        }
        let b: u32 = rounding::bit_length(m as u128);
        proof {
            lemma_bits_below(m as nat, b as nat);
        }
        let s: u32 = 126 - b;
        let top: u128 = rounding::power(s);
        proof {
            lemma_normalized(m as nat, b as nat, s as nat);
        }
        let x: u128 = (m as u128) * top;
        let sig: u128 = x / (n as u128);
        let sticky: bool = x % (n as u128) != 0;
        let ghost up = (e + 1074) as nat;
        let ghost down = (s + f) as nat;
        proof {
            let r = x as int % n as int;
            lemma_fundamental_div_mod(x as int, n as int);
            let w = pow2(f as nat) * pow2(up);
            lemma_pow2_pos(up);
            lemma_pow2_adds(e as nat, 1074);
            lemma_pow2_adds(s as nat, f as nat);
            assert(w > 0) by (nonlinear_arith)
                requires w == pow2(f as nat) * pow2(up), pow2(f as nat) > 0, pow2(up) > 0;
            assert(dividend * pow2(down) == x * w) by (nonlinear_arith)
                requires
                    dividend == (m * pow2(e as nat)) * pow2(1074),
                    pow2(down) == top * pow2(f as nat),
                    pow2(up) == pow2(e as nat) * pow2(1074),
                    w == pow2(f as nat) * pow2(up),
                    x == m * top,
            ;
            assert(divisor * pow2(up) == n * w) by (nonlinear_arith)
                requires divisor == n * pow2(f as nat), w == pow2(f as nat) * pow2(up);
            assert(sig * (n * w) + r * w == x * w) by (nonlinear_arith)
                requires x == n * sig + r;
            assert((sig + 1) * (n * w) == sig * (n * w) + n * w) by (nonlinear_arith);
            assert(0 <= r * w < n * w && (r * w == 0 <==> r == 0)) by (nonlinear_arith)
                requires 0 <= r < n, w > 0;
            assert(sig >= pow2(54)) by (nonlinear_arith)
                requires
                    x == n * sig + r,
                    r < n,
                    n < 0x20_0000_0000_0000,
                    x >= 0x2000_0000_0000_0000_0000_0000_0000_0000,
                    pow2(54) == 0x40_0000_0000_0000,
                    sig >= 0,
            ;
            assert(sig <= x) by (nonlinear_arith)
                requires x == n * sig + r, r >= 0, n >= 1, sig >= 0;
        }
        rounding::round_bracket(
            negative,
            sig,
            e as i32 + 1074 - s as i32 - f as i32,
            sticky,
            Ghost(dividend),
            Ghost(divisor),
            Ghost(up),
            Ghost(down),
        )
    }

    /// The remainder of the truncating division, with the sign of the dividend.
    #[verifier::opaque]
    pub open spec fn spec_remainder(self, other: Self) -> Self {
        if self.nan() || other.nan() || self.infinite() || other.zero() {
            Self::invalid()
        } else if other.infinite() {
            self
        } else {
            rounding::nearest(self.negative(), self.magnitude() % other.magnitude(), 1)
        }
    }

    /// The remainder moved into the range from zero to the divisor's absolute
    /// value.
    pub open spec fn spec_rem_euclid(self, other: Self) -> Self {
        let r = self.spec_remainder(other);
        if r.lt(Binary64 { bits: 0 }) {
            r.spec_plus(other.spec_abs())
        } else {
            r
        }
    }

    #[verifier::when_used_as_spec(spec_remainder)]
    pub fn remainder(self, other: Self) -> (r: Self)
        ensures
            r == self.spec_remainder(other),
    {
        reveal(Binary64::spec_remainder);
        if self.is_nan() || other.is_nan() || self.is_infinite() || other.abs().bits == 0 {
            return Binary64 { bits: QUIET_NAN };
        }
        if other.is_infinite() {
            return self;
        }
        let (m, e) = self.parts();
        let (n, f) = other.parts();
        let negative: bool = self.is_negative();
        let ghost a = self.magnitude();
        let ghost b = other.magnitude();
        proof {
            lemma_units_of_one();
            lemma_pow2_pos(e as nat);
            lemma_pow2_pos(f as nat);
            assert(b > 0) by (nonlinear_arith)
                requires b == n * pow2(f as nat), n > 0, pow2(f as nat) > 0;
        }
        let rest: u64;
        let scale: u32;
        if e < f {
            rest = m;
            scale = e;
            proof {
                lemma_pow2_adds((f - e) as nat, e as nat);
                lemma_pow2_unfold((f - e) as nat);
                lemma_pow2_pos((f - e - 1) as nat);
                assert(a < b) by (nonlinear_arith)
                    requires
                        a == m * pow2(e as nat),
                        b == n * pow2(f as nat),
                        pow2(f as nat) == pow2((f - e) as nat) * pow2(e as nat),
                        pow2((f - e) as nat) == 2 * pow2((f - e - 1) as nat),
                        pow2((f - e - 1) as nat) >= 1,
                        m < 2 * HIDDEN,
                        n >= HIDDEN,
                        pow2(e as nat) > 0,
                ;
                vstd::arithmetic::div_mod::lemma_small_mod(a, b);
            }
        } else {
            let gap: u32 = e - f;
            let mut left: u64 = m % n;
            let mut i: u32 = 0;
            while i < gap
                invariant
                    i <= gap,
                    0 < n < 2 * HIDDEN,
                    left < n,
                    left == (m * pow2(i as nat)) % (n as int),
                decreases gap - i,
            {
                proof {
                    lemma_pow2_unfold((i + 1) as nat);
                    let z = m * pow2(i as nat);
                    assert(m * pow2((i + 1) as nat) == 2 * z) by (nonlinear_arith)
                        requires z == m * pow2(i as nat), pow2((i + 1) as nat) == 2 * pow2(
                            i as nat,
                        );
                    vstd::arithmetic::div_mod::lemma_mul_mod_noop_right(2, z, n as int);
                }
                left = (2 * left) % n;
                i += 1;
            }
            rest = left;
            scale = f;
            proof {
                let z = m * pow2(gap as nat);
                lemma_pow2_adds(gap as nat, f as nat);
                lemma_fundamental_div_mod(z, n as int);
                let q = z / (n as int);
                assert(a == q * b + rest * pow2(f as nat)) by (nonlinear_arith)
                    requires
                        a == m * pow2(e as nat),
                        pow2(e as nat) == pow2(gap as nat) * pow2(f as nat),
                        z == m * pow2(gap as nat),
                        z == n * q + rest,
                        b == n * pow2(f as nat),
                ;
                assert(0 <= rest * pow2(f as nat) < b) by (nonlinear_arith)
                    requires 0 <= rest < n, b == n * pow2(f as nat), pow2(f as nat) > 0;
                lemma_fundamental_div_mod_converse(
                    a as int,
                    b as int,
                    q,
                    (rest * pow2(f as nat)) as int,
                );
            }
        }
        assert(a % b == rest * pow2(scale as nat));
        pack(negative, rest, scale)
    }

    #[verifier::when_used_as_spec(spec_rem_euclid)]
    pub fn rem_euclid(self, other: Self) -> (r: Self)
        ensures
            r == self.spec_rem_euclid(other),
    {
        let r: Binary64 = self.remainder(other);
        if r.less(Binary64 { bits: 0 }) {
            r.plus(other.abs())
        } else {
            r
        }
    }
}

/// The number with the given significand and scale.
fn pack(negative: bool, m: u64, e: u32) -> (r: Binary64)
    requires
        e <= 2045,
    ensures
        r == rounding::nearest(negative, (m * pow2(e as nat)) as nat, 1),
{
    proof {
        lemma_units_of_one();
        lemma_pow2_pos(e as nat);
    }
    if m == 0 {
        proof {
            assert(m * pow2(e as nat) == 0) by (nonlinear_arith)
                requires m == 0;
            rounding::lemma_nearest_zero(negative, 1);
        }
        return Binary64 { bits: if negative { SIGN } else { 0 } };
    }
    proof {
        assert((m + 1) * pow2(e as nat) == m * pow2(e as nat) + pow2(e as nat))
            by (nonlinear_arith);
        assert(m * pow2(e as nat) > 0) by (nonlinear_arith)
            requires m > 0, pow2(e as nat) > 0;
    }
    rounding::round_bracket(
        negative,
        m as u128,
        e as i32,
        false,
        Ghost((m * pow2(e as nat)) as nat),
        Ghost(1),
        Ghost(e as nat),
        Ghost(0),
    )
}

proof fn lemma_bits_below(m: nat, b: nat)
    requires
        m < 2 * HIDDEN,
        b >= 1,
        pow2((b - 1) as nat) <= m,
    ensures
        b <= 53,
{
    vstd::arithmetic::power2::lemma2_to64();
    vstd::arithmetic::power2::lemma2_to64_rest();
    if b > 53 {
        if b > 54 {
            lemma_pow2_strictly_increases(53, (b - 1) as nat);
        }
    }
}

/// Shifting a significand of `b` bits by `126 - b` places gives 126 bits.
proof fn lemma_normalized(m: nat, b: nat, s: nat)
    requires
        1 <= b <= 53,
        pow2((b - 1) as nat) <= m < pow2(b),
        s + b == 126,
    ensures
        0x2000_0000_0000_0000_0000_0000_0000_0000 <= m * pow2(s)
            < 0x4000_0000_0000_0000_0000_0000_0000_0000,
{
    lemma_units_of_one();
    lemma_pow2_unfold(127);
    lemma_pow2_unfold(126);
    lemma_pow2_adds((b - 1) as nat, s);
    lemma_pow2_adds(b, s);
    lemma_pow2_pos(s);
    assert(m * pow2(s) >= pow2((b - 1) as nat) * pow2(s)) by (nonlinear_arith)
        requires m >= pow2((b - 1) as nat);
    assert(m * pow2(s) < pow2(b) * pow2(s)) by (nonlinear_arith)
        requires m < pow2(b), pow2(s) > 0;
}

/// The rounded sum of two signed terms, the first with the larger scale.
#[verifier::rlimit(40)]
#[verifier::spinoff_prover]
fn aligned_sum(a: bool, m: u64, e: u32, b: bool, n: u64, f: u32) -> (r: Binary64)
    requires
        m < 2 * HIDDEN,
        n < 2 * HIDDEN,
        f <= e <= 2045,
        e > 0 ==> m >= HIDDEN,
    ensures
        ({
            let x = m * pow2(e as nat);
            let y = n * pow2(f as nat);
            let sum = (if a { -x } else { x as int }) + (if b { -y } else { y as int });
            r == if sum == 0 {
                rounding::signed(a && b, 0)
            } else {
                rounding::nearest(sum < 0, magnitude_of(sum), 1)
            }
        }),
{
    let gap: u32 = e - f;
    let lift: u32 = if gap < 64 {
        gap
    } else {
        64
    };
    let tail: u32 = gap - lift;
    let top: u128 = rounding::power(lift);
    proof {
        assert(pow2(64) == 0x1_0000_0000_0000_0000) by {
            vstd::arithmetic::power2::lemma2_to64();
        }
        if lift < 64 {
            lemma_pow2_strictly_increases(lift as nat, 64);
        }
        assert(m * top <= 0x20_0000_0000_0000 * 0x1_0000_0000_0000_0000) by (nonlinear_arith)
            requires m < 0x20_0000_0000_0000, top <= 0x1_0000_0000_0000_0000;
    }
    let high: u128 = (m as u128) * top;
    let low: u128;
    let lost: bool;
    if tail >= 64 {
        low = 0;
        lost = n != 0;
    } else {
        low = (n as u128) / rounding::power(tail);
        lost = (n as u128) % rounding::power(tail) != 0;
    }
    let exp: i32 = (e - lift) as i32;
    let ghost x = (m * pow2(e as nat)) as nat;
    let ghost y = (n * pow2(f as nat)) as nat;
    let ghost unit = pow2(exp as nat);
    let ghost rest = (y - low * unit) as int;
    proof {
        lemma_pow2_pos(exp as nat);
        lemma_pow2_pos(f as nat);
        lemma_pow2_adds(lift as nat, exp as nat);
        lemma_pow2_adds(tail as nat, f as nat);
        lemma_pow2_pos(tail as nat);
        assert(x == high * unit) by (nonlinear_arith)
            requires
                x == m * pow2(e as nat),
                pow2(e as nat) == top * unit,
                high == m * top,
        ;
        let w = pow2(tail as nat);
        if tail >= 64 {
            if tail > 64 {
                lemma_pow2_strictly_increases(64, tail as nat);
            }
            assert(0 <= y < unit && (y == 0 <==> n == 0)) by (nonlinear_arith)
                requires
                    y == n * pow2(f as nat),
                    unit == w * pow2(f as nat),
                    0 <= n < w,
                    pow2(f as nat) > 0,
            ;
        } else {
            lemma_fundamental_div_mod(n as int, w as int);
            let l = n as int % w as int;
            assert(rest == l * pow2(f as nat)) by (nonlinear_arith)
                requires
                    rest == y - low * unit,
                    y == n * pow2(f as nat),
                    unit == w * pow2(f as nat),
                    n == w * low + l,
            ;
            assert(0 <= rest < unit && (rest == 0 <==> l == 0)) by (nonlinear_arith)
                requires
                    rest == l * pow2(f as nat),
                    unit == w * pow2(f as nat),
                    0 <= l < w,
                    pow2(f as nat) > 0,
            ;
        }
        assert(0 <= rest < unit);
        assert(lost == (rest != 0));
        assert(unit >= pow2(f as nat)) by (nonlinear_arith)
            requires unit == w * pow2(f as nat), w >= 1;
        assert(low <= n) by (nonlinear_arith)
            requires low * unit <= n * pow2(f as nat), unit >= pow2(f as nat), pow2(f as nat) > 0,
        ;
        lemma_units_of_one();
        if tail > 0 {
            assert(high >= 0x10_0000_0000_0000 * 0x1_0000_0000_0000_0000) by (nonlinear_arith)
                requires m >= 0x10_0000_0000_0000, top == 0x1_0000_0000_0000_0000, high == m * top,
            ;
        }
    }
    if a == b {
        let sig: u128 = high + low;
        proof {
            assert((high + low) * unit == high * unit + low * unit) by (nonlinear_arith);
            assert((high + low + 1) * unit == high * unit + low * unit + unit)
                by (nonlinear_arith);
        }
        if sig == 0 {
            assert(x + y == 0) by (nonlinear_arith)
                requires x == high * unit, high == 0, low == 0, y == low * unit + rest, rest == 0;
            return Binary64 { bits: if a { SIGN } else { 0 } };
        }
        assert(x + y > 0) by (nonlinear_arith)
            requires x == high * unit, high + low > 0, y == low * unit + rest, rest >= 0, unit > 0;
        rounding::round_bracket(
            a, sig, exp, lost, Ghost(x + y), Ghost(1), Ghost(exp as nat), Ghost(0),
        )
    } else if tail > 0 {
        let sig: u128 = high - low - if lost { 1 } else { 0 };
        proof {
            let borrow: int = if lost { 1 } else { 0 };
            assert(sig * unit == high * unit - low * unit - borrow * unit) by (nonlinear_arith)
                requires sig == high - low - borrow;
            assert((sig + 1) * unit == sig * unit + unit) by (nonlinear_arith);
            assert((low + 1) * unit <= high * unit) by (nonlinear_arith)
                requires low + 1 <= high, unit > 0;
            assert((low + 1) * unit == low * unit + unit) by (nonlinear_arith);
        }
        rounding::round_bracket(
            a, sig, exp, lost, Ghost((x - y) as nat), Ghost(1), Ghost(exp as nat), Ghost(0),
        )
    } else if high > low {
        let sig: u128 = high - low;
        proof {
            assert(sig * unit == high * unit - low * unit) by (nonlinear_arith)
                requires sig == high - low;
            assert((sig + 1) * unit == sig * unit + unit) by (nonlinear_arith);
            assert(sig * unit > 0) by (nonlinear_arith)
                requires sig > 0, unit > 0;
        }
        rounding::round_bracket(
            a, sig, exp, false, Ghost((x - y) as nat), Ghost(1), Ghost(exp as nat), Ghost(0),
        )
    } else if high < low {
        let sig: u128 = low - high;
        proof {
            assert(sig * unit == low * unit - high * unit) by (nonlinear_arith)
                requires sig == low - high;
            assert((sig + 1) * unit == sig * unit + unit) by (nonlinear_arith);
            assert(sig * unit > 0) by (nonlinear_arith)
                requires sig > 0, unit > 0;
        }
        rounding::round_bracket(
            b, sig, exp, false, Ghost((y - x) as nat), Ghost(1), Ghost(exp as nat), Ghost(0),
        )
    } else {
        Binary64 { bits: 0 }
    }
}

proof fn lemma_units_of_one()
    ensures
        pow2(0) == 1,
        pow2(54) == 0x40_0000_0000_0000,
        pow2(127) == 0x8000_0000_0000_0000_0000_0000_0000_0000,
{
    vstd::arithmetic::power2::lemma2_to64();
    vstd::arithmetic::power2::lemma2_to64_rest();
    lemma_pow2_adds(63, 64);
}

} // verus!
