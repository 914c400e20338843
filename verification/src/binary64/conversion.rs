//! Integers to binary64 and back.
use super::rounding;
use super::{Binary64, HIDDEN, SIGN};
use vstd::arithmetic::div_mod::{lemma_fundamental_div_mod, lemma_fundamental_div_mod_converse};
use vstd::arithmetic::power2::{
    lemma_pow2_adds, lemma_pow2_pos, lemma_pow2_strictly_increases, pow2,
};
use vstd::prelude::*;

verus! {

/// The number of units in one.
pub open spec fn one() -> nat {
    pow2(1074)
}

/// The smallest integer that is not below `n / d`.
pub open spec fn upper(n: nat, d: nat) -> nat {
    if n % d == 0 {
        n / d
    } else {
        n / d + 1
    }
}

/// The integer nearest to `n / d`, the larger one of two equally near.
pub open spec fn half_up(n: nat, d: nat) -> nat {
    if 2 * (n % d) >= d {
        n / d + 1
    } else {
        n / d
    }
}

impl Binary64 {
    /// The number nearest to a natural number.
    #[verifier::opaque]
    pub open spec fn spec_from_natural(x: u64) -> Self {
        rounding::nearest(false, x as nat * one(), 1)
    }

    /// The number nearest to an integer.
    #[verifier::opaque]
    pub open spec fn spec_from_integer(x: i64) -> Self {
        rounding::nearest(x < 0, (if x < 0 { -x as int } else { x as int }) as nat * one(), 1)
    }

    /// The nearest integer, away from zero where two are equally near. The
    /// sign stays, also on a zero.
    #[verifier::opaque]
    pub open spec fn spec_round(self) -> Self {
        if self.finite() {
            rounding::nearest(self.negative(), half_up(self.magnitude(), one()) * one(), 1)
        } else {
            self
        }
    }

    /// The smallest integer that is not below the value. The sign stays, also
    /// on a zero.
    #[verifier::opaque]
    pub open spec fn spec_ceil(self) -> Self {
        if self.finite() {
            let whole = if self.negative() {
                self.magnitude() / one()
            } else {
                upper(self.magnitude(), one())
            };
            rounding::nearest(self.negative(), whole * one(), 1)
        } else {
            self
        }
    }

    /// The integer part, brought into the range from zero to `limit`; zero for
    /// a NaN.
    #[verifier::opaque]
    pub open spec fn truncated(self, limit: u64) -> u64 {
        if self.nan() || self.negative() {
            0
        } else if self.infinite() || self.magnitude() / one() > limit {
            limit
        } else {
            (self.magnitude() / one()) as u64
        }
    }

    /// One with the sign of the value; a NaN stays one.
    pub open spec fn spec_signum(self) -> Self {
        if self.nan() {
            self
        } else {
            rounding::signed(self.negative(), 0x3ff0_0000_0000_0000)
        }
    }

    #[verifier::when_used_as_spec(spec_from_natural)]
    pub fn from_natural(x: u64) -> (r: Self)
        ensures
            r == Self::spec_from_natural(x),
    {
        reveal(Binary64::spec_from_natural);
        scaled(false, x)
    }

    #[verifier::when_used_as_spec(spec_from_integer)]
    pub fn from_integer(x: i64) -> (r: Self)
        ensures
            r == Self::spec_from_integer(x),
    {
        reveal(Binary64::spec_from_integer);
        if x < 0 {
            let magnitude: u64 = (-(x as i128)) as u64;
            scaled(true, magnitude)
        } else {
            scaled(false, x as u64)
        }
    }

    #[verifier::when_used_as_spec(spec_round)]
    pub fn round(self) -> (r: Self)
        ensures
            r == self.spec_round(),
    {
        reveal(Binary64::spec_round);
        if !self.is_finite() {
            return self;
        }
        let (m, e) = self.parts();
        if e < 1074 {
            let (whole, rest, high) = cut(m, e);
            scaled(self.is_negative(), if high { whole + 1 } else { whole })
        } else {
            proof {
                lemma_whole(m as nat, e as nat);
                rounding::lemma_exact(self);
            }
            self
        }
    }

    #[verifier::when_used_as_spec(spec_ceil)]
    pub fn ceil(self) -> (r: Self)
        ensures
            r == self.spec_ceil(),
    {
        reveal(Binary64::spec_ceil);
        if !self.is_finite() {
            return self;
        }
        let (m, e) = self.parts();
        if e < 1074 {
            let (whole, rest, high) = cut(m, e);
            scaled(
                self.is_negative(),
                if rest && !self.is_negative() {
                    whole + 1
                } else {
                    whole
                },
            )
        } else {
            proof {
                lemma_whole(m as nat, e as nat);
                rounding::lemma_exact(self);
            }
            self
        }
    }

    /// The saturating cast to an unsigned integer of at most `limit`.
    pub fn truncate(self, limit: u64) -> (r: u64)
        ensures
            r == self.truncated(limit),
            r <= limit,
    {
        reveal(Binary64::truncated);
        if self.is_nan() || self.is_negative() {
            return 0;
        }
        if self.is_infinite() {
            return limit;
        }
        let (m, e) = self.parts();
        if e < 1074 {
            let (whole, rest, high) = cut(m, e);
            if whole > limit {
                limit
            } else {
                whole
            }
        } else {
            let s: u32 = e - 1074;
            proof {
                lemma_whole(m as nat, e as nat);
            }
            if s >= 12 {
                proof {
                    if s > 12 {
                        lemma_pow2_strictly_increases(12, s as nat);
                    }
                    vstd::arithmetic::power2::lemma2_to64();
                    assert(m * pow2(s as nat) >= 0x10_0000_0000_0000 * 4096) by (nonlinear_arith)
                        requires m >= 0x10_0000_0000_0000, pow2(s as nat) >= 4096;
                }
                limit
            } else {
                proof {
                    lemma_pow2_strictly_increases(s as nat, 12);
                    vstd::arithmetic::power2::lemma2_to64();
                    assert(m * pow2(s as nat) <= 0x20_0000_0000_0000 * 4096) by (nonlinear_arith)
                        requires m < 0x20_0000_0000_0000, pow2(s as nat) <= 4096;
                }
                let whole: u128 = (m as u128) * rounding::power(s);
                if whole > limit as u128 {
                    limit
                } else {
                    whole as u64
                }
            }
        }
    }

    /// The saturating cast to `usize`.
    pub fn to_size(self) -> (r: usize)
        ensures
            r == self.truncated(usize::MAX as u64),
    {
        let limit: u64 = usize::MAX as u64;
        let r: u64 = self.truncate(limit);
        r as usize
    }

    #[verifier::when_used_as_spec(spec_signum)]
    pub fn signum(self) -> (r: Self)
        ensures
            r == self.spec_signum(),
    {
        if self.is_nan() {
            self
        } else if self.is_negative() {
            Binary64 { bits: 0xbff0_0000_0000_0000 }
        } else {
            Binary64 { bits: 0x3ff0_0000_0000_0000 }
        }
    }
}

/// The number nearest to an integer given by its sign and absolute value.
fn scaled(negative: bool, x: u64) -> (r: Binary64)
    ensures
        r == rounding::nearest(negative, x as nat * one(), 1),
{
    proof {
        lemma_pow2_pos(1074);
        vstd::arithmetic::power2::lemma2_to64();
        assert(pow2(127) > u64::MAX) by {
            lemma_pow2_strictly_increases(64, 127);
        }
    }
    if x == 0 {
        proof {
            assert(x as nat * one() == 0) by (nonlinear_arith)
                requires x == 0;
            rounding::lemma_nearest_zero(negative, 1);
        }
        return Binary64 { bits: if negative { SIGN } else { 0 } };
    }
    proof {
        assert((x + 1) * one() == x * one() + one()) by (nonlinear_arith);
        assert(x * one() > 0) by (nonlinear_arith)
            requires x > 0, one() > 0;
    }
    rounding::round_bracket(
        negative,
        x as u128,
        1074,
        false,
        Ghost(x as nat * one()),
        Ghost(1),
        Ghost(1074),
        Ghost(0),
    )
}

/// The integer part of `m * 2^e / 2^1074`, whether anything is left, and
/// whether what is left is at least a half.
fn cut(m: u64, e: u32) -> (r: (u64, bool, bool))
    requires
        m < 2 * HIDDEN,
        e < 1074,
    ensures
        r.0 < 2 * HIDDEN,
        ({
            let n = (m * pow2(e as nat)) as nat;
            &&& r.0 == n / one()
            &&& r.1 == (n % one() != 0)
            &&& r.2 == (2 * (n % one()) >= one())
        }),
{
    let s: u32 = 1074 - e;
    let ghost n = (m * pow2(e as nat)) as nat;
    proof {
        lemma_pow2_adds(s as nat, e as nat);
        lemma_pow2_pos(e as nat);
        lemma_pow2_pos(s as nat);
    }
    if s >= 64 {
        proof {
            vstd::arithmetic::power2::lemma2_to64();
            if s > 64 {
                lemma_pow2_strictly_increases(64, s as nat);
            }
            assert(2 * n < one() && (n == 0 <==> m == 0)) by (nonlinear_arith)
                requires
                    n == m * pow2(e as nat),
                    one() == pow2(s as nat) * pow2(e as nat),
                    2 * m < pow2(s as nat),
                    pow2(e as nat) > 0,
            ;
            vstd::arithmetic::div_mod::lemma_small_mod(n, one());
            vstd::arithmetic::div_mod::lemma_basic_div(n as int, one() as int);
        }
        (0, m != 0, false)
    } else {
        let p: u128 = rounding::power(s);
        let whole: u128 = (m as u128) / p;
        let rest: u128 = (m as u128) % p;
        proof {
            lemma_fundamental_div_mod(m as int, p as int);
            assert(n == whole * one() + rest * pow2(e as nat)) by (nonlinear_arith)
                requires
                    n == m * pow2(e as nat),
                    m == p * whole + rest,
                    one() == p * pow2(e as nat),
            ;
            assert(0 <= rest * pow2(e as nat) < one() && (rest * pow2(e as nat) == 0 <==> rest == 0)
                && (2 * (rest * pow2(e as nat)) >= one() <==> 2 * rest >= p)) by (nonlinear_arith)
                requires
                    0 <= rest < p,
                    one() == p * pow2(e as nat),
                    pow2(e as nat) > 0,
            ;
            lemma_fundamental_div_mod_converse(
                n as int,
                one() as int,
                whole as int,
                (rest * pow2(e as nat)) as int,
            );
            assert(whole <= m) by (nonlinear_arith)
                requires m == p * whole + rest, rest >= 0, p >= 1;
        }
        (whole as u64, rest != 0, 2 * rest >= p)
    }
}

/// A number whose scale is at least that of one is an integer.
proof fn lemma_whole(m: nat, e: nat)
    requires
        e >= 1074,
    ensures
        (m * pow2(e)) / one() == m * pow2((e - 1074) as nat),
        (m * pow2(e)) % one() == 0,
        half_up(m * pow2(e), one()) * one() == m * pow2(e),
        upper(m * pow2(e), one()) * one() == m * pow2(e),
        ((m * pow2(e)) / one()) * one() == m * pow2(e),
{
    let q = m * pow2((e - 1074) as nat);
    lemma_pow2_adds((e - 1074) as nat, 1074);
    lemma_pow2_pos(1074);
    assert(m * pow2(e) == q * one() + 0) by (nonlinear_arith)
        requires q == m * pow2((e - 1074) as nat), pow2(e) == pow2((e - 1074) as nat) * one();
    lemma_fundamental_div_mod_converse((m * pow2(e)) as int, one() as int, q as int, 0);
}

} // verus!
