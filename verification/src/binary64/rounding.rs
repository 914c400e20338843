//! Rounding an exact quotient to the nearest binary64 value.
use super::{Binary64, HIDDEN, INFINITY, SIGN};
use vstd::arithmetic::div_mod::{lemma_fundamental_div_mod, lemma_fundamental_div_mod_converse};
use vstd::arithmetic::power2::{
    lemma_pow2_adds, lemma_pow2_pos, lemma_pow2_strictly_increases, lemma_pow2_unfold, pow2,
};
use vstd::prelude::*;

verus! {

/// How many low bits of `q` lie beyond the 53 that a significand holds.
pub open spec fn excess(q: nat) -> nat
    decreases q,
{
    if q < 2 * HIDDEN {
        0
    } else {
        1 + excess(q / 2)
    }
}

/// The integer nearest to `n / d`, the even one of two equally near.
pub open spec fn half_even(n: nat, d: nat) -> nat {
    let floor = n / d;
    let rest = n % d;
    if 2 * rest > d || (2 * rest == d && floor % 2 == 1) {
        floor + 1
    } else {
        floor
    }
}

/// The binary64 number nearest to `n / d` units, ties to the even significand,
/// an infinity where the nearest one would need a larger exponent.
///
/// The quotient is cut at the position that leaves 53 bits (never below one
/// unit) and rounded there. A significand that rounding carries to `2^53`
/// moves to the next exponent by the same sum that builds the pattern.
pub open spec fn nearest(negative: bool, n: nat, d: nat) -> Binary64 {
    let k = excess(n / d);
    let pattern = k * (HIDDEN as nat) + half_even(n, d * pow2(k));
    signed(negative, if pattern >= INFINITY { INFINITY as nat } else { pattern })
}

pub open spec fn signed(negative: bool, pattern: nat) -> Binary64 {
    Binary64 { bits: if negative { (pattern + SIGN) as u64 } else { pattern as u64 } }
}

/// `excess` is fixed by the power of two that bounds its argument.
pub proof fn lemma_excess(q: nat, k: nat)
    requires
        q < HIDDEN * pow2(k + 1),
        k == 0 || q >= HIDDEN * pow2(k),
    ensures
        excess(q) == k,
    decreases k,
{
    lemma_pow2_unfold(k + 1);
    if k == 0 {
        vstd::arithmetic::power2::lemma2_to64();
    } else {
        lemma_pow2_unfold(k);
        lemma_pow2_pos((k - 1) as nat);
        let p = pow2((k - 1) as nat);
        assert(HIDDEN * pow2(k) == 2 * (HIDDEN * p)) by (nonlinear_arith)
            requires pow2(k) == 2 * p;
        assert(HIDDEN * pow2(k + 1) == 4 * (HIDDEN * p)) by (nonlinear_arith)
            requires pow2(k) == 2 * p, pow2(k + 1) == 2 * pow2(k);
        assert(HIDDEN * p >= HIDDEN) by (nonlinear_arith)
            requires p >= 1;
        lemma_excess(q / 2, (k - 1) as nat);
    }
}

/// Scaling a fraction by a common factor does not change its rounding.
pub proof fn lemma_half_even_scaled(n: nat, d: nat, m: nat)
    requires
        d > 0,
        m > 0,
    ensures
        half_even(n * m, d * m) == half_even(n, d),
{
    let q = n / d;
    let r = n % d;
    lemma_fundamental_div_mod(n as int, d as int);
    assert(n * m == q * (d * m) + r * m) by (nonlinear_arith)
        requires n == d * q + r;
    assert(0 <= r * m < d * m) by (nonlinear_arith)
        requires 0 <= r < d, m > 0;
    lemma_fundamental_div_mod_converse((n * m) as int, (d * m) as int, q as int, (r * m) as int);
    assert((2 * r > d) == (2 * (r * m) > d * m)) by (nonlinear_arith)
        requires m > 0;
    assert((2 * r == d) == (2 * (r * m) == d * m)) by (nonlinear_arith)
        requires m > 0;
}

/// Rounding `n / (unit * 2^s)` when `n` is known only to lie in the unit that
/// starts at `sig * unit`, exactly at its start or strictly inside it.
proof fn lemma_half_even_bracket(n: nat, unit: nat, sig: nat, s: nat, sticky: bool)
    requires
        unit > 0,
        s > 0,
        sig * unit <= n < (sig + 1) * unit,
        sticky == (n != sig * unit),
    ensures
        half_even(n, unit * pow2(s)) == ({
            let floor = sig / pow2(s);
            let rest = sig % pow2(s);
            let half = pow2((s - 1) as nat);
            if rest > half || (rest == half && (sticky || floor % 2 == 1)) {
                floor + 1
            } else {
                floor
            }
        }),
{
    lemma_pow2_pos(s);
    lemma_pow2_unfold(s);
    let p = pow2(s);
    let half = pow2((s - 1) as nat);
    let floor = sig / p;
    let rest = sig % p;
    let d = unit * p;
    lemma_fundamental_div_mod(sig as int, p as int);
    let r = n - sig * unit + rest * unit;
    assert(n == floor * d + r) by (nonlinear_arith)
        requires sig == p * floor + rest, d == unit * p, r == n - sig * unit + rest * unit;
    assert(rest * unit <= r < (rest + 1) * unit) by (nonlinear_arith)
        requires sig * unit <= n < (sig + 1) * unit, r == n - sig * unit + rest * unit;
    assert(0 <= r < d) by (nonlinear_arith)
        requires rest * unit <= r < (rest + 1) * unit, 0 <= rest < p, d == unit * p, unit > 0;
    lemma_fundamental_div_mod_converse(n as int, d as int, floor as int, r);
    assert(d == 2 * (half * unit)) by (nonlinear_arith)
        requires d == unit * p, p == 2 * half;
    if rest > half {
        assert(r > half * unit) by (nonlinear_arith)
            requires rest * unit <= r, rest >= half + 1, unit > 0;
    } else if rest == half {
        assert(sticky == (r != half * unit));
    } else {
        assert(r < half * unit) by (nonlinear_arith)
            requires r < (rest + 1) * unit, rest + 1 <= half, unit > 0;
    }
}

/// Rounding leaves a finite number as it is.
pub proof fn lemma_exact(x: Binary64)
    requires
        x.finite(),
    ensures
        nearest(x.negative(), x.magnitude(), 1) == x,
{
    let m = x.significand();
    let k = x.scale();
    let n = x.magnitude();
    lemma_pow2_pos(k);
    vstd::arithmetic::power2::lemma2_to64();
    lemma_fundamental_div_mod(x.pattern() as int, HIDDEN as int);
    lemma_pow2_unfold(k + 1);
    assert(n < HIDDEN * pow2(k + 1)) by (nonlinear_arith)
        requires n == m * pow2(k), m < 2 * HIDDEN, pow2(k + 1) == 2 * pow2(k), pow2(k) > 0;
    if k > 0 {
        assert(n >= HIDDEN * pow2(k)) by (nonlinear_arith)
            requires n == m * pow2(k), m >= HIDDEN;
    }
    lemma_excess(n, k);
    assert(n / 1 == n);
    assert(1 * pow2(k) == pow2(k));
    assert(n == m * pow2(k) + 0);
    lemma_fundamental_div_mod_converse(n as int, pow2(k) as int, m as int, 0);
    assert(half_even(n, pow2(k)) == m);
    assert(k * (HIDDEN as nat) + m == x.pattern());
}

pub proof fn lemma_nearest_zero(negative: bool, d: nat)
    requires
        d > 0,
    ensures
        nearest(negative, 0, d) == signed(negative, 0),
{
    vstd::arithmetic::power2::lemma2_to64();
    assert(d * pow2(0) == d) by (nonlinear_arith)
        requires pow2(0) == 1;
    vstd::arithmetic::div_mod::lemma_basic_div(0, d as int);
    vstd::arithmetic::div_mod::lemma_small_mod(0, d);
    assert(0 * (HIDDEN as nat) == 0);
}

/// A whole quotient is its own rounding.
proof fn lemma_half_even_exact(c: nat, d: nat)
    requires
        d > 0,
    ensures
        half_even(c * d, d) == c,
{
    lemma_fundamental_div_mod_converse((c * d) as int, d as int, c as int, 0);
}

/// `2^s` for `s` below the width of the type.
pub(crate) fn power(s: u32) -> (p: u128)
    requires
        s < 128,
    ensures
        p == pow2(s as nat),
        p > 0,
{
    let top: u128 = 0x8000_0000_0000_0000_0000_0000_0000_0000;
    let shift: u128 = (127 - s) as u128;
    proof {
        vstd::bits::lemma_u128_shr_is_div(top, shift);
        lemma_pow2_127();
        lemma_pow2_adds(s as nat, shift as nat);
        lemma_pow2_pos(shift as nat);
        lemma_pow2_pos(s as nat);
        vstd::arithmetic::div_mod::lemma_div_by_multiple(
            pow2(s as nat) as int,
            pow2(shift as nat) as int,
        );
    }
    top >> shift
}

proof fn lemma_pow2_127()
    ensures
        pow2(127) == 0x8000_0000_0000_0000_0000_0000_0000_0000,
        pow2(128) == 0x1_0000_0000_0000_0000_0000_0000_0000_0000,
        pow2(53) == 2 * HIDDEN,
        pow2(52) == HIDDEN,
        pow2(54) == 4 * HIDDEN,
{
    vstd::arithmetic::power2::lemma2_to64();
    vstd::arithmetic::power2::lemma2_to64_rest();
    lemma_pow2_adds(63, 64);
    lemma_pow2_unfold(128);
}

/// The number of significant bits.
pub(crate) fn bit_length(x: u128) -> (b: u32)
    requires
        x > 0,
    ensures
        1 <= b <= 128,
        pow2((b - 1) as nat) <= x < pow2(b as nat),
{
    let mut b: u32 = 1;
    proof {
        lemma_pow2_127();
        vstd::arithmetic::power2::lemma2_to64();
    }
    while b < 128 && x >= power(b)
        invariant
            1 <= b <= 128,
            pow2((b - 1) as nat) <= x,
            x < pow2(128),
        decreases 128 - b,
    {
        b += 1;
    }
    b
}

/// Rounds the value `n / d` that is bracketed by `sig` and `sig + 1` at the
/// weight `2^exp`; `sticky` tells whether it lies strictly between them.
pub(crate) fn round_bracket(
    negative: bool,
    sig: u128,
    exp: i32,
    sticky: bool,
    Ghost(n): Ghost<nat>,
    Ghost(d): Ghost<nat>,
    Ghost(up): Ghost<nat>,
    Ghost(down): Ghost<nat>,
) -> (r: Binary64)
    requires
        0 < sig < pow2(127),
        -8000 <= exp <= 8000,
        exp == up - down,
        d > 0,
        sig * (d * pow2(up)) <= n * pow2(down) < (sig + 1) * (d * pow2(up)),
        sticky == (n * pow2(down) != sig * (d * pow2(up))),
        sticky ==> sig >= pow2(54),
    ensures
        r == nearest(negative, n, d),
{
    let b: i32 = bit_length(sig) as i32;
    let s: i32 = if b - 53 > -exp {
        b - 53
    } else {
        -exp
    };
    let k: i32 = exp + s;
    let ghost unit = d * pow2(up);
    let ghost whole = n * pow2(down);
    proof {
        lemma_pow2_pos(up);
        lemma_pow2_pos(down);
        assert(unit > 0) by (nonlinear_arith)
            requires unit == d * pow2(up), d > 0, pow2(up) > 0;
        lemma_pow2_127();
        if b >= 128 {
            assert(pow2(127) <= pow2((b - 1) as nat));
        }
        if sticky && b < 55 {
            if b < 54 {
                lemma_pow2_strictly_increases(b as nat, 54);
            }
        }
        lemma_position(n, d, sig as nat, b as nat, up, down, s as int, k as nat);
        lemma_pow2_pos(k as nat);
        assert(d * pow2(k as nat) > 0) by (nonlinear_arith)
            requires d > 0, pow2(k as nat) > 0;
        lemma_half_even_scaled(n, d * pow2(k as nat), pow2(down));
    }
    let c: u64 = if s <= 0 {
        proof {
            let t = (-s) as nat;
            lemma_pow2_adds(b as nat, t);
            lemma_pow2_pos(t);
            assert(pow2((b - s) as nat) <= pow2(53)) by {
                if b - s < 53 {
                    lemma_pow2_strictly_increases((b - s) as nat, 53);
                }
            }
            assert(sig * pow2(t) < pow2(b as nat) * pow2(t)) by (nonlinear_arith)
                requires sig < pow2(b as nat), pow2(t) > 0;
            // the quotient is whole at this position
            let cut = (d * pow2(k as nat)) * pow2(down);
            lemma_pow2_adds(k as nat, down);
            lemma_pow2_adds((k + down) as nat, t);
            assert(whole == (sig * pow2(t)) * cut) by (nonlinear_arith)
                requires
                    whole == sig * (d * pow2(up)),
                    cut == (d * pow2(k as nat)) * pow2(down),
                    pow2((k + down) as nat) == pow2(k as nat) * pow2(down),
                    pow2(up) == pow2((k + down) as nat) * pow2(t),
            ;
            lemma_pow2_pos((k + down) as nat);
            assert(cut > 0) by (nonlinear_arith)
                requires
                    cut == (d * pow2(k as nat)) * pow2(down),
                    pow2((k + down) as nat) == pow2(k as nat) * pow2(down),
                    pow2((k + down) as nat) > 0,
                    d > 0,
            ;
            lemma_half_even_exact((sig * pow2(t)) as nat, cut);
        }
        (sig * power((-s) as u32)) as u64
    } else {
        proof {
            let cut = (d * pow2(k as nat)) * pow2(down);
            lemma_pow2_adds(k as nat, down);
            lemma_pow2_adds(up, s as nat);
            assert(cut == unit * pow2(s as nat)) by (nonlinear_arith)
                requires
                    cut == (d * pow2(k as nat)) * pow2(down),
                    unit == d * pow2(up),
                    pow2((k + down) as nat) == pow2(k as nat) * pow2(down),
                    pow2((up + s) as nat) == pow2(up) * pow2(s as nat),
                    k + down == up + s,
            ;
            lemma_half_even_bracket(whole, unit, sig as nat, s as nat, sticky);
            lemma_pow2_unfold(s as nat);
            lemma_pow2_pos(s as nat);
        }
        if s >= 128 {
            proof {
                if s > 128 {
                    lemma_pow2_strictly_increases(127, (s - 1) as nat);
                }
                lemma_pow2_strictly_increases(127, s as nat);
                vstd::arithmetic::div_mod::lemma_basic_div(sig as int, pow2(s as nat) as int);
                vstd::arithmetic::div_mod::lemma_small_mod(sig as nat, pow2(s as nat));
            }
            0
        } else {
            let p: u128 = power(s as u32);
            let half: u128 = power((s - 1) as u32);
            let floor: u128 = sig / p;
            let rest: u128 = sig % p;
            proof {
                // at most 53 bits are left above the cut
                lemma_pow2_adds(53, s as nat);
                assert(pow2(b as nat) <= pow2((53 + s) as nat)) by {
                    if b < 53 + s {
                        lemma_pow2_strictly_increases(b as nat, (53 + s) as nat);
                    }
                }
                lemma_fundamental_div_mod(sig as int, p as int);
                assert(floor < pow2(53)) by (nonlinear_arith)
                    requires
                        sig == p * floor + rest,
                        rest >= 0,
                        sig < pow2(53) * p,
                        p > 0,
                ;
            }
            if rest > half || (rest == half && (sticky || floor % 2 == 1)) {
                (floor + 1) as u64
            } else {
                floor as u64
            }
        }
    };
    assert(c == half_even(n, d * pow2(k as nat)));
    assert(k as nat * HIDDEN as nat + c >= INFINITY <==> k >= 2047 || k * HIDDEN + c >= INFINITY);
    let pattern: u64 = if k >= 2047 {
        INFINITY
    } else {
        let sum: u64 = (k as u64) * HIDDEN + c;
        if sum >= INFINITY {
            INFINITY
        } else {
            sum
        }
    };
    Binary64 { bits: if negative { pattern + SIGN } else { pattern } }
}

/// The cut that leaves 53 bits of a bracketed quotient, but no less than a unit.
proof fn lemma_position(
    n: nat,
    d: nat,
    sig: nat,
    b: nat,
    up: nat,
    down: nat,
    s: int,
    k: nat,
)
    requires
        d > 0,
        b >= 1,
        pow2((b - 1) as nat) <= sig < pow2(b),
        sig * (d * pow2(up)) <= n * pow2(down) < (sig + 1) * (d * pow2(up)),
        s == (if b - 53 > down - up { b - 53 } else { down - up }),
        k == up - down + s,
    ensures
        excess(n / d) == k,
{
    lemma_pow2_pos(up);
    lemma_pow2_pos(down);
    lemma_pow2_127();
    let q = n / d;
    lemma_fundamental_div_mod(n as int, d as int);
    // q < 2^(53 + k)
    assert(q < HIDDEN * pow2(k + 1)) by {
        lemma_pow2_adds(52, k + 1);
        lemma_pow2_adds(b, up);
        lemma_pow2_adds(53 + k, down);
        assert(pow2(b + up) <= pow2(53 + k + down)) by {
            if b + up < 53 + k + down {
                lemma_pow2_strictly_increases(b + up, 53 + k + down);
            }
        }
        let big = pow2(53 + k);
        assert(n * pow2(down) < d * big * pow2(down)) by (nonlinear_arith)
            requires
                n * pow2(down) < (sig + 1) * (d * pow2(up)),
                sig + 1 <= pow2(b),
                pow2(b + up) == pow2(b) * pow2(up),
                pow2(b + up) <= pow2(53 + k + down),
                pow2(53 + k + down) == big * pow2(down),
                d > 0,
                pow2(up) > 0,
        ;
        assert(n < d * big) by (nonlinear_arith)
            requires n * pow2(down) < d * big * pow2(down), pow2(down) > 0;
        assert(q < big) by (nonlinear_arith)
            requires n < d * big, n == d * q + n % d, n % d >= 0, d > 0;
    }
    if k > 0 {
        assert(s == b - 53);
        assert(q >= HIDDEN * pow2(k)) by {
            lemma_pow2_adds(52, k);
            lemma_pow2_adds((b - 1) as nat, up);
            lemma_pow2_adds(52 + k, down);
            let low = pow2(52 + k);
            assert((b - 1) as nat + up == 52 + k + down);
            assert(n * pow2(down) >= d * low * pow2(down)) by (nonlinear_arith)
                requires
                    n * pow2(down) >= sig * (d * pow2(up)),
                    sig >= pow2((b - 1) as nat),
                    pow2((b - 1) as nat + up) == pow2((b - 1) as nat) * pow2(up),
                    pow2((b - 1) as nat + up) == low * pow2(down),
                    d > 0,
                    pow2(up) > 0,
            ;
            assert(n >= d * low) by (nonlinear_arith)
                requires n * pow2(down) >= d * low * pow2(down), pow2(down) > 0;
            assert(q >= low) by (nonlinear_arith)
                requires n >= d * low, n == d * q + n % d, n % d < d, d > 0;
        }
    }
    lemma_excess(q, k);
}

} // verus!
