//! Angles within half a turn.
use super::wrap;
use crate::binary64::constants;
use crate::binary64::laws;
use crate::binary64::rounding;
use crate::binary64::signs;
use crate::binary64::values::{PI, TAU, ZERO};
use crate::binary64::{Binary64, HIDDEN};
use vstd::arithmetic::div_mod::lemma_fundamental_div_mod_converse;
use vstd::arithmetic::power2::{lemma_pow2_unfold, pow2};
use vstd::prelude::*;

verus! {

/// A finite angle is wrapped to within half a turn either way.
pub proof fn law_wrapped_angles_stay_within_half_a_turn(angle: Binary64)
    requires
        angle.finite(),
    ensures
        wrap(angle).finite(),
        Binary64::of(PI).negated().le(wrap(angle)),
        wrap(angle).le(Binary64::of(PI)),
{
    let turn = Binary64::of(TAU);
    let half = Binary64::of(PI);
    let zero = Binary64::of(ZERO);
    let once = angle.rem_euclid(turn);
    lemma_whole_turns(angle);
    laws::law_sums_are_monotone(once, turn, half);
    laws::law_sums_are_monotone(zero, once, half);
    lemma_half_of_a_turn();
    let shifted = once.plus(half);
    signs::law_zero_adds_nothing(half, zero);
    lemma_whole_turns(shifted);
    let twice = shifted.rem_euclid(turn);
    laws::law_sums_are_monotone(zero, twice, half);
    laws::law_sums_are_monotone(twice, turn, half);
    signs::law_zero_adds_nothing(half, zero);
}

/// A whole turn less a half is a half, and with a half it is still a number.
pub proof fn lemma_half_of_a_turn()
    ensures
        Binary64::of(TAU).minus(Binary64::of(PI)).le(Binary64::of(PI)),
        Binary64::of(TAU).plus(Binary64::of(PI)).finite(),
{
    let turn = Binary64::of(TAU);
    let half = Binary64::of(PI);
    let eight = Binary64::of(0x4020_0000_0000_0000);
    vstd::arithmetic::power2::lemma2_to64();
    vstd::arithmetic::power2::lemma2_to64_rest();
    lemma_fundamental_div_mod_converse(
        TAU as int,
        HIDDEN as int,
        1025,
        (TAU - 1025 * HIDDEN) as int,
    );
    lemma_fundamental_div_mod_converse(
        PI as int,
        HIDDEN as int,
        1024,
        (PI - 1024 * HIDDEN) as int,
    );
    lemma_pow2_unfold(1024);
    assert(turn.scale() == 1024 && half.scale() == 1023);
    assert(turn.significand() == half.significand());
    let s = half.significand();
    let p = pow2(1023);
    assert(s * (2 * p) == 2 * (s * p)) by (nonlinear_arith);
    assert(turn.magnitude() == 2 * half.magnitude());
    reveal(Binary64::spec_plus);
    rounding::lemma_exact(half);
    assert(half.negated().magnitude() == half.magnitude());
    laws::lemma_zero_magnitude(half);
    assert(turn.minus(half) == half);
    laws::law_order_is_that_of_the_values(half, turn);
    let n = (3 * half.magnitude()) as nat;
    constants::lemma_whole(0x4030_0000_0000_0000, 1027, 16, 48);
    let sixteen = Binary64::of(0x4030_0000_0000_0000);
    laws::lemma_magnitude_increases(turn, eight);
    constants::lemma_whole(0x4020_0000_0000_0000, 1026, 8, 49);
    laws::law_rounding_is_monotone(false, n, sixteen.magnitude(), 1);
    rounding::lemma_exact(sixteen);
}

/// The remainder over a whole turn lies between none and a whole one.
pub proof fn lemma_whole_turns(angle: Binary64)
    requires
        angle.finite(),
    ensures
        angle.rem_euclid(Binary64::of(TAU)).finite(),
        Binary64::of(ZERO).le(angle.rem_euclid(Binary64::of(TAU))),
        angle.rem_euclid(Binary64::of(TAU)).le(Binary64::of(TAU)),
{
    reveal(Binary64::spec_remainder);
    let turn = Binary64::of(TAU);
    let zero = Binary64::of(ZERO);
    laws::lemma_zero_magnitude(turn);
    let r = angle.magnitude() % turn.magnitude();
    laws::law_rounding_is_monotone(angle.negative(), r, turn.magnitude(), 1);
    rounding::lemma_exact(turn);
    rounding::lemma_exact(turn.negated());
    assert(turn.negated().magnitude() == turn.magnitude());
    let rest = angle.remainder(turn);
    assert(turn.abs() == turn);
    if rest.lt(zero) {
        laws::law_sums_are_monotone(rest, zero, turn);
        laws::law_sums_are_monotone(turn.negated(), rest, turn);
        signs::law_zero_adds_nothing(turn, zero);
        assert(turn.negated().plus(turn).zero()) by {
            reveal(Binary64::spec_plus);
        }
    }
}

} // verus!
