//! IEEE 754 binary64 numbers held by their bit patterns.
//!
//! Every finite binary64 value is an integer multiple of the smallest positive
//! one, so a value is modelled by that integer: its number of *units*. The
//! arithmetic below is specified over units and is correctly rounded (to
//! nearest, ties to even), hence agrees bit for bit with a conforming machine,
//! up to the payload of a NaN.
use vstd::prelude::*;
use vstd::arithmetic::power2::pow2;

pub mod arithmetic;
pub mod constants;
pub mod conversion;
pub mod laws;
pub mod rounding;
pub mod signs;
pub mod values;

verus! {

/// `2^52`, the weight of the implicit leading bit of a significand.
pub const HIDDEN: u64 = 0x0010_0000_0000_0000;

/// `2^63`, the sign bit.
pub const SIGN: u64 = 0x8000_0000_0000_0000;

/// The magnitude pattern of an infinity; larger magnitude patterns are NaNs.
pub const INFINITY: u64 = 0x7ff0_0000_0000_0000;

/// The quiet NaN that invalid operations return.
pub const QUIET_NAN: u64 = 0x7ff8_0000_0000_0000;

/// A binary64 value. `==` is identity of the bit patterns; numeric equality is
/// [`Binary64::equals`].
#[derive(Clone, Copy, Debug, PartialEq, Eq, Structural)]
pub struct Binary64 {
    pub bits: u64,
}

impl Binary64 {
    /// The number with a given pattern.
    pub open spec fn spec_of(bits: u64) -> Self {
        Binary64 { bits }
    }

    #[verifier::when_used_as_spec(spec_of)]
    pub fn of(bits: u64) -> (r: Self)
        ensures
            r == Self::spec_of(bits),
    {
        Binary64 { bits }
    }

    pub open spec fn negative(self) -> bool {
        self.bits >= SIGN
    }

    /// The pattern without its sign bit.
    pub open spec fn pattern(self) -> nat {
        (if self.bits >= SIGN { self.bits - SIGN } else { self.bits as int }) as nat
    }

    pub open spec fn nan(self) -> bool {
        self.pattern() > INFINITY
    }

    pub open spec fn infinite(self) -> bool {
        self.pattern() == INFINITY
    }

    pub open spec fn finite(self) -> bool {
        self.pattern() < INFINITY
    }

    pub open spec fn zero(self) -> bool {
        self.pattern() == 0
    }

    /// The biased exponent field.
    pub open spec fn exponent(self) -> nat {
        self.pattern() / (HIDDEN as nat)
    }

    /// The significand as an integer, with the implicit bit of a normal number.
    pub open spec fn significand(self) -> nat {
        if self.exponent() == 0 {
            self.pattern()
        } else {
            self.pattern() % (HIDDEN as nat) + HIDDEN as nat
        }
    }

    /// The power of two that weighs the significand, in units.
    pub open spec fn scale(self) -> nat {
        if self.exponent() == 0 {
            0
        } else {
            (self.exponent() - 1) as nat
        }
    }

    /// The absolute value of a finite number, in units of `2^-1074`.
    pub open spec fn magnitude(self) -> nat {
        self.significand() * pow2(self.scale())
    }

    /// The value of a finite number, in units of `2^-1074`.
    pub open spec fn units(self) -> int {
        if self.negative() {
            -self.magnitude()
        } else {
            self.magnitude() as int
        }
    }

    /// A number that orders all values but NaNs as the real line does, both
    /// zeros together and the infinities at the ends.
    pub open spec fn rank(self) -> int {
        if self.negative() {
            -self.pattern()
        } else {
            self.pattern() as int
        }
    }

    /// The quiet NaN.
    pub open spec fn invalid() -> Self {
        Binary64 { bits: QUIET_NAN }
    }

    pub open spec fn lt(self, other: Self) -> bool {
        !self.nan() && !other.nan() && self.rank() < other.rank()
    }

    pub open spec fn le(self, other: Self) -> bool {
        !self.nan() && !other.nan() && self.rank() <= other.rank()
    }

    pub open spec fn same(self, other: Self) -> bool {
        !self.nan() && !other.nan() && self.rank() == other.rank()
    }

    pub open spec fn spec_negated(self) -> Self {
        Binary64 {
            bits: if self.bits >= SIGN {
                (self.bits - SIGN) as u64
            } else {
                (self.bits + SIGN) as u64
            },
        }
    }

    pub open spec fn spec_abs(self) -> Self {
        Binary64 { bits: self.pattern() as u64 }
    }

    /// The smaller value; the other one where one is a NaN.
    pub open spec fn spec_min(self, other: Self) -> Self {
        if self.nan() || other.lt(self) {
            other
        } else {
            self
        }
    }

    /// The larger value; the other one where one is a NaN.
    pub open spec fn spec_max(self, other: Self) -> Self {
        if self.nan() || self.lt(other) {
            other
        } else {
            self
        }
    }

    /// The nearest value within the bounds; a NaN stays one.
    pub open spec fn spec_clamp(self, low: Self, high: Self) -> Self {
        if self.lt(low) {
            low
        } else if high.lt(self) {
            high
        } else {
            self
        }
    }

    /// The next larger value; NaNs and positive infinity stay.
    pub open spec fn spec_next_up(self) -> Self {
        if self.nan() || self.bits == INFINITY {
            self
        } else if self.zero() {
            Binary64 { bits: 1 }
        } else if self.negative() {
            Binary64 { bits: (self.bits - 1) as u64 }
        } else {
            Binary64 { bits: (self.bits + 1) as u64 }
        }
    }

    /// The position of a pattern in the total order of all patterns, negative
    /// NaNs first.
    pub open spec fn total_rank(self) -> int {
        if self.negative() {
            -self.pattern() - 1
        } else {
            self.pattern() as int
        }
    }

    pub fn is_negative(self) -> (r: bool)
        ensures
            r == self.negative(),
    {
        self.bits >= SIGN
    }

    fn unsigned(self) -> (r: u64)
        ensures
            r == self.pattern(),
    {
        if self.bits >= SIGN {
            self.bits - SIGN
        } else {
            self.bits
        }
    }

    pub fn is_nan(self) -> (r: bool)
        ensures
            r == self.nan(),
    {
        self.unsigned() > INFINITY
    }

    pub fn is_infinite(self) -> (r: bool)
        ensures
            r == self.infinite(),
    {
        self.unsigned() == INFINITY
    }

    pub fn is_finite(self) -> (r: bool)
        ensures
            r == self.finite(),
    {
        self.unsigned() < INFINITY
    }

    /// `<`: false where either side is a NaN.
    #[verifier::when_used_as_spec(lt)]
    pub fn less(self, other: Self) -> (r: bool)
        ensures
            r == self.lt(other),
    {
        let a: u64 = self.unsigned();
        let b: u64 = other.unsigned();
        if a > INFINITY || b > INFINITY {
            false
        } else if self.bits >= SIGN {
            if other.bits >= SIGN {
                a > b
            } else {
                a > 0 || b > 0
            }
        } else {
            other.bits < SIGN && a < b
        }
    }

    /// `<=`: false where either side is a NaN.
    #[verifier::when_used_as_spec(le)]
    pub fn at_most(self, other: Self) -> (r: bool)
        ensures
            r == self.le(other),
    {
        !self.is_nan() && !other.is_nan() && !other.less(self)
    }

    /// `==` on values: both zeros are equal, a NaN equals nothing.
    #[verifier::when_used_as_spec(same)]
    pub fn equals(self, other: Self) -> (r: bool)
        ensures
            r == self.same(other),
    {
        self.at_most(other) && other.at_most(self)
    }

    #[verifier::when_used_as_spec(spec_negated)]
    pub fn negated(self) -> (r: Self)
        ensures
            r == self.spec_negated(),
    {
        if self.bits >= SIGN {
            Binary64 { bits: self.bits - SIGN }
        } else {
            Binary64 { bits: self.bits + SIGN }
        }
    }

    #[verifier::when_used_as_spec(spec_abs)]
    pub fn abs(self) -> (r: Self)
        ensures
            r == self.spec_abs(),
    {
        Binary64 { bits: self.unsigned() }
    }

    #[verifier::when_used_as_spec(spec_min)]
    pub fn min(self, other: Self) -> (r: Self)
        ensures
            r == self.spec_min(other),
    {
        if self.is_nan() || other.less(self) {
            other
        } else {
            self
        }
    }

    #[verifier::when_used_as_spec(spec_max)]
    pub fn max(self, other: Self) -> (r: Self)
        ensures
            r == self.spec_max(other),
    {
        if self.is_nan() || self.less(other) {
            other
        } else {
            self
        }
    }

    #[verifier::when_used_as_spec(spec_clamp)]
    pub fn clamp(self, low: Self, high: Self) -> (r: Self)
        ensures
            r == self.spec_clamp(low, high),
    {
        if self.less(low) {
            low
        } else if high.less(self) {
            high
        } else {
            self
        }
    }

    #[verifier::when_used_as_spec(spec_next_up)]
    pub fn next_up(self) -> (r: Self)
        ensures
            r == self.spec_next_up(),
    {
        let magnitude: u64 = self.unsigned();
        if magnitude > INFINITY || self.bits == INFINITY {
            self
        } else if magnitude == 0 {
            Binary64 { bits: 1 }
        } else if self.bits >= SIGN {
            Binary64 { bits: self.bits - 1 }
        } else {
            Binary64 { bits: self.bits + 1 }
        }
    }

    /// Whether this pattern comes before the other one in the total order.
    pub fn precedes(self, other: Self) -> (r: bool)
        ensures
            r == (self.total_rank() < other.total_rank()),
    {
        if self.bits >= SIGN {
            other.bits < SIGN || self.bits > other.bits
        } else {
            other.bits < SIGN && self.bits < other.bits
        }
    }

    /// The significand and its power of two, in units.
    pub(crate) fn parts(self) -> (r: (u64, u32))
        requires
            self.finite(),
        ensures
            r.0 == self.significand(),
            r.1 == self.scale(),
            r.0 < 2 * HIDDEN,
            r.1 <= 2045,
            r.1 > 0 ==> r.0 >= HIDDEN,
            self.magnitude() == r.0 * pow2(r.1 as nat),
    {
        let magnitude: u64 = self.unsigned();
        let exponent: u64 = magnitude / HIDDEN;
        if exponent == 0 {
            (magnitude, 0)
        } else {
            (magnitude % HIDDEN + HIDDEN, (exponent - 1) as u32)
        }
    }
}

} // verus!
