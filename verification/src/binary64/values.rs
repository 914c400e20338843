//! Patterns of the numbers that the rules of this library name.
use vstd::prelude::*;

verus! {

/// 0
pub const ZERO: u64 = 0x0000_0000_0000_0000;

/// 1
pub const ONE: u64 = 0x3ff0_0000_0000_0000;

/// 2
pub const TWO: u64 = 0x4000_0000_0000_0000;

/// 4
pub const FOUR: u64 = 0x4010_0000_0000_0000;

/// 3
pub const THREE: u64 = 0x4008_0000_0000_0000;

/// 5
pub const FIVE: u64 = 0x4014_0000_0000_0000;

/// 10
pub const TEN: u64 = 0x4024_0000_0000_0000;

/// 1/2
pub const HALF: u64 = 0x3fe0_0000_0000_0000;

/// 1/4
pub const QUARTER: u64 = 0x3fd0_0000_0000_0000;

/// 7/10, rounded
pub const SEVEN_TENTHS: u64 = 0x3fe6_6666_6666_6666;

/// 1000000
pub const MILLION: u64 = 0x412e_8480_0000_0000;

/// 1/10^12, rounded
pub const TRILLIONTH: u64 = 0x3d71_9799_812d_ea11;

/// 15
pub const FIFTEEN: u64 = 0x402e_0000_0000_0000;

/// 24
pub const TWENTY_FOUR: u64 = 0x4038_0000_0000_0000;

/// 50
pub const FIFTY: u64 = 0x4049_0000_0000_0000;

/// 128 times the spacing of numbers at one
pub const ROUNDOFF: u64 = 0x3d20_0000_0000_0000;

/// 16
pub const SIXTEEN: u64 = 0x4030_0000_0000_0000;

/// 100
pub const HUNDRED: u64 = 0x4059_0000_0000_0000;

/// 9.8, rounded
pub const GRAVITY: u64 = 0x4023_9999_9999_999a;

/// 32768
pub const FULL_SCALE: u64 = 0x40e0_0000_0000_0000;

/// pi / 180, rounded
pub const DEGREE: u64 = 0x3f91_df46_a252_9d39;

/// positive infinity
pub const INFINITE: u64 = 0x7ff0_0000_0000_0000;

/// 180
pub const HALF_TURN_DEG: u64 = 0x4066_8000_0000_0000;

/// 500
pub const PWM_LOW: u64 = 0x407f_4000_0000_0000;

/// 1200
pub const GAIN_1200: u64 = 0x4092_c000_0000_0000;

/// 1300
pub const GAIN_1300: u64 = 0x4094_5000_0000_0000;

/// 1500
pub const PWM_CENTRE: u64 = 0x4097_7000_0000_0000;

/// 2000
pub const TWO_THOUSAND: u64 = 0x409f_4000_0000_0000;

/// 2500
pub const PWM_HIGH: u64 = 0x40a3_8800_0000_0000;

/// 1000
pub const THOUSAND: u64 = 0x408f_4000_0000_0000;

/// 1/10000, rounded
pub const TEN_THOUSANDTH: u64 = 0x3f1a_36e2_eb1c_432d;

/// 1/10^9, rounded
pub const BILLIONTH: u64 = 0x3e11_2e0b_e826_d695;

/// 1/40, rounded
pub const FORTIETH: u64 = 0x3f99_9999_9999_999a;

/// 7/20, rounded
pub const SEVEN_TWENTIETHS: u64 = 0x3fd6_6666_6666_6666;

/// 8
pub const EIGHT: u64 = 0x4020_0000_0000_0000;

/// 1/1000, rounded
pub const THOUSANDTH: u64 = 0x3f50_624d_d2f1_a9fc;

/// 1/1000000, rounded
pub const MILLIONTH: u64 = 0x3eb0_c6f7_a0b5_ed8d;

/// negative infinity
pub const NEGATIVE_INFINITE: u64 = 0xfff0_0000_0000_0000;

/// pi / 4, rounded
pub const QUARTER_PI: u64 = 0x3fe9_21fb_5444_2d18;

/// 6
pub const SIX: u64 = 0x4018_0000_0000_0000;

/// 12
pub const TWELVE: u64 = 0x4028_0000_0000_0000;

/// 3/4
pub const THREE_QUARTERS: u64 = 0x3fe8_0000_0000_0000;

/// 1/25, rounded
pub const TWENTY_FIFTH: u64 = 0x3fa4_7ae1_47ae_147b;

/// 4/5, rounded
pub const FOUR_FIFTHS: u64 = 0x3fe9_9999_9999_999a;

/// 17/20, rounded
pub const SEVENTEEN_TWENTIETHS: u64 = 0x3feb_3333_3333_3333;

/// 3/5, rounded
pub const THREE_FIFTHS: u64 = 0x3fe3_3333_3333_3333;

/// pi, rounded
pub const PI: u64 = 0x4009_21fb_5444_2d18;

/// 2 pi, rounded
pub const TAU: u64 = 0x4019_21fb_5444_2d18;

/// pi / 2, rounded
pub const HALF_PI: u64 = 0x3ff9_21fb_5444_2d18;

} // verus!
