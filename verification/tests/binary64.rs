use robot_core::binary64::Binary64;

fn b(x: f64) -> Binary64 {
    Binary64 { bits: x.to_bits() }
}

fn f(x: Binary64) -> f64 {
    f64::from_bits(x.bits)
}

/// Equal as patterns, all NaNs counting as one.
fn same(x: Binary64, expected: f64) -> bool {
    if expected.is_nan() {
        f(x).is_nan()
    } else {
        x.bits == expected.to_bits()
    }
}

struct Random(u64);

impl Random {
    fn next(&mut self) -> u64 {
        self.0 ^= self.0 << 13;
        self.0 ^= self.0 >> 7;
        self.0 ^= self.0 << 17;
        self.0
    }

    /// Numbers of like size, numbers of any size, and special ones.
    fn number(&mut self) -> f64 {
        let specials: [f64; 14] = [
            0.0,
            -0.0,
            1.0,
            -1.0,
            f64::MIN_POSITIVE,
            f64::MAX,
            f64::MIN,
            f64::INFINITY,
            f64::NEG_INFINITY,
            f64::NAN,
            5e-324,
            -5e-324,
            f64::EPSILON,
            4503599627370496.0,
        ];
        match self.next() % 4 {
            0 => specials[(self.next() % 14) as usize],
            1 => f64::from_bits(self.next()),
            2 => (self.next() % 2_000_001) as f64 / 1000.0 - 1000.0,
            _ => f64::from_bits((self.next() & 0x800f_ffff_ffff_ffff) | 0x3fe0_0000_0000_0000),
        }
    }
}

#[test]
fn arithmetic_agrees_with_the_machine() {
    let mut random = Random(0x9e37_79b9_7f4a_7c15);
    for _ in 0..20_000 {
        let x = random.number();
        let y = random.number();
        assert!(same(b(x).plus(b(y)), x + y), "{x:e} + {y:e}");
        assert!(same(b(x).minus(b(y)), x - y), "{x:e} - {y:e}");
        assert!(same(b(x).times(b(y)), x * y), "{x:e} * {y:e}");
        assert!(same(b(x).over(b(y)), x / y), "{x:e} / {y:e}");
        assert_eq!(b(x).less(b(y)), x < y);
        assert_eq!(b(x).at_most(b(y)), x <= y);
        assert_eq!(b(x).equals(b(y)), x == y);
        assert_eq!(b(x).precedes(b(y)), x.total_cmp(&y).is_lt());
        assert!(same(b(x).negated(), -x));
        assert!(same(b(x).abs(), x.abs()));
        assert!(same(b(x).ceil(), x.ceil()), "ceil {x:e}");
        assert!(same(b(x).round(), x.round()), "round {x:e}");
        assert!(same(b(x).signum(), x.signum()));
        assert!(same(b(x).next_up(), x.next_up()));
        assert_eq!(b(x).to_size(), x as usize);
    }
}

#[test]
fn remainders_agree_with_the_machine() {
    let mut random = Random(0x0123_4567_89ab_cdef);
    let tau = std::f64::consts::TAU;
    for _ in 0..2_000 {
        let x = random.number();
        let y = random.number();
        if x.is_finite() && y.is_finite() && y != 0.0 && (x / y).abs() > 1e30 {
            continue;
        }
        assert!(same(b(x).remainder(b(y)), x % y), "{x:e} % {y:e}");
        let angle = (random.next() % 2_000_001) as f64 / 10_000.0 - 100.0;
        assert!(same(b(angle).rem_euclid(b(tau)), angle.rem_euclid(tau)));
    }
}

#[test]
fn conversions_agree_with_the_machine() {
    let mut random = Random(42);
    for shift in 0..64 {
        for _ in 0..50 {
            let n = random.next() >> shift;
            assert!(same(Binary64::from_natural(n), n as f64));
            let i = n as i64;
            assert!(same(Binary64::from_integer(i), i as f64));
        }
    }
    assert!(same(Binary64::from_integer(i64::MIN), i64::MIN as f64));
    assert_eq!(b(1e300).truncate(1000), 1000);
    assert_eq!(b(999.99).truncate(1000), 999);
    assert_eq!(b(-3.5).truncate(1000), 0);
    assert_eq!(b(f64::NAN).truncate(1000), 0);
}

#[test]
fn smaller_and_larger_ignore_one_nan() {
    let nan = f64::NAN;
    assert_eq!(f(b(nan).min(b(2.0))), 2.0);
    assert_eq!(f(b(2.0).max(b(nan))), 2.0);
    assert_eq!(f(b(-1.0).min(b(2.0))), -1.0);
    assert_eq!(f(b(-1.0).max(b(2.0))), 2.0);
    assert!(f(b(nan).max(b(nan))).is_nan());
    assert_eq!(f(b(7.0).clamp(b(0.0), b(3.0))), 3.0);
    assert_eq!(f(b(-7.0).clamp(b(0.0), b(3.0))), 0.0);
    assert!(f(b(nan).clamp(b(0.0), b(3.0))).is_nan());
}

#[test]
fn rounding_is_monotone_on_sums() {
    let mut random = Random(7);
    for _ in 0..5_000 {
        let x = random.number();
        let y = random.number();
        let z = random.number();
        if x <= y && !(x + z).is_nan() && !(y + z).is_nan() {
            assert!(b(x).plus(b(z)).at_most(b(y).plus(b(z))));
        }
    }
}
