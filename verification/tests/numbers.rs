use dalvik_vm::arith::{
    double_add, double_divide, double_modulo, double_multiply, double_subtract, single_add,
    single_divide, single_halve_and_add_half, single_modulo, single_multiply, single_subtract,
};
use dalvik_vm::float::{
    count_to_single, double_max, double_min, double_order, double_round, double_to_int,
    double_to_long, double_to_single, int_to_double, int_to_single, single_absolute,
    single_is_positive, single_max, single_min, single_negate, single_order, single_round,
    single_to_double, single_to_int, single_to_long,
};
use dalvik_vm::ops::{divide, divide_int, modulo, modulo_int, shift_long};

fn singles() -> Vec<f32> {
    let mut all = vec![
        0.0,
        -0.0,
        1.0,
        -1.0,
        0.1,
        0.5,
        1.5,
        2.5,
        -2.5,
        3.0,
        1e-45,
        -1e-45,
        1.1754944e-38,
        1.1754942e-38,
        3.4028235e38,
        -3.4028235e38,
        16_777_216.0,
        16_777_217.0,
        2_147_483_648.0,
        -2_147_483_648.0,
        9.223372e18,
        f32::INFINITY,
        f32::NEG_INFINITY,
    ];
    let mut bits: u32 = 0x1234_5678;
    for _ in 0..60 {
        bits = bits.wrapping_mul(1_664_525).wrapping_add(1_013_904_223);
        let f = f32::from_bits(bits);
        if !f.is_nan() {
            all.push(f);
        }
    }
    all
}

fn doubles() -> Vec<f64> {
    let mut all = vec![
        0.0,
        -0.0,
        1.0,
        -1.0,
        0.1,
        0.2,
        0.5,
        1.5,
        2.5,
        -2.5,
        5e-324,
        2.2250738585072014e-308,
        1.7976931348623157e308,
        9_007_199_254_740_993.0,
        2_147_483_647.5,
        9.223372036854776e18,
        3.4028235677973366e38,
        1.401298464324817e-45,
        7.006492321624085e-46,
        f64::INFINITY,
        f64::NEG_INFINITY,
    ];
    let mut bits: u64 = 0x0123_4567_89ab_cdef;
    for _ in 0..60 {
        bits = bits.wrapping_mul(6_364_136_223_846_793_005).wrapping_add(1_442_695_040_888_963_407);
        let f = f64::from_bits(bits);
        if !f.is_nan() {
            all.push(f);
        }
    }
    all
}

fn same_single(ours: u32, theirs: f32) -> bool {
    ours == theirs.to_bits() || (theirs.is_nan() && f32::from_bits(ours).is_nan())
}

fn same_double(ours: u64, theirs: f64) -> bool {
    ours == theirs.to_bits() || (theirs.is_nan() && f64::from_bits(ours).is_nan())
}

#[test]
fn single_arithmetic_is_that_of_the_format() {
    for a in singles() {
        for b in singles() {
            let (x, y) = (a.to_bits(), b.to_bits());
            assert!(same_single(single_add(x, y), a + b), "{} + {}", a, b);
            assert!(same_single(single_subtract(x, y), a - b), "{} - {}", a, b);
            assert!(same_single(single_multiply(x, y), a * b), "{} * {}", a, b);
            assert!(same_single(single_divide(x, y), a / b), "{} / {}", a, b);
            assert!(same_single(single_modulo(x, y), a % b), "{} % {}", a, b);
        }
        assert!(same_single(single_halve_and_add_half(a.to_bits()), a.mul_add(0.5, 0.5)), "{}", a);
    }
}

#[test]
fn double_arithmetic_is_that_of_the_format() {
    for a in doubles() {
        for b in doubles() {
            let (x, y) = (a.to_bits(), b.to_bits());
            assert!(same_double(double_add(x, y), a + b), "{} + {}", a, b);
            assert!(same_double(double_subtract(x, y), a - b), "{} - {}", a, b);
            assert!(same_double(double_multiply(x, y), a * b), "{} * {}", a, b);
            assert!(same_double(double_divide(x, y), a / b), "{} / {}", a, b);
            assert!(same_double(double_modulo(x, y), a % b), "{} % {}", a, b);
        }
    }
}

#[test]
fn a_nan_stays_one() {
    let nan = f32::NAN.to_bits();
    assert!(f32::from_bits(single_add(nan, 0)).is_nan());
    assert!(f32::from_bits(single_divide(0, 0)).is_nan());
    assert!(f64::from_bits(double_subtract(f64::INFINITY.to_bits(), f64::INFINITY.to_bits())).is_nan());
}

#[test]
fn singles_become_integers_and_doubles() {
    for a in singles() {
        let x = a.to_bits();
        assert_eq!(single_to_int(x), a as i32, "{}", a);
        assert_eq!(single_to_long(x), a as i64, "{}", a);
        assert_eq!(single_round(x), a.round() as i32, "{}", a);
        assert_eq!(single_to_double(x), (a as f64).to_bits(), "{}", a);
        assert_eq!(single_negate(x), (-a).to_bits());
        assert_eq!(single_absolute(x), a.abs().to_bits());
        assert_eq!(single_is_positive(x), a.is_finite() && a > 0.0);
    }
    assert_eq!(single_to_int(f32::NAN.to_bits()), 0);
}

#[test]
fn doubles_become_integers_and_singles() {
    for a in doubles() {
        let x = a.to_bits();
        assert_eq!(double_to_int(x), a as i32, "{}", a);
        assert_eq!(double_to_long(x), a as i64, "{}", a);
        assert_eq!(double_round(x), a.round() as i32, "{}", a);
        assert_eq!(double_to_single(x), (a as f32).to_bits(), "{}", a);
    }
}

#[test]
fn integers_become_the_nearest_number() {
    for n in [0i64, 1, -1, 7, 16_777_217, -16_777_219, i64::MAX, i64::MIN, 9_007_199_254_740_993, 1 << 40] {
        assert_eq!(int_to_single(n), (n as f32).to_bits(), "{}", n);
        assert_eq!(int_to_double(n), (n as f64).to_bits(), "{}", n);
    }
    assert_eq!(count_to_single(u64::MAX), (u64::MAX as f32).to_bits());
}

#[test]
fn numbers_are_ordered() {
    for a in singles() {
        for b in singles() {
            let order = if a < b { -1 } else if a == b { 0 } else { 1 };
            assert_eq!(single_order(a.to_bits(), b.to_bits()), order);
            if a != b {
                assert_eq!(single_max(a.to_bits(), b.to_bits()), a.max(b).to_bits());
                assert_eq!(single_min(a.to_bits(), b.to_bits()), a.min(b).to_bits());
            }
        }
    }
    for a in doubles() {
        for b in doubles() {
            let order = if a < b { -1 } else if a == b { 0 } else { 1 };
            assert_eq!(double_order(a.to_bits(), b.to_bits()), order);
            if a != b {
                assert_eq!(double_max(a.to_bits(), b.to_bits()), a.max(b).to_bits());
                assert_eq!(double_min(a.to_bits(), b.to_bits()), a.min(b).to_bits());
            }
        }
    }
}

#[test]
fn integer_division_truncates() {
    for (x, y) in [(7, 2), (-7, 2), (7, -2), (-7, -2), (i32::MIN, -1), (i32::MIN, 3), (0, 5)] {
        assert_eq!(divide_int(x, y), x.wrapping_div(y));
        assert_eq!(modulo_int(x, y), x.wrapping_rem(y));
        let (q, r) = (divide(x as i64, y as i64), modulo(x as i64, y as i64));
        assert_eq!(q * y as i64 + r, x as i64);
    }
    assert_eq!(divide(i64::MIN, -1), i64::MIN);
    assert_eq!(modulo(i64::MIN, -1), 0);
}

#[test]
fn longs_are_shifted_by_six_bits() {
    assert_eq!(shift_long(8, 1, 65), 2);
    assert_eq!(shift_long(9, -8, 1), -4);
    assert_eq!(shift_long(10, -1, 63), 1);
}

#[test]
fn a_single_survives_a_double() {
    for a in singles() {
        let x = a.to_bits();
        assert_eq!(double_to_single(single_to_double(x)), x);
    }
    let quiet = f32::NAN.to_bits();
    assert_eq!(double_to_single(single_to_double(quiet)), quiet);
}
