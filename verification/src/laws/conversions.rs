//! Numbers that are turned into numbers of another kind.

use vstd::arithmetic::div_mod::*;
use vstd::arithmetic::mul::*;
use vstd::arithmetic::power2::*;
use vstd::prelude::*;

use crate::arith;
use crate::convert;
use crate::float;
use crate::laws::numbers;
use crate::laws::rounding;
use crate::laws::rounding::{closest_double, closest_single, finite_double, finite_single};
use crate::value::ValueView;

verus! {

proof fn lemma_integer_pattern(n: nat, j: nat, p: nat)
    requires
        p == 23 && j == 149 || p == 52 && j == 1074,
        0 < n < pow2(64),
    ensures
        float::pattern(n, j as int, p) < arith::infinity(p),
{
    lemma2_to64();
    lemma2_to64_rest();
    float::lemma_pattern_bound(n, j as int, p);
    let g = float::grain(n, j as int, p);
    if p == 23 {
        assert(g * 0x80_0000 <= 189 * 0x80_0000) by (nonlinear_arith)
            requires
                g <= 189,
        ;
    } else {
        assert(g * 0x10_0000_0000_0000 <= 1085 * 0x10_0000_0000_0000) by (nonlinear_arith)
            requires
                g <= 1085,
        ;
    }
}

proof fn lemma_integer(n: int, j: nat, p: nat)
    requires
        p == 23 && j == 149 || p == 52 && j == 1074,
        n != 0,
        -0x8000_0000_0000_0000 <= n < 0x1_0000_0000_0000_0000,
    ensures
        rounding::closest(
            n < 0,
            float::pattern(float::absolute(n), j as int, p),
            n * pow2(j),
            1,
            p,
        ),
        float::pattern(float::absolute(n), j as int, p) < arith::infinity(p),
{
    lemma2_to64_rest();
    let a = float::absolute(n);
    lemma_integer_pattern(a, j, p);
    rounding::lemma_pattern_is_ratio(a, j, p);
    lemma_pow2_pos(j);
    let u = pow2(j) as int;
    let s = n * u;
    assert((-n) * u == -(n * u)) by (nonlinear_arith);
    assert(n > 0 ==> s > 0) by (nonlinear_arith)
        requires
            s == n * u,
            u > 0,
    ;
    assert(n < 0 ==> s < 0) by (nonlinear_arith)
        requires
            s == n * u,
            u > 0,
    ;
    assert(float::absolute(s) == a * pow2(j));
    rounding::lemma_closest(s, 1, p);
}

/// An integer becomes the nearest floating-point number.
pub proof fn an_integer_becomes_the_nearest_number(n: int)
    requires
        -0x8000_0000_0000_0000 <= n < 0x1_0000_0000_0000_0000,
    ensures
        closest_single(float::int_as_single(n), n * pow2(149), 1),
        closest_double(float::int_as_double(n), n * pow2(1074), 1),
        finite_single(float::int_as_single(n)),
        finite_double(float::int_as_double(n)),
        n == 0 ==> float::int_as_single(n) == 0 && float::int_as_double(n) == 0,
{
    if n == 0 {
        assert(0 * pow2(149) == 0) by (nonlinear_arith);
        assert(0 * pow2(1074) == 0) by (nonlinear_arith);
        rounding::lemma_closest_zero(false, 1, 23);
        rounding::lemma_closest_zero(false, 1, 52);
        rounding::lemma_closest_single(false, 0, 0, 1);
        rounding::lemma_closest_double(false, 0, 0, 1);
    } else {
        lemma_integer(n, 149, 23);
        lemma_integer(n, 1074, 52);
        rounding::lemma_closest_single(
            n < 0,
            float::pattern(float::absolute(n), 149, 23),
            n * pow2(149),
            1,
        );
        rounding::lemma_closest_double(
            n < 0,
            float::pattern(float::absolute(n), 1074, 52),
            n * pow2(1074),
            1,
        );
    }
}

/// An integer of few digits is worth as much as a single.
pub proof fn a_short_integer_is_exact_as_a_single(n: int)
    requires
        -0x100_0000 < n < 0x100_0000,
    ensures
        float::single_worth(float::int_as_single(n)) == n * pow2(149),
        finite_single(float::int_as_single(n)),
{
    lemma2_to64();
    lemma2_to64_rest();
    if n == 0 {
        rounding::lemma_units_zero(23);
        assert(0 * pow2(149) == 0) by (nonlinear_arith);
    } else {
        let m = float::absolute(n);
        lemma_integer_pattern(m, 149, 23);
        numbers::a_short_number_is_exact(m, 149, 23);
        assert((-(m as int)) * pow2(149) == -(m * pow2(149))) by (nonlinear_arith);
    }
}

/// An integer of up to 53 bits is the same number as a double.
pub proof fn a_short_integer_is_exact_as_a_double(n: int)
    requires
        -0x20_0000_0000_0000 < n < 0x20_0000_0000_0000,
    ensures
        float::double_worth(float::int_as_double(n)) == n * pow2(1074),
        finite_double(float::int_as_double(n)),
{
    lemma2_to64();
    lemma2_to64_rest();
    if n == 0 {
        rounding::lemma_units_zero(52);
        assert(0 * pow2(1074) == 0) by (nonlinear_arith);
    } else {
        let m = float::absolute(n);
        lemma_integer_pattern(m, 1074, 52);
        numbers::a_short_number_is_exact(m, 1074, 52);
        assert((-(m as int)) * pow2(1074) == -(m * pow2(1074))) by (nonlinear_arith);
    }
}

/// A double becomes the nearest single, and NaN stays NaN.
pub proof fn a_double_becomes_the_nearest_single(b: u64)
    ensures
        finite_double(b) ==> closest_single(
            float::double_as_single(b),
            float::double_worth(b),
            pow2(925) as int,
        ),
        float::double_nan(b) ==> float::single_nan(float::double_as_single(b)),
        b == 0x7ff0_0000_0000_0000 ==> float::double_as_single(b) == 0x7f80_0000,
        b == 0xfff0_0000_0000_0000 ==> float::double_as_single(b) == 0xff80_0000,
        (float::double_as_single(b) >= 0x8000_0000) == (b >= 0x8000_0000_0000_0000),
{
    let m = float::double_magnitude(b);
    let x = float::double_negative(b);
    if finite_double(b) {
        lemma_pow2_pos(925);
        let a = float::units(m, 52);
        rounding::lemma_worthless(m, 52);
        if m == 0 {
            numbers::lemma_zero_pattern();
            rounding::lemma_closest_zero(x, pow2(925), 23);
            rounding::lemma_closest_single(x, 0, 0, pow2(925) as int);
        } else {
            float::lemma_units_parts(m, 52);
            let n = float::significand(m, 52);
            let e = float::scale(m, 52);
            let q = float::pattern(n, e - 925, 23);
            assert(q == arith::ratio_pattern(a, pow2(925), 23)) by {
                if e >= 925 {
                    let j = (e - 925) as nat;
                    rounding::lemma_pattern_is_ratio(n, j, 23);
                    lemma_pow2_adds(j, 925);
                    lemma_mul_is_associative(n as int, pow2(j) as int, pow2(925) as int);
                    lemma_mul_basics(a as int);
                    arith::lemma_ratio_equal(n * pow2(j), 1, a, pow2(925), 23);
                } else {
                    let j = (925 - e) as nat;
                    rounding::lemma_pattern_is_ratio(n, j, 23);
                    lemma_pow2_adds(e, j);
                    lemma_pow2_pos(j);
                    lemma_mul_is_associative(n as int, pow2(e) as int, pow2(j) as int);
                    arith::lemma_ratio_equal(n, pow2(j), a, pow2(925), 23);
                }
            }
            let s = float::double_worth(b);
            rounding::lemma_closest(s, pow2(925), 23);
            rounding::lemma_closest_single(x, arith::capped(q, 23), s, pow2(925) as int);
        }
    }
}

/// Whether an integer is a number without its fraction: towards zero, held between two bounds.
pub open spec fn truncates(r: int, worth: int, one: int, low: int, high: int) -> bool {
    if worth >= (high + 1) * one {
        r == high
    } else if worth <= (low - 1) * one {
        r == low
    } else if worth >= 0 {
        r * one <= worth < (r + 1) * one
    } else {
        (r - 1) * one < worth <= r * one
    }
}

proof fn lemma_truncates(x: bool, u: nat, one: nat, low: int, high: int)
    requires
        one > 0,
        low <= 0 <= high,
    ensures
        truncates(
            float::within(float::signed(x, u as int / one as int), low, high),
            float::signed(x, u as int),
            one as int,
            low,
            high,
        ),
{
    let q = u as int / one as int;
    let o = one as int;
    lemma_fundamental_div_mod(u as int, o);
    lemma_mod_bound(u as int, o);
    lemma_div_pos_is_pos(u as int, o);
    let r = u as int % o;
    assert(u == q * o + r) by (nonlinear_arith)
        requires
            u == o * q + r,
    ;
    assert((q + 1) * o == q * o + o) by (nonlinear_arith);
    assert((-q) * o == -(q * o)) by (nonlinear_arith);
    assert((-q - 1) * o == -(q * o) - o) by (nonlinear_arith);
    assert(q > high ==> (high + 1) * o <= q * o) by (nonlinear_arith)
        requires
            o > 0,
    ;
    assert(q <= high ==> q * o + o <= (high + 1) * o) by (nonlinear_arith)
        requires
            o > 0,
    ;
    assert(-q < low ==> -(q * o) <= (low - 1) * o) by (nonlinear_arith)
        requires
            o > 0,
    ;
    assert(-q >= low ==> -(q * o) - o >= (low - 1) * o) by (nonlinear_arith)
        requires
            o > 0,
    ;
    assert((high + 1) * o > 0) by (nonlinear_arith)
        requires
            o > 0,
            high >= 0,
    ;
    assert((low - 1) * o < 0) by (nonlinear_arith)
        requires
            o > 0,
            low <= 0,
    ;
}

/// A floating-point number becomes an integer without its fraction, and NaN becomes zero.
pub proof fn a_number_loses_its_fraction(s: u32, d: u64, low: int, high: int)
    requires
        low <= 0 <= high,
    ensures
        !float::single_nan(s) ==> truncates(
            float::single_as(s, low, high),
            float::single_worth(s),
            pow2(149) as int,
            low,
            high,
        ),
        !float::double_nan(d) ==> truncates(
            float::double_as(d, low, high),
            float::double_worth(d),
            pow2(1074) as int,
            low,
            high,
        ),
        float::single_nan(s) ==> float::single_as(s, low, high) == 0,
        float::double_nan(d) ==> float::double_as(d, low, high) == 0,
{
    lemma_pow2_pos(149);
    lemma_pow2_pos(1074);
    let u = float::units(float::single_magnitude(s), 23);
    let v = float::units(float::double_magnitude(d), 52);
    lemma_truncates(float::single_negative(s), u, pow2(149), low, high);
    lemma_truncates(float::double_negative(d), v, pow2(1074), low, high);
}

proof fn lemma_rounds(u: nat, one: nat, half: nat)
    requires
        half > 0,
        one == 2 * half,
    ensures
        ({
            let r = (u as int / half as int + 1) / 2;
            2 * r * one - one <= 2 * u < 2 * r * one + one
        }),
{
    let h = half as int;
    let q = u as int / h;
    let r = (q + 1) / 2;
    lemma_fundamental_div_mod(u as int, h);
    lemma_mod_bound(u as int, h);
    assert(u == q * h + u as int % h) by (nonlinear_arith)
        requires
            u == h * q + u as int % h,
    ;
    assert(2 * r * one == 4 * r * h) by (nonlinear_arith)
        requires
            one == 2 * h,
    ;
    assert(2 * r - 1 <= q <= 2 * r);
    assert((2 * r - 1) * h <= q * h <= (2 * r) * h) by (nonlinear_arith)
        requires
            2 * r - 1 <= q <= 2 * r,
            h > 0,
    ;
    assert((2 * r - 1) * h == 2 * (r * h) - h && (2 * r) * h == 2 * (r * h) && 4 * r * h == 4 * (r
        * h)) by (nonlinear_arith);
}

/// Rounding gives the nearest integer, and the one away from zero where two are as near.
pub proof fn rounding_gives_the_nearest_integer(s: u32, d: u64)
    ensures
        ({
            let r = float::single_rounded(s);
            let (worth, one) = (float::single_worth(s), pow2(149) as int);
            &&& worth >= 0 ==> 2 * r * one - one <= 2 * worth < 2 * r * one + one
            &&& worth <= 0 ==> 2 * r * one - one < 2 * worth <= 2 * r * one + one
        }),
        ({
            let r = float::double_rounded(d);
            let (worth, one) = (float::double_worth(d), pow2(1074) as int);
            &&& worth >= 0 ==> 2 * r * one - one <= 2 * worth < 2 * r * one + one
            &&& worth <= 0 ==> 2 * r * one - one < 2 * worth <= 2 * r * one + one
        }),
{
    lemma_pow2_pos(148);
    lemma_pow2_pos(1073);
    lemma_pow2_unfold(149);
    lemma_pow2_unfold(1074);
    let u = float::units(float::single_magnitude(s), 23);
    let v = float::units(float::double_magnitude(d), 52);
    lemma_rounds(u, pow2(149), pow2(148));
    lemma_rounds(v, pow2(1074), pow2(1073));
    let p = (u as int / pow2(148) as int + 1) / 2;
    let q = (v as int / pow2(1073) as int + 1) / 2;
    assert(2 * (-p) * pow2(149) == -(2 * p * pow2(149))) by (nonlinear_arith);
    assert(2 * (-q) * pow2(1074) == -(2 * q * pow2(1074))) by (nonlinear_arith);
    if u == 0 {
        lemma_div_of0(pow2(148) as int);
        assert(p == 0);
        assert(2 * 0 * pow2(149) == 0) by (nonlinear_arith);
    }
    if v == 0 {
        lemma_div_of0(pow2(1073) as int);
        assert(q == 0);
        assert(2 * 0 * pow2(1074) == 0) by (nonlinear_arith);
    }
}

// What a register counts as.

/// A value counts as the number that it is nearest to; nothing counts as zero, and neither
/// objects nor texts count.
pub proof fn what_values_count_as(v: ValueView, pc: usize, opcode: u8)
    ensures
        ({
            let r = convert::int_of(v, pc, opcode);
            match v {
                ValueView::Int(n) => r == Ok::<i32, crate::error::ErrorView>(n),
                ValueView::Null => r == Ok::<i32, crate::error::ErrorView>(0),
                ValueView::Void => r == Ok::<i32, crate::error::ErrorView>(0),
                _ => r is Err,
            }
        }),
        ({
            let r = convert::long_of(v, pc, opcode);
            match v {
                ValueView::Int(n) => r matches Ok(m) && m == n,
                ValueView::Long(n) => r matches Ok(m) && m == n,
                ValueView::Null => r matches Ok(m) && m == 0,
                _ => r is Err,
            }
        }),
        ({
            let r = convert::single_of(v, pc, opcode);
            match v {
                ValueView::Float(b) => r matches Ok(s) && s == b,
                ValueView::Int(n) => r matches Ok(s) && closest_single(s, n * pow2(149), 1),
                ValueView::Long(n) => r matches Ok(s) && closest_single(s, n * pow2(149), 1),
                ValueView::Double(b) => r matches Ok(s) && (finite_double(b) ==> closest_single(
                    s,
                    float::double_worth(b),
                    pow2(925) as int,
                )) && (float::double_nan(b) ==> float::single_nan(s)),
                ValueView::Null => r matches Ok(s) && s == 0,
                ValueView::Void => r matches Ok(s) && s == 0,
                _ => r is Err,
            }
        }),
        ({
            let r = convert::double_of(v, pc, opcode);
            match v {
                ValueView::Double(b) => r matches Ok(d) && d == b,
                ValueView::Int(n) => r matches Ok(d) && float::double_worth(d) == n * pow2(1074),
                ValueView::Long(n) => r matches Ok(d) && closest_double(d, n * pow2(1074), 1),
                ValueView::Float(b) => r matches Ok(d) && (finite_single(b) ==> float::double_worth(
                    d,
                ) == float::single_worth(b) * pow2(925)) && (float::single_nan(b)
                    ==> float::double_nan(d)),
                ValueView::Null => r matches Ok(d) && d == 0,
                ValueView::Void => r matches Ok(d) && d == 0,
                _ => r is Err,
            }
        }),
{
    match v {
        ValueView::Int(n) => {
            an_integer_becomes_the_nearest_number(n as int);
            numbers::an_integer_is_exact_as_a_double(n);
        },
        ValueView::Long(n) => an_integer_becomes_the_nearest_number(n as int),
        ValueView::Double(b) => a_double_becomes_the_nearest_single(b),
        ValueView::Float(b) => {
            if finite_single(b) {
                numbers::a_single_is_exact_as_a_double(b);
            }
        },
        _ => {},
    }
}

} // verus!
