//! Numbers: division, comparison, and conversions that keep their worth.

use vstd::arithmetic::div_mod::*;
use vstd::arithmetic::mul::*;
use vstd::arithmetic::power2::*;
use vstd::prelude::*;

use crate::arith;
use crate::convert;
use crate::float;
use crate::ops;
use crate::table;
use crate::value;
use crate::value::{FieldsView, ObjectView, ValueView};

verus! {

/// Division truncates: quotient and divisor give the dividend back with the remainder, which
/// is smaller than the divisor and has the sign of the dividend.
pub proof fn division_has_a_remainder(x: int, y: int)
    requires
        y != 0,
    ensures
        x == ops::quotient(x, y) * y + ops::remainder(x, y),
        ops::magnitude(ops::remainder(x, y)) < ops::magnitude(y),
        x >= 0 ==> ops::remainder(x, y) >= 0,
        x <= 0 ==> ops::remainder(x, y) <= 0,
{
    let a = ops::magnitude(x);
    let b = ops::magnitude(y);
    lemma_fundamental_div_mod(a, b);
    lemma_mod_bound(a, b);
    let q = a / b;
    assert(b * q == q * b) by (nonlinear_arith);
    assert((-q) * (-b) == q * b) by (nonlinear_arith);
    assert((-q) * b == -(q * b)) by (nonlinear_arith);
    assert(q * (-b) == -(q * b)) by (nonlinear_arith);
}

/// Dividing by zero is an error, for integers and for longs.
pub proof fn dividing_by_zero_is_an_error(x: i32, y: i64, pc: usize, opcode: u8)
    ensures
        ops::int_result(3, x, 0, pc, opcode) is Err,
        ops::int_result(4, x, 0, pc, opcode) is Err,
        ops::long_result(3, y, 0, pc, opcode) is Err,
        ops::long_result(4, y, 0, pc, opcode) is Err,
{
}

/// Equality is symmetric, and reflexive but for NaN.
pub proof fn equality_is_symmetric(a: ValueView, b: ValueView)
    ensures
        convert::equal(a, b) == convert::equal(b, a),
        convert::equal(a, a) <==> !(a matches ValueView::Float(x) && float::single_nan(x)) && !(
        a matches ValueView::Double(x) && float::double_nan(x)),
{
}

/// Objects are equal both ways.
pub proof fn equality_of_objects_is_symmetric(a: ObjectView, b: ObjectView)
    ensures
        value::same_object(a, b) == value::same_object(b, a),
{
    assert forall|p: Seq<ValueView>, q: Seq<ValueView>| #[trigger] value::same_values(p, q)
        == value::same_values(q, p) by {
        if value::same_values(p, q) {
            assert forall|i: int| 0 <= i < q.len() implies convert::equal(
                #[trigger] q[i],
                p[i],
            ) by {
                assert(convert::equal(p[i], q[i]));
            }
        }
        if value::same_values(q, p) {
            assert forall|i: int| 0 <= i < p.len() implies convert::equal(
                #[trigger] p[i],
                q[i],
            ) by {
                assert(convert::equal(q[i], p[i]));
            }
        }
    }
    assert forall|p: FieldsView, q: FieldsView| #[trigger] value::same_fields(p, q)
        == value::same_fields(q, p) by {
        assert(forall|name: Seq<char>| #[trigger] value::same_field(p, q, name)
            == value::same_field(q, p, name));
        if value::same_fields(p, q) {
            assert forall|name: Seq<char>| #[trigger] value::same_field(q, p, name) by {
                assert(value::same_field(p, q, name));
            }
        }
        if value::same_fields(q, p) {
            assert forall|name: Seq<char>| #[trigger] value::same_field(p, q, name) by {
                assert(value::same_field(q, p, name));
            }
        }
    }
}

/// It does not count in which order fields were stored, where every value in them equals itself:
/// none is NaN.
pub proof fn the_order_of_fields_does_not_count(
    fields: FieldsView,
    name: Seq<char>,
    v: ValueView,
    other: Seq<char>,
    w: ValueView,
)
    requires
        name != other,
        value::same_fields(fields, fields),
        convert::equal(v, v),
        convert::equal(w, w),
    ensures
        value::same_fields(
            table::store(table::store(fields, name, v), other, w),
            table::store(table::store(fields, other, w), name, v),
        ),
{
    let p = table::store(table::store(fields, name, v), other, w);
    let q = table::store(table::store(fields, other, w), name, v);
    assert forall|n: Seq<char>| #[trigger] value::same_field(p, q, n) by {
        assert(value::same_field(fields, fields, n));
        table::store_then_lookup(fields, name, v, n);
        table::store_then_lookup(fields, other, w, n);
        table::store_then_lookup(table::store(fields, name, v), other, w, n);
        table::store_then_lookup(table::store(fields, other, w), name, v, n);
    }
}

/// Values that are compared the other way round come out the other way round.
pub proof fn comparison_is_antisymmetric(a: ValueView, b: ValueView)
    ensures
        convert::comparison(a, b) is Some <==> convert::comparison(b, a) is Some,
        convert::comparison(a, b) matches Some(n) ==> convert::comparison(b, a) == Some(
            (0 - n) as i32,
        ) && -1 <= n <= 1,
{
}

/// The greater of two singles is one of them, and a number where either is. It is worth no less
/// than one that is a number, and its bits are no less than those of one above zero.
pub proof fn the_greater_of_two_is_below_neither(a: u32, b: u32)
    requires
        !float::single_nan(b),
    ensures
        float::single_greater(a, b) == a || float::single_greater(a, b) == b,
        !float::single_nan(float::single_greater(a, b)),
        float::single_worth(b) <= float::single_worth(float::single_greater(a, b)),
        !float::single_nan(a) ==> float::single_worth(a) <= float::single_worth(
            float::single_greater(a, b),
        ),
        0 < b < 0x8000_0000 ==> b <= float::single_greater(a, b) <= 0x7f80_0000,
{
    let m = float::single_magnitude(a);
    let n = float::single_magnitude(b);
    if m < n {
        float::lemma_units_ordered(m, n, 23);
    }
    if 0 < n {
        float::lemma_units_ordered(0, n, 23);
    }
}

/// A number of few digits is not rounded.
pub proof fn a_short_number_is_exact(n: nat, s: int, p: nat)
    requires
        0 < n < 2 * pow2(p),
        s >= 0,
    ensures
        float::units(float::pattern(n, s, p), p) == n * pow2(s as nat),
{
    lemma_pow2_unfold(p + 1);
    float::lemma_width_bound(n, p + 1);
    float::lemma_kept(n, s, p);
    let t = float::grain(n, s, p);
    let k = float::kept(n, s, p);
    assert(t <= s);
    float::lemma_units_compose(t as nat, k, p);
    assert(k == n * pow2((s - t) as nat));
    lemma_pow2_adds((s - t) as nat, t as nat);
    lemma_mul_is_associative(n as int, pow2((s - t) as nat) as int, pow2(t as nat) as int);
}

/// Every integer is kept as a double, and read again from it.
pub proof fn an_integer_is_exact_as_a_double(n: i32)
    ensures
        float::double_worth(float::int_as_double(n as int)) == n * pow2(1074),
        float::double_as(float::int_as_double(n as int), i32::MIN as int, i32::MAX as int) == n,
{
    let m = float::absolute(n as int);
    lemma_pow2_pos(1074);
    if n == 0 {
        assert(pow2(52) == 0x10_0000_0000_0000) by {
            lemma2_to64_rest();
        }
        assert(float::units(0, 52) == 0) by {
            lemma_div_of0(pow2(52) as int);
            lemma_small_mod(0, pow2(52));
        }
        lemma_div_of0(pow2(1074) as int);
        assert(0 * pow2(1074) == 0) by (nonlinear_arith);
    } else {
        assert(pow2(52) == 0x10_0000_0000_0000) by {
            lemma2_to64_rest();
        }
        a_short_number_is_exact(m, 1074, 52);
        lemma_short_double(m);
        let b = float::int_as_double(n as int);
        let units = m * pow2(1074);
        lemma_div_multiples_vanish(m as int, pow2(1074) as int);
        assert(pow2(1074) * m == units) by (nonlinear_arith)
            requires
                units == m * pow2(1074),
        ;
        assert((-(m as int)) * pow2(1074) == -(m * pow2(1074))) by (nonlinear_arith);
    }
}

/// The pattern of a small integer is below that of infinity.
proof fn lemma_short_double(m: nat)
    requires
        0 < m <= 0x8000_0000,
    ensures
        float::pattern(m, 1074, 52) < 0x7ff0_0000_0000_0000,
{
    assert(pow2(52) == 0x10_0000_0000_0000 && pow2(32) == 0x1_0000_0000) by {
        lemma2_to64();
        lemma2_to64_rest();
    }
    float::lemma_width_bound(m, 32);
    float::lemma_kept(m, 1074, 52);
    let t = float::grain(m, 1074, 52);
    assert(t <= 1053);
    assert(t * 0x10_0000_0000_0000 <= 1053 * 0x10_0000_0000_0000) by (nonlinear_arith)
        requires
            t <= 1053,
    ;
}

/// What is known of a finite single that is not zero: its digits, and where they stand.
proof fn lemma_finite_single(m: nat)
    requires
        0 < m < 0x7f80_0000,
    ensures
        0 < float::significand(m, 23) < 0x100_0000,
        float::scale(m, 23) <= 253,
        float::units(m, 23) == float::significand(m, 23) * pow2(float::scale(m, 23)),
        pow2(23) == 0x80_0000,
        pow2(52) == 0x10_0000_0000_0000,
{
    assert(pow2(52) == 0x10_0000_0000_0000 && pow2(23) == 0x80_0000) by {
        lemma2_to64();
        lemma2_to64_rest();
    }
    float::lemma_units_parts(m, 23);
}

/// A finite single keeps its worth as a double.
pub proof fn a_single_is_exact_as_a_double(b: u32)
    requires
        float::single_magnitude(b) < 0x7f80_0000,
    ensures
        float::double_worth(float::single_as_double(b)) == float::single_worth(b) * pow2(925),
{
    let m = float::single_magnitude(b);
    if m == 0 {
        assert(pow2(52) == 0x10_0000_0000_0000 && pow2(23) == 0x80_0000) by {
            lemma2_to64();
            lemma2_to64_rest();
        }
        assert(0 * pow2(925) == 0) by (nonlinear_arith);
    } else {
        lemma_finite_single(m);
        let n = float::significand(m, 23);
        let k = float::scale(m, 23);
        a_short_number_is_exact(n, (k + 925) as int, 52);
        lemma_pow2_adds(k, 925);
        lemma_mul_is_associative(n as int, pow2(k) as int, pow2(925) as int);
        lemma_wide_pattern(n, (k + 925) as int);
        let units = float::units(m, 23);
        assert((-(units as int)) * pow2(925) == -(units * pow2(925))) by (nonlinear_arith);
    }
}

/// A single that is no NaN is none as a double.
pub proof fn lemma_single_as_double_is_number(b: u32)
    requires
        !float::single_nan(b),
    ensures
        !float::double_nan(float::single_as_double(b)),
{
    let m = float::single_magnitude(b);
    if 0 < m < 0x7f80_0000 {
        lemma_finite_single(m);
        lemma_wide_pattern(float::significand(m, 23), (float::scale(m, 23) + 925) as int);
    }
}

/// The pattern of a single's digits is below that of infinity among the doubles.
proof fn lemma_wide_pattern(n: nat, s: int)
    requires
        0 < n < 0x100_0000,
        0 <= s <= 1178,
    ensures
        float::pattern(n, s, 52) < 0x7ff0_0000_0000_0000,
{
    assert(pow2(52) == 0x10_0000_0000_0000 && pow2(24) == 0x100_0000) by {
        lemma2_to64();
        lemma2_to64_rest();
    }
    float::lemma_width_bound(n, 24);
    float::lemma_kept(n, s, 52);
    let t = float::grain(n, s, 52);
    assert(t <= 1149);
    assert(t * 0x10_0000_0000_0000 <= 1149 * 0x10_0000_0000_0000) by (nonlinear_arith)
        requires
            t <= 1149,
    ;
}

/// Patterns of the same worth are the same.
proof fn lemma_same_units(a: nat, b: nat, p: nat)
    requires
        float::units(a, p) == float::units(b, p),
    ensures
        a == b,
{
    if a < b {
        float::lemma_units_ordered(a, b, p);
    } else if b < a {
        float::lemma_units_ordered(b, a, p);
    }
}

/// Of two ways to write a number, the one whose digits stand lower has those of the other with
/// zeros behind them.
proof fn lemma_align(n: nat, s: nat, digits: nat, place: nat)
    requires
        digits * pow2(place) == n * pow2(s),
        place > s ==> digits > n,
    ensures
        place <= s,
        digits == n * pow2((s - place) as nat),
{
    if place > s {
        lemma_pow2_adds((place - s) as nat, s);
        lemma_pow2_pos(s);
        lemma_pow2_pos((place - s) as nat);
        let e = pow2((place - s) as nat);
        let u = pow2(s);
        assert(digits * (e * u) == (digits * e) * u) by (nonlinear_arith);
        assert(digits * e == n) by (nonlinear_arith)
            requires
                (digits * e) * u == n * u,
                u > 0,
        ;
        assert(digits <= digits * e) by (nonlinear_arith)
            requires
                e >= 1,
        ;
    } else {
        let j = (s - place) as nat;
        lemma_pow2_adds(j, place);
        lemma_pow2_pos(place);
        let e = pow2(j);
        let u = pow2(place);
        assert(n * (e * u) == (n * e) * u) by (nonlinear_arith);
        assert(digits == n * e) by (nonlinear_arith)
            requires
                digits * u == (n * e) * u,
                u > 0,
        ;
    }
}

/// The digits of a single, written as a double and rounded to a single, are those they were.
proof fn lemma_wide_and_back(m: nat)
    requires
        0 < m < 0x7f80_0000,
    ensures
        ({
            let wide = float::pattern(
                float::significand(m, 23),
                (float::scale(m, 23) + 925) as int,
                52,
            );
            &&& wide < 0x7ff0_0000_0000_0000
            &&& float::pattern(
                float::significand(wide, 52),
                float::scale(wide, 52) - 925,
                23,
            ) == m
        }),
{
    lemma_finite_single(m);
    let n = float::significand(m, 23);
    let k = float::scale(m, 23);
    let s = k + 925;
    lemma_wide_pattern(n, s as int);
    let wide = float::pattern(n, s as int, 52);
    a_short_number_is_exact(n, s as int, 52);
    float::lemma_units_parts(wide, 52);
    let digits = float::significand(wide, 52);
    let place = float::scale(wide, 52);
    assert(place > 0 ==> digits >= 0x10_0000_0000_0000);
    lemma_align(n, s, digits, place);
    let j = (s - place) as nat;
    arith::lemma_pattern_scale(n, j, place - 925, 23);
    assert(place - 925 + j == k);
    a_short_number_is_exact(n, k as int, 23);
    lemma_same_units(float::pattern(n, k as int, 23), m, 23);
}

/// A single that is made a double and a single again is the single it was, but for a NaN that
/// signals.
pub proof fn a_single_survives_as_a_double(b: u32)
    requires
        float::single_nan(b) ==> float::single_magnitude(b) >= 0x7fc0_0000,
    ensures
        float::double_as_single(float::single_as_double(b)) == b,
{
    let m = float::single_magnitude(b);
    if float::single_nan(b) {
        let low = m % 0x40_0000;
        assert((0x7ff8_0000_0000_0000 + low as int * 0x2000_0000) / 0x2000_0000 == 0x3_ffc0_0000
            + low as int);
    } else if m == 0 {
        lemma_zero_pattern();
    } else if m < 0x7f80_0000 {
        lemma_wide_and_back(m);
    }
}

pub proof fn lemma_zero_pattern()
    ensures
        float::pattern(float::significand(0, 52), float::scale(0, 52) - 925, 23) == 0,
{
    assert(pow2(52) == 0x10_0000_0000_0000 && pow2(23) == 0x80_0000) by {
        lemma2_to64();
        lemma2_to64_rest();
    }
    assert(float::significand(0, 52) == 0);
    assert(float::width(0) == 0);
    let d = pow2(925);
    lemma_pow2_pos(925);
    lemma_div_of0(d as int);
    lemma_small_mod(0, d);
}

} // verus!
