//! Binary floating-point numbers as bit patterns.
//!
//! A single is held in 32 bits and a double in 64, both in the IEEE 754 layout: a sign, a
//! biased exponent and a fraction. What a pattern without its sign is worth is counted in
//! units of the smallest positive number of the format, so that every finite number is a
//! whole number of units and comparisons, truncation and rounding can be said exactly.
//! Sums, products and the other operations that leave the integers are not done here.

use vstd::arithmetic::div_mod::*;
use vstd::arithmetic::mul::*;
use vstd::arithmetic::power2::*;
use vstd::prelude::*;

verus! {

/// The worth, in units, of the unsigned pattern `m` with `p` bits of fraction. The pattern of
/// infinity comes out greater than that of every finite number.
pub open spec fn units(m: nat, p: nat) -> nat {
    let exponent = m / pow2(p);
    let fraction = m % pow2(p);
    if exponent == 0 {
        fraction
    } else {
        (pow2(p) + fraction) * pow2((exponent - 1) as nat)
    }
}

/// The number of binary digits of `n`; none for zero.
pub open spec fn width(n: nat) -> nat
    decreases n,
{
    if n == 0 {
        0
    } else {
        1 + width(n / 2)
    }
}

/// `n / unit`, rounded to the nearest whole number, and to the even one of two as near.
pub open spec fn half_even(n: nat, unit: nat) -> nat {
    let q = n / unit;
    let r = n % unit;
    if 2 * r > unit || (2 * r == unit && q % 2 == 1) {
        q + 1
    } else {
        q
    }
}

pub open spec fn larger(a: int, b: int) -> int {
    if a < b {
        b
    } else {
        a
    }
}

/// How far the last kept digit of `n * 2^s` stands above the unit, with `p + 1` digits kept.
pub open spec fn grain(n: nat, s: int, p: nat) -> int {
    larger(0, width(n) + s - (p + 1))
}

/// The digits kept of `n * 2^s` when it is rounded to `p + 1` significant ones.
pub open spec fn kept(n: nat, s: int, p: nat) -> nat {
    let t = grain(n, s, p);
    if s >= t {
        n * pow2((s - t) as nat)
    } else {
        half_even(n, pow2((t - s) as nat))
    }
}

/// `n * 2^s` units rounded to `p + 1` significant binary digits, never finer than a unit.
pub open spec fn nearest(n: nat, s: int, p: nat) -> nat {
    kept(n, s, p) * pow2(grain(n, s, p) as nat)
}

pub proof fn lemma_width(n: nat)
    requires
        n > 0,
    ensures
        width(n) > 0,
        pow2((width(n) - 1) as nat) <= n,
        n < pow2(width(n)),
    decreases n,
{
    lemma2_to64();
    if n == 1 {
        assert(width(1) == 1 + width(0));
    } else {
        lemma_width(n / 2);
        lemma_pow2_unfold(width(n));
        lemma_pow2_unfold(width(n / 2));
    }
}

pub proof fn lemma_width_bound(n: nat, e: nat)
    requires
        n < pow2(e),
    ensures
        width(n) <= e,
{
    if n > 0 {
        lemma_width(n);
        if width(n) > e {
            if width(n) - 1 > e {
                lemma_pow2_strictly_increases(e, (width(n) - 1) as nat);
            }
        }
    }
}

proof fn lemma_pow2_ordered(a: nat, b: nat)
    requires
        a <= b,
    ensures
        0 < pow2(a) <= pow2(b),
{
    lemma_pow2_pos(a);
    if a < b {
        lemma_pow2_strictly_increases(a, b);
    }
}

/// A pattern that is put together from an exponent and kept digits is worth their product.
pub proof fn lemma_units_compose(k: nat, q: nat, p: nat)
    requires
        q <= 2 * pow2(p),
        k == 0 || q >= pow2(p),
    ensures
        units(k * pow2(p) + q, p) == q * pow2(k),
{
    let b = pow2(p) as int;
    lemma_pow2_pos(p);
    lemma2_to64();
    let m = k * pow2(p) + q;
    lemma_mul_is_commutative(k as int, b);
    if q < b {
        lemma_fundamental_div_mod_converse(m as int, b, k as int, q as int);
        assert(q * pow2(0) == q) by {
            lemma_mul_basics(q as int);
        }
    } else if q < 2 * b {
        assert((k + 1) * b == k * b + b) by (nonlinear_arith);
        lemma_fundamental_div_mod_converse(m as int, b, (k + 1) as int, q - b);
    } else {
        assert((k + 2) * b == k * b + 2 * b) by (nonlinear_arith);
        lemma_fundamental_div_mod_converse(m as int, b, (k + 2) as int, 0);
        lemma_pow2_unfold(k + 1);
        assert(b * (2 * pow2(k)) == (2 * b) * pow2(k)) by (nonlinear_arith);
    }
}

/// Greater patterns are worth more.
pub proof fn lemma_units_ordered(m: nat, n: nat, p: nat)
    requires
        m < n,
    ensures
        units(m, p) < units(n, p),
{
    let b = pow2(p) as int;
    lemma_pow2_pos(p);
    let e = m as int / b;
    let f = m as int % b;
    let g = n as int / b;
    let h = n as int % b;
    lemma_fundamental_div_mod(m as int, b);
    lemma_fundamental_div_mod(n as int, b);
    lemma_mod_bound(m as int, b);
    lemma_mod_bound(n as int, b);
    lemma_div_is_ordered(m as int, n as int, b);
    lemma_div_pos_is_pos(m as int, b);
    if e == g {
        if e != 0 {
            let s = pow2((e - 1) as nat);
            lemma_pow2_pos((e - 1) as nat);
            assert((b + f) * s < (b + h) * s) by (nonlinear_arith)
                requires
                    f < h,
                    s > 0,
            ;
        }
    } else {
        let s = pow2((g - 1) as nat) as int;
        lemma_pow2_pos((g - 1) as nat);
        assert(b * s <= (b + h) * s) by (nonlinear_arith)
            requires
                h >= 0,
                s > 0,
        ;
        if e == 0 {
            assert(b <= b * s) by (nonlinear_arith)
                requires
                    s >= 1,
                    b > 0,
            ;
        } else {
            let t = pow2((e - 1) as nat) as int;
            lemma_pow2_pos((e - 1) as nat);
            lemma_pow2_unfold(e as nat);
            lemma_pow2_ordered(e as nat, (g - 1) as nat);
            assert((b + f) * t < b * s) by (nonlinear_arith)
                requires
                    f < b,
                    b > 0,
                    t > 0,
                    2 * t <= s,
            ;
        }
    }
}

/// Bounds on the kept digits: they fit in `p + 1` digits or are the next power of two.
pub proof fn lemma_kept(n: nat, s: int, p: nat)
    requires
        n > 0 || s <= p + 1,
    ensures
        kept(n, s, p) <= 2 * pow2(p),
        grain(n, s, p) > 0 ==> kept(n, s, p) >= pow2(p),
{
    let t = grain(n, s, p);
    let l = width(n) as int;
    lemma2_to64();
    lemma_pow2_pos(p);
    lemma_pow2_unfold(p + 1);
    if n == 0 {
        if s >= t {
            assert(0 * pow2((s - t) as nat) == 0) by (nonlinear_arith);
        } else {
            let d = pow2((t - s) as nat);
            lemma_pow2_pos((t - s) as nat);
            lemma_div_of0(d as int);
            lemma_small_mod(0, d);
        }
        assert(width(0) == 0);
    } else {
        lemma_width(n);
        if s >= t {
            let d = pow2((s - t) as nat);
            lemma_pow2_pos((s - t) as nat);
            lemma_pow2_adds(l as nat, (s - t) as nat);
            assert(n * d <= pow2(l as nat) * d) by (nonlinear_arith)
                requires
                    n <= pow2(l as nat),
            ;
            lemma_pow2_ordered((l + s - t) as nat, p + 1);
            if t > 0 {
                lemma_pow2_adds((l - 1) as nat, (s - t) as nat);
                assert(l - 1 + s - t == p);
                assert(n * d >= pow2((l - 1) as nat) * d) by (nonlinear_arith)
                    requires
                        n >= pow2((l - 1) as nat),
                ;
            }
        } else {
            let d = pow2((t - s) as nat);
            lemma_pow2_pos((t - s) as nat);
            let q = n / d;
            assert(q < pow2(p + 1)) by {
                lemma_pow2_adds(p + 1, (t - s) as nat);
                lemma_pow2_ordered(l as nat, (p + 1 + t - s) as nat);
                lemma_fundamental_div_mod(n as int, d as int);
                assert(q < pow2(p + 1)) by (nonlinear_arith)
                    requires
                        n < pow2(p + 1) * d,
                        n >= d * q,
                        d > 0,
                ;
            }
            if t > 0 {
                assert(q >= pow2(p)) by {
                    lemma_pow2_adds(p, (t - s) as nat);
                    assert(l - 1 == p + (t - s));
                    lemma_div_is_ordered((pow2(p) * d) as int, n as int, d as int);
                    lemma_div_by_multiple(pow2(p) as int, d as int);
                }
            }
        }
    }
}

proof fn lemma_zero_grain(s: int, p: nat)
    requires
        s <= p + 1,
    ensures
        grain(0, s, p) == 0,
{
    assert(width(0) == 0);
}

pub(crate) fn width_of(n: u128) -> (r: u32)
    requires
        n < 0x40_0000_0000_0000_0000_0000_0000_0000,
    ensures
        r == width(n as nat),
        r <= 118,
    decreases n,
{
    proof {
        lemma_wide(118);
        lemma_width_bound(n as nat, 118);
    }
    if n == 0 {
        0
    } else {
        proof {
            lemma_wide(117);
            lemma_width_bound((n / 2) as nat, 117);
        }
        1 + width_of(n / 2)
    }
}

/// Some powers of two past 64 bits.
proof fn lemma_wide(e: nat)
    requires
        e == 117 || e == 118 || e == 119 || e == 120,
    ensures
        e == 117 ==> pow2(e) == 0x20_0000_0000_0000_0000_0000_0000_0000,
        e == 118 ==> pow2(e) == 0x40_0000_0000_0000_0000_0000_0000_0000,
        e == 119 ==> pow2(e) == 0x80_0000_0000_0000_0000_0000_0000_0000,
        e == 120 ==> pow2(e) == 0x100_0000_0000_0000_0000_0000_0000_0000,
{
    lemma2_to64();
    lemma2_to64_rest();
    lemma_pow2_adds(60, 60);
    lemma_pow2_unfold(118);
    lemma_pow2_unfold(119);
    lemma_pow2_unfold(120);
}

pub(crate) fn power(d: u32) -> (r: u128)
    requires
        d <= 120,
    ensures
        r == pow2(d as nat),
    decreases d,
{
    proof {
        lemma2_to64();
    }
    if d == 0 {
        1
    } else {
        let half = power(d - 1);
        proof {
            lemma_pow2_unfold(d as nat);
            lemma_pow2_adds(60, 60);
            lemma_pow2_ordered((d - 1) as nat, 119);
            lemma_pow2_unfold(120);
            lemma2_to64_rest();
        }
        2 * half
    }
}

fn shift_half_even(n: u128, d: u32) -> (r: u128)
    requires
        d >= 1,
        n < 0x40_0000_0000_0000_0000_0000_0000_0000,
    ensures
        r == half_even(n as nat, pow2(d as nat)),
{
    if d > 118 {
        proof {
            lemma_wide(119);
            lemma_pow2_ordered(119, d as nat);
            lemma_small_mod(n as nat, pow2(d as nat));
            lemma_basic_div(n as int, pow2(d as nat) as int);
        }
        0
    } else {
        let unit = power(d);
        proof {
            lemma2_to64();
            lemma_wide(118);
            lemma_pow2_ordered(1, d as nat);
            lemma_pow2_ordered(d as nat, 118);
        }
        let q: u128 = n / unit;
        let r: u128 = n % unit;
        proof {
            lemma_fundamental_div_mod(n as int, unit as int);
            assert(2 * q <= n) by (nonlinear_arith)
                requires
                    n == unit * q + r,
                    unit >= 2,
                    r >= 0,
                    q >= 0,
            ;
        }
        if 2 * r > unit || (2 * r == unit && q % 2 == 1) {
            q + 1
        } else {
            q
        }
    }
}

/// The pattern, without a sign, of `n * 2^s` units rounded to the format with `p` bits of
/// fraction. The exponent may run over; the caller turns such a pattern into infinity.
pub(crate) fn encode(n: u128, s: i32, p: u32) -> (r: u64)
    requires
        p == 23 || p == 52,
        n < 0x40_0000_0000_0000_0000_0000_0000_0000,
        -4000 <= s <= 3200,
        n > 0 || s <= p + 1,
    ensures
        r == grain(n as nat, s as int, p as nat) * pow2(p as nat) + kept(
            n as nat,
            s as int,
            p as nat,
        ),
        units(r as nat, p as nat) == nearest(n as nat, s as int, p as nat),
{
    let l = width_of(n) as i32;
    let over: i32 = l + s - (p as i32 + 1);
    let t: i32 = if over > 0 {
        over
    } else {
        0
    };
    proof {
        lemma2_to64();
        lemma2_to64_rest();
        lemma_kept(n as nat, s as int, p as nat);
        if n == 0 {
            lemma_zero_grain(s as int, p as nat);
        }
    }
    let q: u64 = if s >= t {
        let d: i32 = s - t;
        proof {
            let k = kept(n as nat, s as int, p as nat);
            if n > 0 {
                lemma_pow2_pos(d as nat);
                assert(pow2(d as nat) <= n * pow2(d as nat)) by (nonlinear_arith)
                    requires
                        n >= 1,
                        pow2(d as nat) > 0,
                ;
                if d > 53 {
                    lemma_pow2_ordered(54, d as nat);
                }
            }
        }
        if n == 0 {
            0
        } else {
            (n * power(d as u32)) as u64
        }
    } else {
        shift_half_even(n, (t - s) as u32) as u64
    };
    let base: u64 = if p == 23 {
        0x80_0000
    } else {
        0x10_0000_0000_0000
    };
    assert(base == pow2(p as nat));
    assert(t <= 3300);
    proof {
        assert(q == kept(n as nat, s as int, p as nat)) by {
            assert(0 * pow2((s - t) as nat) == 0) by (nonlinear_arith);
        }
        lemma_units_compose(t as nat, q as nat, p as nat);
        assert(t * base <= 3300 * base) by (nonlinear_arith)
            requires
                0 <= t <= 3300,
                base >= 0,
        ;
    }
    t as u64 * base + q
}

/// The significand of the unsigned pattern `m`.
pub open spec fn significand(m: nat, p: nat) -> nat {
    if m / pow2(p) == 0 {
        m
    } else {
        pow2(p) + m % pow2(p)
    }
}

/// The power of two that the significand of the unsigned pattern `m` is to be taken times.
pub open spec fn scale(m: nat, p: nat) -> nat {
    if m / pow2(p) == 0 {
        0
    } else {
        (m / pow2(p) - 1) as nat
    }
}

/// A pattern is worth its significand times its scale.
pub proof fn lemma_units_parts(m: nat, p: nat)
    ensures
        units(m, p) == significand(m, p) * pow2(scale(m, p)),
        significand(m, p) < 2 * pow2(p),
        m > 0 ==> significand(m, p) > 0,
{
    lemma2_to64();
    lemma_pow2_pos(p);
    lemma_mod_bound(m as int, pow2(p) as int);
    lemma_fundamental_div_mod(m as int, pow2(p) as int);
    lemma_mul_basics(significand(m, p) as int);
    lemma_mul_basics(pow2(p) as int);
}

pub(crate) fn parts(m: u64, p: u32) -> (r: (u64, u32))
    requires
        p == 23 || p == 52,
        p == 23 ==> m < 0x8000_0000,
        p == 52 ==> m < 0x8000_0000_0000_0000,
    ensures
        r.0 == significand(m as nat, p as nat),
        r.1 == scale(m as nat, p as nat),
        r.1 <= 2046,
        r.0 < 0x20_0000_0000_0000,
        p == 23 ==> r.1 <= 254,
        p == 23 ==> r.0 < 0x100_0000,
        p == 52 && m < 0x7ff0_0000_0000_0000 ==> r.1 <= 2045,
{
    proof {
        lemma2_to64();
        lemma2_to64_rest();
    }
    let base: u64 = if p == 23 {
        0x80_0000
    } else {
        0x10_0000_0000_0000
    };
    let e: u64 = m / base;
    if e == 0 {
        (m, 0)
    } else {
        (base + m % base, (e - 1) as u32)
    }
}

pub open spec fn smaller(a: int, b: int) -> int {
    if a < b {
        a
    } else {
        b
    }
}

pub open spec fn within(n: int, low: int, high: int) -> int {
    larger(low, smaller(n, high))
}

/// `n * 2^k / 2^d` without its fraction, or a number past every integer type.
fn whole(n: u64, k: u32, d: u32) -> (r: u128)
    requires
        n < 0x20_0000_0000_0000,
        k <= 2046,
        d <= 1074,
    ensures
        r == smaller((n * pow2(k as nat)) as int / pow2(d as nat) as int, 0x4_0000_0000_0000_0000),
{
    proof {
        lemma2_to64();
        lemma2_to64_rest();
        lemma_pow2_pos(d as nat);
        lemma_pow2_pos(k as nat);
    }
    if n == 0 {
        proof {
            assert(0 * pow2(k as nat) == 0) by (nonlinear_arith);
            lemma_div_of0(pow2(d as nat) as int);
        }
        0
    } else if k >= d {
        let up: u32 = k - d;
        proof {
            lemma_pow2_adds(up as nat, d as nat);
            lemma_pow2_pos(up as nat);
            assert(n * pow2(k as nat) == (n * pow2(up as nat)) * pow2(d as nat)) by {
                lemma_mul_is_associative(n as int, pow2(up as nat) as int, pow2(d as nat) as int);
            }
            lemma_div_by_multiple((n * pow2(up as nat)) as int, pow2(d as nat) as int);
            assert(pow2(up as nat) <= n * pow2(up as nat)) by (nonlinear_arith)
                requires
                    n >= 1,
                    pow2(up as nat) > 0,
            ;
        }
        if up >= 66 {
            proof {
                lemma_pow2_ordered(66, up as nat);
                lemma_pow2_unfold(65);
                lemma_pow2_unfold(66);
            }
            0x4_0000_0000_0000_0000
        } else {
            proof {
                lemma_pow2_ordered(up as nat, 66);
                lemma_pow2_unfold(65);
                lemma_pow2_unfold(66);
                assert(n * pow2(up as nat) <= 0x20_0000_0000_0000 * 0x4_0000_0000_0000_0000)
                    by (nonlinear_arith)
                    requires
                        0 <= n <= 0x20_0000_0000_0000,
                        0 <= pow2(up as nat) <= 0x4_0000_0000_0000_0000,
                ;
            }
            let v: u128 = n as u128 * power(up);
            if v < 0x4_0000_0000_0000_0000 {
                v
            } else {
                0x4_0000_0000_0000_0000
            }
        }
    } else {
        let down: u32 = d - k;
        proof {
            lemma_pow2_adds(k as nat, down as nat);
            lemma_pow2_pos(down as nat);
            lemma_mul_is_commutative(n as int, pow2(k as nat) as int);
            assert((n * pow2(k as nat)) as int / pow2(d as nat) as int == n as int / pow2(
                down as nat,
            ) as int) by {
                lemma_div_multiples_vanish_quotient(
                    pow2(k as nat) as int,
                    n as int,
                    pow2(down as nat) as int,
                );
            }
        }
        if down >= 64 {
            proof {
                lemma_pow2_ordered(64, down as nat);
                lemma_basic_div(n as int, pow2(down as nat) as int);
            }
            0
        } else {
            proof {
                lemma_div_nonincreasing(n as int, pow2(down as nat) as int);
            }
            n as u128 / power(down)
        }
    }
}

// Singles.

pub open spec fn single_magnitude(b: u32) -> nat {
    (b % 0x8000_0000) as nat
}

pub open spec fn single_negative(b: u32) -> bool {
    b >= 0x8000_0000
}

pub open spec fn single_nan(b: u32) -> bool {
    single_magnitude(b) > 0x7f80_0000
}

pub open spec fn signed(negative: bool, n: int) -> int {
    if negative {
        -n
    } else {
        n
    }
}

/// What a single is worth, in units of `2^-149`.
pub open spec fn single_worth(b: u32) -> int {
    signed(single_negative(b), units(single_magnitude(b), 23) as int)
}

pub open spec fn single_bits(negative: bool, m: nat) -> u32 {
    (if negative {
        m + 0x8000_0000
    } else {
        m
    }) as u32
}

// Doubles.

pub open spec fn double_magnitude(b: u64) -> nat {
    (b % 0x8000_0000_0000_0000) as nat
}

pub open spec fn double_negative(b: u64) -> bool {
    b >= 0x8000_0000_0000_0000
}

pub open spec fn double_nan(b: u64) -> bool {
    double_magnitude(b) > 0x7ff0_0000_0000_0000
}

/// What a double is worth, in units of `2^-1074`.
pub open spec fn double_worth(b: u64) -> int {
    signed(double_negative(b), units(double_magnitude(b), 52) as int)
}

pub open spec fn double_bits(negative: bool, m: nat) -> u64 {
    (if negative {
        m + 0x8000_0000_0000_0000
    } else {
        m
    }) as u64
}

pub fn single_is_nan(b: u32) -> (r: bool)
    ensures
        r == single_nan(b),
{
    b % 0x8000_0000 > 0x7f80_0000
}

pub fn double_is_nan(b: u64) -> (r: bool)
    ensures
        r == double_nan(b),
{
    b % 0x8000_0000_0000_0000 > 0x7ff0_0000_0000_0000
}

/// The sign turned round.
pub open spec fn single_minus(b: u32) -> u32 {
    single_bits(!single_negative(b), single_magnitude(b))
}

pub open spec fn double_minus(b: u64) -> u64 {
    double_bits(!double_negative(b), double_magnitude(b))
}

pub fn single_negate(b: u32) -> (r: u32)
    ensures
        r == single_minus(b),
{
    if b >= 0x8000_0000 {
        b - 0x8000_0000
    } else {
        b + 0x8000_0000
    }
}

pub fn double_negate(b: u64) -> (r: u64)
    ensures
        r == double_minus(b),
{
    if b >= 0x8000_0000_0000_0000 {
        b - 0x8000_0000_0000_0000
    } else {
        b + 0x8000_0000_0000_0000
    }
}

/// The sign taken off.
pub fn single_absolute(b: u32) -> (r: u32)
    ensures
        r == single_magnitude(b),
{
    b % 0x8000_0000
}

pub fn double_absolute(b: u64) -> (r: u64)
    ensures
        r == double_magnitude(b),
{
    b % 0x8000_0000_0000_0000
}

/// -1, 0 or 1, as `a` is below, at or above `b`.
pub open spec fn order(a: int, b: int) -> int {
    if a < b {
        -1
    } else if a == b {
        0
    } else {
        1
    }
}

proof fn lemma_units_zero(p: nat)
    ensures
        units(0, p) == 0,
{
    lemma_pow2_pos(p);
    lemma_div_of0(pow2(p) as int);
    lemma_small_mod(0, pow2(p));
}

proof fn lemma_order(m: nat, n: nat, p: nat)
    ensures
        order(units(m, p) as int, units(n, p) as int) == order(m as int, n as int),
        units(0, p) == 0,
        m > 0 ==> units(m, p) > 0,
        n > 0 ==> units(n, p) > 0,
{
    lemma_units_zero(p);
    if m < n {
        lemma_units_ordered(m, n, p);
    } else if n < m {
        lemma_units_ordered(n, m, p);
    }
    if m > 0 {
        lemma_units_ordered(0, m, p);
    }
    if n > 0 {
        lemma_units_ordered(0, n, p);
    }
}

/// Orders two singles that are not NaN; both zeros are one number.
pub fn single_order(a: u32, b: u32) -> (r: i32)
    ensures
        r == order(single_worth(a), single_worth(b)),
{
    let m: u32 = a % 0x8000_0000;
    let n: u32 = b % 0x8000_0000;
    proof {
        lemma_order(m as nat, n as nat, 23);
    }
    let x: i64 = if a >= 0x8000_0000 {
        -(m as i64)
    } else {
        m as i64
    };
    let y: i64 = if b >= 0x8000_0000 {
        -(n as i64)
    } else {
        n as i64
    };
    if x < y {
        -1
    } else if x == y {
        0
    } else {
        1
    }
}

/// Orders two doubles that are not NaN; both zeros are one number.
pub fn double_order(a: u64, b: u64) -> (r: i32)
    ensures
        r == order(double_worth(a), double_worth(b)),
{
    let m: u64 = a % 0x8000_0000_0000_0000;
    let n: u64 = b % 0x8000_0000_0000_0000;
    proof {
        lemma_order(m as nat, n as nat, 52);
    }
    let x: i128 = if a >= 0x8000_0000_0000_0000 {
        -(m as i128)
    } else {
        m as i128
    };
    let y: i128 = if b >= 0x8000_0000_0000_0000 {
        -(n as i128)
    } else {
        n as i128
    };
    if x < y {
        -1
    } else if x == y {
        0
    } else {
        1
    }
}

/// A single without its fraction.
pub open spec fn single_truncated(b: u32) -> int {
    signed(
        single_negative(b),
        units(single_magnitude(b), 23) as int / pow2(149) as int,
    )
}

/// A single rounded to the nearest integer, and away from zero where two are as near.
pub open spec fn single_rounded(b: u32) -> int {
    signed(
        single_negative(b),
        (units(single_magnitude(b), 23) as int / pow2(148) as int + 1) / 2,
    )
}

pub open spec fn double_truncated(b: u64) -> int {
    signed(
        double_negative(b),
        units(double_magnitude(b), 52) as int / pow2(1074) as int,
    )
}

pub open spec fn double_rounded(b: u64) -> int {
    signed(
        double_negative(b),
        (units(double_magnitude(b), 52) as int / pow2(1073) as int + 1) / 2,
    )
}

/// A single as an integer: truncated, held within the bounds, and 0 for NaN.
pub open spec fn single_as(b: u32, low: int, high: int) -> int {
    if single_nan(b) {
        0
    } else {
        within(single_truncated(b), low, high)
    }
}

pub open spec fn double_as(b: u64, low: int, high: int) -> int {
    if double_nan(b) {
        0
    } else {
        within(double_truncated(b), low, high)
    }
}

fn single_whole(b: u32, d: u32) -> (r: u128)
    requires
        d == 149 || d == 148,
    ensures
        r == smaller(
            units(single_magnitude(b), 23) as int / pow2(d as nat) as int,
            0x4_0000_0000_0000_0000,
        ),
{
    let m: u32 = b % 0x8000_0000;
    let (n, k) = parts(m as u64, 23);
    proof {
        lemma_units_parts(m as nat, 23);
    }
    whole(n, k, d)
}

fn double_whole(b: u64, d: u32) -> (r: u128)
    requires
        d == 1074 || d == 1073,
    ensures
        r == smaller(
            units(double_magnitude(b), 52) as int / pow2(d as nat) as int,
            0x4_0000_0000_0000_0000,
        ),
{
    let m: u64 = b % 0x8000_0000_0000_0000;
    let (n, k) = parts(m, 52);
    proof {
        lemma_units_parts(m as nat, 52);
    }
    whole(n, k, d)
}

fn bounded(negative: bool, v: u128, low: i64, high: i64) -> (r: i64)
    requires
        v <= 0x4_0000_0000_0000_0000,
        low <= 0 <= high,
    ensures
        r == within(signed(negative, v as int), low as int, high as int),
{
    let n: i128 = if negative {
        -(v as i128)
    } else {
        v as i128
    };
    if n < low as i128 {
        low
    } else if n > high as i128 {
        high
    } else {
        n as i64
    }
}

pub fn single_to_long(b: u32) -> (r: i64)
    ensures
        r == single_as(b, i64::MIN as int, i64::MAX as int),
{
    if single_is_nan(b) {
        0
    } else {
        bounded(b >= 0x8000_0000, single_whole(b, 149), i64::MIN, i64::MAX)
    }
}

pub fn single_to_int(b: u32) -> (r: i32)
    ensures
        r == single_as(b, i32::MIN as int, i32::MAX as int),
{
    if single_is_nan(b) {
        0
    } else {
        bounded(b >= 0x8000_0000, single_whole(b, 149), i32::MIN as i64, i32::MAX as i64) as i32
    }
}

pub fn double_to_long(b: u64) -> (r: i64)
    ensures
        r == double_as(b, i64::MIN as int, i64::MAX as int),
{
    if double_is_nan(b) {
        0
    } else {
        bounded(b >= 0x8000_0000_0000_0000, double_whole(b, 1074), i64::MIN, i64::MAX)
    }
}

pub fn double_to_int(b: u64) -> (r: i32)
    ensures
        r == double_as(b, i32::MIN as int, i32::MAX as int),
{
    if double_is_nan(b) {
        0
    } else {
        bounded(
            b >= 0x8000_0000_0000_0000,
            double_whole(b, 1074),
            i32::MIN as i64,
            i32::MAX as i64,
        ) as i32
    }
}

/// Rounds a single to an integer in 32 bits, halves away from zero.
pub fn single_round(b: u32) -> (r: i32)
    ensures
        r == (if single_nan(b) {
            0
        } else {
            within(single_rounded(b), i32::MIN as int, i32::MAX as int)
        }),
{
    if single_is_nan(b) {
        0
    } else {
        let twice = single_whole(b, 148);
        bounded(b >= 0x8000_0000, (twice + 1) / 2, i32::MIN as i64, i32::MAX as i64) as i32
    }
}

/// Rounds a double to an integer in 32 bits, halves away from zero.
pub fn double_round(b: u64) -> (r: i32)
    ensures
        r == (if double_nan(b) {
            0
        } else {
            within(double_rounded(b), i32::MIN as int, i32::MAX as int)
        }),
{
    if double_is_nan(b) {
        0
    } else {
        let twice = double_whole(b, 1073);
        bounded(
            b >= 0x8000_0000_0000_0000,
            (twice + 1) / 2,
            i32::MIN as i64,
            i32::MAX as i64,
        ) as i32
    }
}

/// The unsigned pattern of `n * 2^s` units, rounded to nearest.
pub open spec fn pattern(n: nat, s: int, p: nat) -> nat {
    (grain(n, s, p) * pow2(p) + kept(n, s, p)) as nat
}

pub open spec fn absolute(n: int) -> nat {
    (if n < 0 {
        -n
    } else {
        n
    }) as nat
}

/// The single nearest to an integer.
pub open spec fn int_as_single(n: int) -> u32 {
    if n == 0 {
        0
    } else {
        single_bits(n < 0, pattern(absolute(n), 149, 23))
    }
}

/// The double nearest to an integer.
pub open spec fn int_as_double(n: int) -> u64 {
    if n == 0 {
        0
    } else {
        double_bits(n < 0, pattern(absolute(n), 1074, 52))
    }
}

/// The single nearest to a double: infinity past the greatest one, a quiet NaN for NaN.
pub open spec fn double_as_single(b: u64) -> u32 {
    let m = double_magnitude(b);
    single_bits(
        double_negative(b),
        if double_nan(b) {
            0x7fc0_0000 + m / 0x2000_0000 % 0x40_0000
        } else if m == 0x7ff0_0000_0000_0000 {
            0x7f80_0000
        } else {
            smaller(
                pattern(significand(m, 52), scale(m, 52) - 925, 23) as int,
                0x7f80_0000,
            ) as nat
        },
    )
}

/// A single as a double; every single but NaN keeps its worth.
pub open spec fn single_as_double(b: u32) -> u64 {
    let m = single_magnitude(b);
    double_bits(
        single_negative(b),
        if single_nan(b) {
            0x7ff8_0000_0000_0000 + m % 0x40_0000 * 0x2000_0000
        } else if m == 0x7f80_0000 {
            0x7ff0_0000_0000_0000
        } else if m == 0 {
            0
        } else {
            pattern(significand(m, 23), (scale(m, 23) + 925) as int, 52)
        },
    )
}

fn magnitude_of(n: i64) -> (r: u64)
    ensures
        r == absolute(n as int),
{
    if n == i64::MIN {
        0x8000_0000_0000_0000
    } else if n < 0 {
        (-n) as u64
    } else {
        n as u64
    }
}

pub proof fn lemma_pattern_bound(n: nat, s: int, p: nat)
    requires
        n > 0,
        n < pow2(64),
    ensures
        kept(n, s, p) <= 2 * pow2(p),
        grain(n, s, p) <= larger(0, 64 + s - (p + 1)),
{
    lemma_kept(n, s, p);
    lemma_width_bound(n, 64);
}

pub fn int_to_single(n: i64) -> (r: u32)
    ensures
        r == int_as_single(n as int),
{
    if n == 0 {
        return 0;
    }
    let m = magnitude_of(n);
    let e = encode(m as u128, 149, 23);
    proof {
        lemma2_to64();
        lemma2_to64_rest();
        lemma_pattern_bound(m as nat, 149, 23);
        let g = grain(m as nat, 149, 23);
        assert(g * 0x80_0000 <= 189 * 0x80_0000) by (nonlinear_arith)
            requires
                g <= 189,
        ;
    }
    if n < 0 {
        (e + 0x8000_0000) as u32
    } else {
        e as u32
    }
}

pub fn count_to_single(n: u64) -> (r: u32)
    ensures
        r == int_as_single(n as int),
{
    if n == 0 {
        return 0;
    }
    let e = encode(n as u128, 149, 23);
    proof {
        lemma2_to64();
        lemma2_to64_rest();
        lemma_pattern_bound(n as nat, 149, 23);
        let g = grain(n as nat, 149, 23);
        assert(g * 0x80_0000 <= 189 * 0x80_0000) by (nonlinear_arith)
            requires
                g <= 189,
        ;
    }
    e as u32
}

pub fn int_to_double(n: i64) -> (r: u64)
    ensures
        r == int_as_double(n as int),
{
    if n == 0 {
        return 0;
    }
    let m = magnitude_of(n);
    let e = encode(m as u128, 1074, 52);
    proof {
        lemma2_to64();
        lemma2_to64_rest();
        lemma_pattern_bound(m as nat, 1074, 52);
        let g = grain(m as nat, 1074, 52);
        assert(g * 0x10_0000_0000_0000 <= 1085 * 0x10_0000_0000_0000) by (nonlinear_arith)
            requires
                g <= 1085,
        ;
    }
    if n < 0 {
        e + 0x8000_0000_0000_0000
    } else {
        e
    }
}

pub fn double_to_single(b: u64) -> (r: u32)
    ensures
        r == double_as_single(b),
{
    let m: u64 = b % 0x8000_0000_0000_0000;
    let low: u32 = if m > 0x7ff0_0000_0000_0000 {
        (0x7fc0_0000 + m / 0x2000_0000 % 0x40_0000) as u32
    } else if m == 0x7ff0_0000_0000_0000 {
        0x7f80_0000
    } else {
        let (n, k) = parts(m, 52);
        proof {
            lemma_units_parts(m as nat, 52);
            lemma_pow2_pos(52);
            lemma_div_of0(pow2(52) as int);
        }
        let e = encode(n as u128, k as i32 - 925, 23);
        if e < 0x7f80_0000 {
            e as u32
        } else {
            0x7f80_0000
        }
    };
    if b >= 0x8000_0000_0000_0000 {
        low + 0x8000_0000
    } else {
        low
    }
}

pub fn single_to_double(b: u32) -> (r: u64)
    ensures
        r == single_as_double(b),
{
    let m: u32 = b % 0x8000_0000;
    let low: u64 = if m > 0x7f80_0000 {
        0x7ff8_0000_0000_0000u64 + (m % 0x40_0000) as u64 * 0x2000_0000
    } else if m == 0x7f80_0000 {
        0x7ff0_0000_0000_0000
    } else if m == 0 {
        0
    } else {
        let (n, k) = parts(m as u64, 23);
        proof {
            lemma2_to64();
            lemma2_to64_rest();
            lemma_units_parts(m as nat, 23);
            lemma_width_bound(n as nat, 24);
            lemma_kept(n as nat, k + 925, 52);
            let g = grain(n as nat, k + 925, 52);
            assert(g * 0x10_0000_0000_0000 <= 1150 * 0x10_0000_0000_0000) by (nonlinear_arith)
                requires
                    g <= 1150,
            ;
        }
        encode(n as u128, k as i32 + 925, 52)
    };
    if b >= 0x8000_0000 {
        low + 0x8000_0000_0000_0000
    } else {
        low
    }
}

/// Whether a single is finite and above zero.
pub open spec fn single_positive(b: u32) -> bool {
    0 < b < 0x7f80_0000
}

pub fn single_is_positive(b: u32) -> (r: bool)
    ensures
        r == single_positive(b),
{
    0 < b && b < 0x7f80_0000
}

/// The greater of two singles, and the other one where one is NaN.
pub open spec fn single_greater(a: u32, b: u32) -> u32 {
    if single_nan(a) {
        b
    } else if single_nan(b) {
        a
    } else if single_worth(a) < single_worth(b) {
        b
    } else {
        a
    }
}

pub open spec fn single_lesser(a: u32, b: u32) -> u32 {
    if single_nan(a) {
        b
    } else if single_nan(b) {
        a
    } else if single_worth(b) < single_worth(a) {
        b
    } else {
        a
    }
}

pub open spec fn double_greater(a: u64, b: u64) -> u64 {
    if double_nan(a) {
        b
    } else if double_nan(b) {
        a
    } else if double_worth(a) < double_worth(b) {
        b
    } else {
        a
    }
}

pub open spec fn double_lesser(a: u64, b: u64) -> u64 {
    if double_nan(a) {
        b
    } else if double_nan(b) {
        a
    } else if double_worth(b) < double_worth(a) {
        b
    } else {
        a
    }
}

pub fn single_max(a: u32, b: u32) -> (r: u32)
    ensures
        r == single_greater(a, b),
{
    if single_is_nan(a) {
        b
    } else if single_is_nan(b) {
        a
    } else if single_order(a, b) < 0 {
        b
    } else {
        a
    }
}

pub fn single_min(a: u32, b: u32) -> (r: u32)
    ensures
        r == single_lesser(a, b),
{
    if single_is_nan(a) {
        b
    } else if single_is_nan(b) {
        a
    } else if single_order(b, a) < 0 {
        b
    } else {
        a
    }
}

pub fn double_max(a: u64, b: u64) -> (r: u64)
    ensures
        r == double_greater(a, b),
{
    if double_is_nan(a) {
        b
    } else if double_is_nan(b) {
        a
    } else if double_order(a, b) < 0 {
        b
    } else {
        a
    }
}

pub fn double_min(a: u64, b: u64) -> (r: u64)
    ensures
        r == double_lesser(a, b),
{
    if double_is_nan(a) {
        b
    } else if double_is_nan(b) {
        a
    } else if double_order(b, a) < 0 {
        b
    } else {
        a
    }
}

} // verus!
