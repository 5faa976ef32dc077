//! Floating-point results: none is nearer to the exact one.

use vstd::arithmetic::div_mod::*;
use vstd::arithmetic::mul::*;
use vstd::arithmetic::power2::*;
use vstd::prelude::*;

use crate::arith;
use crate::float;

verus! {

pub open spec fn apart(a: int, b: int) -> int {
    if a < b {
        b - a
    } else {
        a - b
    }
}

// Whole numbers of units.

/// A ratio that is rounded is as near as a whole number can be, and even where two are.
proof fn lemma_half_even_near(n: nat, u: nat, j: nat)
    requires
        u > 0,
    ensures
        ({
            let k = float::half_even(n, u);
            &&& apart((k * u) as int, n as int) <= apart((j * u) as int, n as int)
            &&& j != k && apart((k * u) as int, n as int) == apart((j * u) as int, n as int)
                ==> k % 2 == 0
        }),
{
    let q = n / u;
    let r = n % u;
    let k = float::half_even(n, u);
    lemma_fundamental_div_mod(n as int, u as int);
    lemma_mod_bound(n as int, u as int);
    assert(n == q * u + r) by (nonlinear_arith)
        requires
            n == u * q + r,
    ;
    assert((q + 1) * u == q * u + u) by (nonlinear_arith);
    if j < q {
        assert(j * u <= q * u - u) by (nonlinear_arith)
            requires
                j + 1 <= q,
                u > 0,
        ;
    } else if j > q + 1 {
        assert(j * u >= q * u + 2 * u) by (nonlinear_arith)
            requires
                j >= q + 2,
                u > 0,
        ;
    }
}

/// What is known of a ratio that is rounded to a pattern.
proof fn lemma_ratio_kept(n: nat, d: nat, p: nat)
    requires
        d > 0,
    ensures
        ({
            let t = arith::ratio_grain(n, d, p);
            let k = float::half_even(n, d * pow2(t));
            &&& d * pow2(t) > 0
            &&& k <= 2 * pow2(p)
            &&& t == 0 || k >= pow2(p)
            &&& t > 0 ==> pow2((p + t) as nat) * d <= n
        }),
{
    let t = arith::ratio_grain(n, d, p);
    let g = pow2(t);
    let u = d * g;
    let q = n / d;
    lemma_pow2_pos(t);
    lemma_pow2_pos(p);
    lemma_pow2_unfold(p + 1);
    assert(u > 0) by (nonlinear_arith)
        requires
            d > 0,
            g > 0,
            u == d * g,
    ;
    lemma_div_denominator(n as int, d as int, g as int);
    lemma_fundamental_div_mod(n as int, d as int);
    lemma_mod_bound(n as int, d as int);
    assert(n / u == q / g);
    if q == 0 {
        assert(float::width(0) == 0);
        lemma_div_of0(g as int);
    } else {
        float::lemma_width(q);
        let l = float::width(q);
        if t == 0 {
            lemma2_to64();
            arith::lemma_pow2_ordered(l, p + 1);
            lemma_div_basics(q as int);
        } else {
            assert(l == p + 1 + t);
            lemma_pow2_adds(p + 1, t);
            lemma_pow2_adds(p, t);
            assert(q / g < pow2(p + 1)) by {
                lemma_fundamental_div_mod(q as int, g as int);
                lemma_mod_bound(q as int, g as int);
                let w = q / g;
                assert(w < pow2(p + 1)) by (nonlinear_arith)
                    requires
                        q < pow2(p + 1) * g,
                        q >= g * w,
                        g > 0,
                ;
            }
            assert(q / g >= pow2(p)) by {
                lemma_div_is_ordered((pow2(p) * g) as int, q as int, g as int);
                lemma_div_by_multiple(pow2(p) as int, g as int);
            }
            let b = pow2((p + t) as nat);
            assert(b * d <= n) by (nonlinear_arith)
                requires
                    b <= q,
                    n >= d * q,
            ;
        }
    }
}

/// Of all patterns, the one that a ratio is rounded to is nearest to it, and even where two are
/// as near.
proof fn lemma_ratio_nearest(n: nat, d: nat, z: nat, p: nat)
    requires
        d > 0,
        p > 0,
    ensures
        ({
            let r = arith::ratio_pattern(n, d, p);
            let here = apart((float::units(r, p) * d) as int, n as int);
            let there = apart((float::units(z, p) * d) as int, n as int);
            &&& here <= there
            &&& z != r && here == there ==> r % 2 == 0
        }),
{
    let t = arith::ratio_grain(n, d, p);
    let g = pow2(t);
    let u = d * g;
    let k = float::half_even(n, u);
    let r = arith::ratio_pattern(n, d, p);
    lemma_ratio_kept(n, d, p);
    float::lemma_units_compose(t, k, p);
    assert((k * g) * d == k * u) by (nonlinear_arith)
        requires
            u == d * g,
    ;
    lemma_pow2_unfold(p);
    let half = pow2((p - 1) as nat);
    assert(r % 2 == k % 2) by {
        assert(t * (2 * half) == 2 * (t * half)) by (nonlinear_arith);
        assert((2 * (t * half) + k) % 2 == k % 2);
    }
    float::lemma_units_parts(z, p);
    let f = float::significand(z, p);
    let e = float::scale(z, p);
    if e >= t {
        let j = f * pow2((e - t) as nat);
        lemma_pow2_adds((e - t) as nat, t);
        assert(float::units(z, p) == j * g) by {
            lemma_mul_is_associative(f as int, pow2((e - t) as nat) as int, g as int);
        }
        assert((j * g) * d == j * u) by (nonlinear_arith)
            requires
                u == d * g,
        ;
        lemma_half_even_near(n, u, j);
        if z != r && j == k {
            if z < r {
                float::lemma_units_ordered(z, r, p);
            } else {
                float::lemma_units_ordered(r, z, p);
            }
        }
    } else {
        let b = pow2((p + t) as nat);
        lemma_pow2_adds(p, t);
        lemma_half_even_near(n, u, pow2(p));
        assert(pow2(p) * u == b * d) by (nonlinear_arith)
            requires
                u == d * g,
                b == pow2(p) * g,
        ;
        lemma_pow2_unfold(t);
        arith::lemma_pow2_ordered(e, (t - 1) as nat);
        let s = pow2(e);
        let h = pow2((t - 1) as nat);
        let b0 = pow2(p);
        assert(f * s < b) by (nonlinear_arith)
            requires
                f < 2 * b0,
                0 < s <= h,
                b == b0 * g,
                g == 2 * h,
        ;
        let v = float::units(z, p);
        assert(v * d < b * d) by (nonlinear_arith)
            requires
                v < b,
                d > 0,
        ;
    }
}

/// The same with infinity as the greatest pattern.
proof fn lemma_capped_nearest(n: nat, d: nat, z: nat, p: nat)
    requires
        d > 0,
        p == 23 || p == 52,
        z <= arith::infinity(p),
    ensures
        ({
            let r = arith::capped(arith::ratio_pattern(n, d, p), p);
            let here = apart((float::units(r, p) * d) as int, n as int);
            let there = apart((float::units(z, p) * d) as int, n as int);
            &&& r <= arith::infinity(p)
            &&& here <= there
            &&& z != r && here == there ==> r % 2 == 0
        }),
{
    let r = arith::ratio_pattern(n, d, p);
    let i = arith::infinity(p);
    lemma_ratio_nearest(n, d, z, p);
    if r > i {
        lemma_ratio_nearest(n, d, i, p);
        float::lemma_units_ordered(i, r, p);
        let (a, b, c) = (float::units(z, p), float::units(i, p), float::units(r, p));
        assert(b * d < c * d) by (nonlinear_arith)
            requires
                b < c,
                d > 0,
        ;
        if z < i {
            float::lemma_units_ordered(z, i, p);
            assert(a * d < b * d) by (nonlinear_arith)
                requires
                    a < b,
                    d > 0,
            ;
        }
    }
}

/// A number of units times a power of two rounds as a ratio does.
pub proof fn lemma_pattern_is_ratio(n: nat, j: nat, p: nat)
    requires
        n > 0,
    ensures
        float::pattern(n, -(j as int), p) == arith::ratio_pattern(n, pow2(j), p),
        float::pattern(n, j as int, p) == arith::ratio_pattern(n * pow2(j), 1, p),
{
    arith::lemma_width_cut(n, j);
    let t = float::grain(n, -(j as int), p);
    assert(t == arith::ratio_grain(n, pow2(j), p));
    lemma_pow2_adds(j, t as nat);
    lemma2_to64();
    if j == 0 && t == 0 {
        lemma_mul_basics(n as int);
        lemma_div_basics(n as int);
        arith::lemma_half_even_exact(n, 1);
    }
    arith::lemma_pattern_scale(n, j, 0, p);
    let m = n * pow2(j);
    let h = float::grain(m, 0, p);
    lemma_div_basics(m as int);
    assert(h == arith::ratio_grain(m, 1, p));
    lemma_mul_basics(pow2(h as nat) as int);
    lemma_mul_basics(m as int);
    if h == 0 {
        arith::lemma_half_even_exact(m, 1);
    }
}

// Numbers with a sign.

/// Whether a number is as near to `n / d` units as one of its format can be, even where two are
/// as near, and on the same side of zero.
pub open spec fn closest(x: bool, m: nat, n: int, d: int, p: nat) -> bool {
    &&& m <= arith::infinity(p)
    &&& n != 0 ==> x == (n < 0)
    &&& forall|y: bool, z: nat|
        z <= arith::infinity(p) ==> apart(arith::worth(x, m, p) * d, n) <= apart(
            #[trigger] arith::worth(y, z, p) * d,
            n,
        )
    &&& forall|y: bool, z: nat|
        z <= arith::infinity(p) && z != m && apart(arith::worth(x, m, p) * d, n) == apart(
            #[trigger] arith::worth(y, z, p) * d,
            n,
        ) ==> m % 2 == 0
}

pub proof fn lemma_units_zero(p: nat)
    ensures
        float::units(0, p) == 0,
{
    lemma_pow2_pos(p);
    lemma_div_of0(pow2(p) as int);
    lemma_small_mod(0, pow2(p));
}

/// A ratio with a sign.
pub proof fn lemma_closest(n: int, d: nat, p: nat)
    requires
        d > 0,
        p == 23 || p == 52,
    ensures
        closest(
            n < 0,
            arith::capped(arith::ratio_pattern(float::absolute(n), d, p), p),
            n,
            d as int,
            p,
        ),
{
    let a = float::absolute(n);
    let x = n < 0;
    let m = arith::capped(arith::ratio_pattern(a, d, p), p);
    let near = (float::units(m, p) * d) as int;
    lemma_capped_nearest(a, d, 0, p);
    lemma_units_zero(p);
    assert(arith::worth(x, m, p) * d == float::signed(x, near)) by (nonlinear_arith)
        requires
            arith::worth(x, m, p) == float::signed(x, float::units(m, p) as int),
            near == float::units(m, p) * d,
            float::signed(x, near) == if x { -near } else { near },
            float::signed(x, float::units(m, p) as int) == if x {
                -(float::units(m, p) as int)
            } else {
                float::units(m, p) as int
            },
    ;
    assert(apart(arith::worth(x, m, p) * d, n) == apart(near, a as int));
    assert forall|y: bool, z: nat| z <= arith::infinity(p) implies apart(
        arith::worth(x, m, p) * d,
        n,
    ) <= apart(#[trigger] arith::worth(y, z, p) * d, n) && (z != m && apart(
        arith::worth(x, m, p) * d,
        n,
    ) == apart(arith::worth(y, z, p) * d, n) ==> m % 2 == 0) by {
        lemma_capped_nearest(a, d, z, p);
        let far = (float::units(z, p) * d) as int;
        assert(far >= 0) by (nonlinear_arith)
            requires
                far == float::units(z, p) * d,
                float::units(z, p) >= 0,
                d > 0,
        ;
        assert(arith::worth(y, z, p) * d == float::signed(y, far)) by (nonlinear_arith)
            requires
                arith::worth(y, z, p) == float::signed(y, float::units(z, p) as int),
                far == float::units(z, p) * d,
                float::signed(y, far) == if y { -far } else { far },
                float::signed(y, float::units(z, p) as int) == if y {
                    -(float::units(z, p) as int)
                } else {
                    float::units(z, p) as int
                },
        ;
        assert(apart(far, a as int) <= apart(float::signed(y, far), n));
    }
}

/// Zero is exactly zero.
pub proof fn lemma_closest_zero(x: bool, d: nat, p: nat)
    requires
        d > 0,
        p == 23 || p == 52,
    ensures
        closest(x, 0, 0, d as int, p),
{
    lemma_units_zero(p);
    assert(arith::worth(x, 0, p) == 0);
    assert(0 * d == 0) by (nonlinear_arith);
}

// What the operations give.

/// Whether a number is neither infinite nor NaN.
pub open spec fn finite(m: nat, p: nat) -> bool {
    m < arith::infinity(p)
}

pub proof fn lemma_ratio_of_whole(s: int, p: nat)
    requires
        s != 0,
    ensures
        float::pattern(float::absolute(s), 0, p) == arith::ratio_pattern(
            float::absolute(s),
            1,
            p,
        ),
{
    lemma_pattern_is_ratio(float::absolute(s), 0, p);
    lemma2_to64();
}

proof fn lemma_sum(x: bool, m: nat, y: bool, n: nat, p: nat)
    requires
        p == 23 || p == 52,
        finite(m, p),
        finite(n, p),
    ensures
        ({
            let r = arith::sum(x, m, y, n, p);
            closest(r.0, r.1, arith::worth(x, m, p) + arith::worth(y, n, p), 1, p)
        }),
{
    let s = arith::worth(x, m, p) + arith::worth(y, n, p);
    if s == 0 {
        lemma_closest_zero(x && y, 1, p);
    } else {
        lemma_ratio_of_whole(s, p);
        lemma_closest(s, 1, p);
    }
}

proof fn lemma_signs(x: bool, a: nat, y: bool, b: nat)
    ensures
        float::signed(x, a as int) * float::signed(y, b as int) == float::signed(
            x != y,
            (a * b) as int,
        ),
{
    assert((-(a as int)) * (b as int) == -(a * b)) by (nonlinear_arith);
    assert((a as int) * (-(b as int)) == -(a * b)) by (nonlinear_arith);
    assert((-(a as int)) * (-(b as int)) == a * b) by (nonlinear_arith);
}

pub proof fn lemma_worthless(m: nat, p: nat)
    ensures
        (float::units(m, p) == 0) == (m == 0),
{
    lemma_units_zero(p);
    if m > 0 {
        float::lemma_units_ordered(0, m, p);
    }
}

proof fn lemma_product(x: bool, m: nat, y: bool, n: nat, p: nat)
    requires
        p == 23 || p == 52,
        finite(m, p),
        finite(n, p),
    ensures
        ({
            let r = arith::product(x, m, y, n, p);
            &&& closest(
                r.0,
                r.1,
                arith::worth(x, m, p) * arith::worth(y, n, p),
                pow2(arith::one(p)) as int,
                p,
            )
            &&& r.0 == (x != y)
        }),
{
    let (a, b) = (float::units(m, p), float::units(n, p));
    lemma_signs(x, a, y, b);
    lemma_worthless(m, p);
    lemma_worthless(n, p);
    lemma_pow2_pos(arith::one(p));
    if m == 0 || n == 0 {
        assert(a * b == 0) by (nonlinear_arith)
            requires
                a == 0 || b == 0,
        ;
        lemma_closest_zero(x != y, pow2(arith::one(p)), p);
    } else {
        assert(a * b > 0) by (nonlinear_arith)
            requires
                a > 0,
                b > 0,
        ;
        let s = float::signed(x != y, (a * b) as int);
        assert(float::absolute(s) == a * b);
        lemma_pattern_is_ratio(a * b, arith::one(p), p);
        lemma_closest(s, pow2(arith::one(p)), p);
    }
}

proof fn lemma_quotient(x: bool, m: nat, y: bool, n: nat, p: nat)
    requires
        p == 23 || p == 52,
        finite(m, p),
        finite(n, p),
        n > 0,
    ensures
        ({
            let r = arith::quotient(x, m, y, n, p);
            &&& closest(
                r.0,
                r.1,
                float::signed(y, arith::worth(x, m, p) * pow2(arith::one(p))),
                float::units(n, p) as int,
                p,
            )
            &&& r.0 == (x != y)
        }),
{
    let (a, b) = (float::units(m, p), float::units(n, p));
    lemma_worthless(m, p);
    lemma_worthless(n, p);
    let o = pow2(arith::one(p));
    lemma_pow2_pos(arith::one(p));
    assert((-(a as int)) * o == -(a * o)) by (nonlinear_arith);
    if m == 0 {
        assert(0 * o == 0) by (nonlinear_arith);
        lemma_closest_zero(x != y, b, p);
    } else {
        assert(a * o > 0) by (nonlinear_arith)
            requires
                a > 0,
                o > 0,
        ;
        let s = float::signed(x != y, (a * o) as int);
        assert(s == float::signed(y, arith::worth(x, m, p) * o));
        assert(float::absolute(s) == a * o);
        lemma_closest(s, b, p);
    }
}

/// A remainder is exact: it has the sign of the dividend, is smaller than the divisor, and a
/// multiple of the divisor away from the dividend.
proof fn lemma_remainder(x: bool, m: nat, n: nat, p: nat)
    requires
        p == 23 || p == 52,
        finite(m, p),
        finite(n, p),
        n > 0,
    ensures
        ({
            let r = arith::remainder(x, m, n, p);
            &&& r.0 == x
            &&& r.1 < arith::infinity(p)
            &&& float::units(r.1, p) == float::units(m, p) % float::units(n, p)
        }),
{
    let (a, b) = (float::units(m, p), float::units(n, p));
    lemma_worthless(n, p);
    lemma_mod_bound(a as int, b as int);
    let v = a % b;
    let q = float::pattern(v, 0, p);
    if v == 0 {
        lemma_units_zero(p);
        assert(float::width(0) == 0);
        assert(0 * pow2(p) == 0) by (nonlinear_arith);
        assert(0 * pow2(0) == 0) by (nonlinear_arith);
        assert(q == 0);
    } else {
        lemma_exact_remainder(m, n, p);
        if q >= n {
            if q > n {
                float::lemma_units_ordered(n, q, p);
            }
        }
    }
}

/// Digits that stand no lower than those of the smaller of two numbers are kept.
proof fn lemma_exact_remainder(m: nat, n: nat, p: nat)
    requires
        p > 0,
        n > 0,
        float::units(n, p) > 0,
        float::units(m, p) % float::units(n, p) > 0,
    ensures
        ({
            let v = float::units(m, p) % float::units(n, p);
            float::units(float::pattern(v, 0, p), p) == v
        }),
{
    let (a, b) = (float::units(m, p), float::units(n, p));
    let v = a % b;
    lemma_mod_bound(a as int, b as int);
    lemma_fundamental_div_mod(a as int, b as int);
    float::lemma_units_parts(m, p);
    float::lemma_units_parts(n, p);
    let e = float::scale(m, p);
    let f = float::scale(n, p);
    let low = if e < f {
        e
    } else {
        f
    };
    let g = pow2(low);
    lemma_pow2_pos(low);
    let i = float::significand(m, p) * pow2((e - low) as nat);
    let j = float::significand(n, p) * pow2((f - low) as nat);
    lemma_pow2_adds((e - low) as nat, low);
    lemma_pow2_adds((f - low) as nat, low);
    lemma_mul_is_associative(
        float::significand(m, p) as int,
        pow2((e - low) as nat) as int,
        g as int,
    );
    lemma_mul_is_associative(
        float::significand(n, p) as int,
        pow2((f - low) as nat) as int,
        g as int,
    );
    assert(a == i * g && b == j * g);
    assert(j > 0) by (nonlinear_arith)
        requires
            j * g > 0,
            j >= 0,
    ;
    arith::lemma_mod_scale(i as int, j as int, g as int);
    let w = i % j;
    assert(v == w * g);
    lemma_mod_bound(i as int, j as int);
    assert(w > 0) by (nonlinear_arith)
        requires
            w * g > 0,
            w >= 0,
    ;
    assert(w < 2 * pow2(p)) by {
        if low == f {
            lemma2_to64();
            lemma_mul_basics(float::significand(n, p) as int);
        } else {
            lemma2_to64();
            lemma_mul_basics(float::significand(m, p) as int);
            if i < j {
                lemma_small_mod(i, j);
            } else {
                lemma_fundamental_div_mod(i as int, j as int);
                assert(w <= i) by (nonlinear_arith)
                    requires
                        i == j * (i as int / j as int) + w,
                        i as int / j as int >= 0,
                        j > 0,
                {
                    lemma_div_pos_is_pos(i as int, j as int);
                }
            }
        }
    }
    crate::laws::numbers::a_short_number_is_exact(w, low as int, p);
    arith::lemma_pattern_scale(w, low, 0, p);
}

// Singles.

/// Whether no single is nearer to `n / d` units than this one. It is even where two are as near,
/// and lies on the same side of zero.
pub open spec fn closest_single(r: u32, n: int, d: int) -> bool {
    &&& !float::single_nan(r)
    &&& n != 0 ==> (r >= 0x8000_0000) == (n < 0)
    &&& forall|z: u32|
        !float::single_nan(z) ==> apart(float::single_worth(r) * d, n) <= apart(
            #[trigger] float::single_worth(z) * d,
            n,
        )
    &&& forall|z: u32|
        !float::single_nan(z) && z % 0x8000_0000 != r % 0x8000_0000 && apart(
            float::single_worth(r) * d,
            n,
        ) == apart(#[trigger] float::single_worth(z) * d, n) ==> r % 2 == 0
}

/// Whether a single is neither infinite nor NaN.
pub open spec fn finite_single(b: u32) -> bool {
    b % 0x8000_0000 < 0x7f80_0000
}

pub proof fn lemma_closest_single(x: bool, m: nat, n: int, d: int)
    requires
        closest(x, m, n, d, 23),
    ensures
        closest_single(float::single_bits(x, m), n, d),
        float::single_negative(float::single_bits(x, m)) == x,
        float::single_magnitude(float::single_bits(x, m)) == m,
{
    let r = float::single_bits(x, m);
    assert(float::single_negative(r) == x && float::single_magnitude(r) == m);
    assert(float::single_worth(r) == arith::worth(x, m, 23));
    assert forall|z: u32| !float::single_nan(z) implies apart(float::single_worth(r) * d, n)
        <= apart(#[trigger] float::single_worth(z) * d, n) by {
        assert(float::single_worth(z) == arith::worth(
            float::single_negative(z),
            float::single_magnitude(z),
            23,
        ));
    }
    assert forall|z: u32| !float::single_nan(z) && z % 0x8000_0000 != r % 0x8000_0000 && apart(
        float::single_worth(r) * d,
        n,
    ) == apart(#[trigger] float::single_worth(z) * d, n) implies r % 2 == 0 by {
        assert(float::single_worth(z) == arith::worth(
            float::single_negative(z),
            float::single_magnitude(z),
            23,
        ));
    }
}

/// Where the exact result is a single, the closest one is worth just that.
pub proof fn the_closest_single_is_exact(r: u32, n: int, d: int, z: u32)
    requires
        closest_single(r, n, d),
        !float::single_nan(z),
        float::single_worth(z) * d == n,
    ensures
        float::single_worth(r) * d == n,
{
}

/// What a single is worth stands in its bits: a sign, an exponent and a fraction. One is
/// `2^149` units.
pub proof fn the_worth_of_a_single(negative: bool, exponent: nat, fraction: nat)
    requires
        exponent <= 255,
        fraction < pow2(23),
    ensures
        ({
            let b = ((if negative {
                0x8000_0000
            } else {
                0int
            }) + exponent * pow2(23) + fraction) as u32;
            let units = if exponent == 0 {
                fraction as int
            } else {
                ((pow2(23) + fraction) * pow2((exponent - 1) as nat)) as int
            };
            &&& float::single_worth(b) == if negative {
                -units
            } else {
                units
            }
            &&& float::single_nan(b) <==> exponent == 255 && fraction > 0
        }),
        float::single_worth(0x3f80_0000) == pow2(149),
{
    lemma2_to64();
    lemma2_to64_rest();
    let b = pow2(23) as int;
    let m = exponent * pow2(23) + fraction;
    assert(exponent * pow2(23) <= 255 * pow2(23)) by (nonlinear_arith)
        requires
            exponent <= 255,
    ;
    lemma_fundamental_div_mod_converse(m as int, b, exponent as int, fraction as int);
    if exponent < 255 {
        assert(exponent * pow2(23) <= (255 - 1) * pow2(23)) by (nonlinear_arith)
            requires
                exponent <= 255 - 1,
        ;
    }
    lemma_pow2_adds(23, 126);
}

/// The sum of two finite singles is the single nearest to the exact sum.
pub proof fn the_sum_of_singles_is_closest(a: u32, b: u32)
    requires
        finite_single(a),
        finite_single(b),
    ensures
        closest_single(
            arith::single_sum(a, b),
            float::single_worth(a) + float::single_worth(b),
            1,
        ),
        float::single_worth(a) + float::single_worth(b) == 0 ==> (arith::single_sum(a, b) == if a
            >= 0x8000_0000 && b >= 0x8000_0000 {
            0x8000_0000u32
        } else {
            0
        }),
{
    let (x, m) = (float::single_negative(a), float::single_magnitude(a));
    let (y, n) = (float::single_negative(b), float::single_magnitude(b));
    lemma_sum(x, m, y, n, 23);
    let r = arith::sum(x, m, y, n, 23);
    lemma_closest_single(r.0, r.1, float::single_worth(a) + float::single_worth(b), 1);
}

/// The negative of a single has the other sign and the same size; taking it twice changes
/// nothing.
pub proof fn the_negative_of_a_single(b: u32)
    ensures
        float::single_worth(float::single_minus(b)) == -float::single_worth(b),
        (float::single_minus(b) >= 0x8000_0000) != (b >= 0x8000_0000),
        float::single_minus(b) % 0x8000_0000 == b % 0x8000_0000,
        float::single_minus(float::single_minus(b)) == b,
{
}

/// The difference of two finite singles is the single nearest to the exact difference.
pub proof fn the_difference_of_singles_is_closest(a: u32, b: u32)
    requires
        finite_single(a),
        finite_single(b),
    ensures
        closest_single(
            arith::single_difference(a, b),
            float::single_worth(a) - float::single_worth(b),
            1,
        ),
{
    the_negative_of_a_single(b);
    the_sum_of_singles_is_closest(a, float::single_minus(b));
}

/// The product of two finite singles is the single nearest to the exact product, and has a sign
/// where one factor has.
pub proof fn the_product_of_singles_is_closest(a: u32, b: u32)
    requires
        finite_single(a),
        finite_single(b),
    ensures
        closest_single(
            arith::single_product(a, b),
            float::single_worth(a) * float::single_worth(b),
            pow2(149) as int,
        ),
        (arith::single_product(a, b) >= 0x8000_0000) == ((a >= 0x8000_0000) != (b >= 0x8000_0000)),
{
    let (x, m) = (float::single_negative(a), float::single_magnitude(a));
    let (y, n) = (float::single_negative(b), float::single_magnitude(b));
    lemma_product(x, m, y, n, 23);
    let r = arith::product(x, m, y, n, 23);
    lemma_closest_single(
        r.0,
        r.1,
        float::single_worth(a) * float::single_worth(b),
        pow2(149) as int,
    );
}

/// The quotient of two finite singles is the single nearest to the exact quotient, and has a sign
/// where one of them has.
pub proof fn the_quotient_of_singles_is_closest(a: u32, b: u32)
    requires
        finite_single(a),
        finite_single(b),
        float::single_worth(b) != 0,
    ensures
        float::single_worth(b) > 0 ==> closest_single(
            arith::single_quotient(a, b),
            float::single_worth(a) * pow2(149),
            float::single_worth(b),
        ),
        float::single_worth(b) < 0 ==> closest_single(
            arith::single_quotient(a, b),
            -(float::single_worth(a) * pow2(149)),
            -float::single_worth(b),
        ),
        (arith::single_quotient(a, b) >= 0x8000_0000) == ((a >= 0x8000_0000) != (b >= 0x8000_0000)),
{
    let (x, m) = (float::single_negative(a), float::single_magnitude(a));
    let (y, n) = (float::single_negative(b), float::single_magnitude(b));
    lemma_worthless(n, 23);
    lemma_quotient(x, m, y, n, 23);
    let r = arith::quotient(x, m, y, n, 23);
    lemma_closest_single(
        r.0,
        r.1,
        float::signed(y, float::single_worth(a) * pow2(149)),
        float::units(n, 23) as int,
    );
}

/// The remainder of two finite singles is exact: it has the sign of the dividend, is smaller than
/// the divisor, and differs from the dividend by a multiple of the divisor.
pub proof fn the_remainder_of_singles_is_exact(a: u32, b: u32)
    requires
        finite_single(a),
        finite_single(b),
        float::single_worth(b) != 0,
    ensures
        ({
            let r = arith::single_remainder(a, b);
            &&& finite_single(r)
            &&& (r >= 0x8000_0000) == (a >= 0x8000_0000)
            &&& apart(float::single_worth(r), 0) < apart(float::single_worth(b), 0)
            &&& (float::single_worth(a) - float::single_worth(r)) % apart(
                float::single_worth(b),
                0,
            ) == 0
        }),
{
    let (x, m) = (float::single_negative(a), float::single_magnitude(a));
    let n = float::single_magnitude(b);
    lemma_worthless(n, 23);
    lemma_remainder(x, m, n, 23);
    let r = arith::single_remainder(a, b);
    let (u, v) = (float::units(m, 23) as int, float::units(n, 23) as int);
    lemma_fundamental_div_mod(u, v);
    lemma_mod_bound(u, v);
    assert(float::single_negative(r) == x);
    let k = u / v;
    assert(u - u % v == k * v + 0) by (nonlinear_arith)
        requires
            u == v * k + u % v,
    ;
    assert(-(u - u % v) == (-k) * v + 0) by (nonlinear_arith)
        requires
            u - u % v == k * v + 0,
    ;
    lemma_fundamental_div_mod_converse(u - u % v, v, k, 0);
    lemma_fundamental_div_mod_converse(-(u - u % v), v, -k, 0);
}

/// What comes of singles that are not finite: NaN of NaN and of what has no result, and infinity
/// where a result is past all numbers.
pub proof fn singles_that_are_not_finite(a: u32, b: u32)
    ensures
        float::single_nan(a) || float::single_nan(b) ==> {
            &&& float::single_nan(arith::single_sum(a, b))
            &&& float::single_nan(arith::single_difference(a, b))
            &&& float::single_nan(arith::single_product(a, b))
            &&& float::single_nan(arith::single_quotient(a, b))
            &&& float::single_nan(arith::single_remainder(a, b))
        },
        !float::single_nan(a) && !float::single_nan(b) && !finite_single(a) ==> {
            &&& finite_single(b) || (a >= 0x8000_0000) == (b >= 0x8000_0000) ==> arith::single_sum(a, b) == a
            &&& finite_single(b) || (a >= 0x8000_0000) != (b >= 0x8000_0000) ==> arith::single_difference(
                a,
                b,
            ) == a
            &&& !finite_single(b) && (a >= 0x8000_0000) != (b >= 0x8000_0000) ==> float::single_nan(
                arith::single_sum(a, b),
            )
            &&& !finite_single(b) && (a >= 0x8000_0000) == (b >= 0x8000_0000) ==> float::single_nan(
                arith::single_difference(a, b),
            )
            &&& b % 0x8000_0000 == 0 ==> float::single_nan(arith::single_product(a, b))
            &&& b % 0x8000_0000 != 0 ==> arith::single_product(a, b) == if (a >= 0x8000_0000) != (b
                >= 0x8000_0000) {
                (0x7f80_0000 + 0x8000_0000) as u32
            } else {
                0x7f80_0000
            }
            &&& !finite_single(b) ==> float::single_nan(arith::single_quotient(a, b))
            &&& finite_single(b) ==> arith::single_quotient(a, b) == if (a >= 0x8000_0000) != (b
                >= 0x8000_0000) {
                (0x7f80_0000 + 0x8000_0000) as u32
            } else {
                0x7f80_0000
            }
            &&& float::single_nan(arith::single_remainder(a, b))
        },
        finite_single(a) && !float::single_nan(b) && !finite_single(b) ==> {
            &&& arith::single_sum(a, b) == b
            &&& arith::single_difference(a, b) == float::single_minus(b)
            &&& arith::single_product(a, b) == arith::single_product(b, a)
            &&& arith::single_quotient(a, b) % 0x8000_0000 == 0
            &&& (arith::single_quotient(a, b) >= 0x8000_0000) == ((a >= 0x8000_0000) != (b >= 0x8000_0000))
            &&& arith::single_remainder(a, b) == a
        },
        finite_single(a) && b % 0x8000_0000 == 0 ==> {
            &&& float::single_nan(arith::single_remainder(a, b))
            &&& a % 0x8000_0000 == 0 ==> float::single_nan(arith::single_quotient(a, b))
            &&& a % 0x8000_0000 != 0 ==> arith::single_quotient(a, b) == if (a >= 0x8000_0000) != (b
                >= 0x8000_0000) {
                (0x7f80_0000 + 0x8000_0000) as u32
            } else {
                0x7f80_0000
            }
        },
{
}

/// Numbers add and multiply in either order.
pub proof fn singles_commute(a: u32, b: u32)
    ensures
        arith::single_sum(a, b) == arith::single_sum(b, a),
        arith::single_product(a, b) == arith::single_product(b, a),
{
    let m = float::units(float::single_magnitude(a), 23);
    let n = float::units(float::single_magnitude(b), 23);
    lemma_mul_is_commutative(m as int, n as int);
}

/// Half of a finite single and one half together are rounded once, to the nearest single.
pub proof fn a_half_and_a_half_is_closest(a: u32)
    requires
        finite_single(a),
    ensures
        closest_single(
            arith::single_half_and_half(a),
            float::single_worth(a) + pow2(149),
            2,
        ),
{
    let (x, m) = (float::single_negative(a), float::single_magnitude(a));
    let s = arith::worth(x, m, 23) + pow2(149);
    lemma2_to64();
    if s == 0 {
        lemma_closest_zero(false, 2, 23);
        lemma_closest_single(false, 0, 0, 2);
    } else {
        lemma_pattern_is_ratio(float::absolute(s), 1, 23);
        lemma_closest(s, 2, 23);
        let r = arith::half_and_half(x, m, 23);
        lemma_closest_single(r.0, r.1, s, 2);
    }
}

// Doubles.

/// Whether no double is nearer to `n / d` units than this one. It is even where two are as near,
/// and lies on the same side of zero.
pub open spec fn closest_double(r: u64, n: int, d: int) -> bool {
    &&& !float::double_nan(r)
    &&& n != 0 ==> (r >= 0x8000_0000_0000_0000) == (n < 0)
    &&& forall|z: u64|
        !float::double_nan(z) ==> apart(float::double_worth(r) * d, n) <= apart(
            #[trigger] float::double_worth(z) * d,
            n,
        )
    &&& forall|z: u64|
        !float::double_nan(z) && z % 0x8000_0000_0000_0000 != r % 0x8000_0000_0000_0000 && apart(
            float::double_worth(r) * d,
            n,
        ) == apart(#[trigger] float::double_worth(z) * d, n) ==> r % 2 == 0
}

/// Whether a double is neither infinite nor NaN.
pub open spec fn finite_double(b: u64) -> bool {
    b % 0x8000_0000_0000_0000 < 0x7ff0_0000_0000_0000
}

pub proof fn lemma_closest_double(x: bool, m: nat, n: int, d: int)
    requires
        closest(x, m, n, d, 52),
    ensures
        closest_double(float::double_bits(x, m), n, d),
        float::double_negative(float::double_bits(x, m)) == x,
        float::double_magnitude(float::double_bits(x, m)) == m,
{
    let r = float::double_bits(x, m);
    assert(float::double_negative(r) == x && float::double_magnitude(r) == m);
    assert(float::double_worth(r) == arith::worth(x, m, 52));
    assert forall|z: u64| !float::double_nan(z) implies apart(float::double_worth(r) * d, n)
        <= apart(#[trigger] float::double_worth(z) * d, n) by {
        assert(float::double_worth(z) == arith::worth(
            float::double_negative(z),
            float::double_magnitude(z),
            52,
        ));
    }
    assert forall|z: u64| !float::double_nan(z) && z % 0x8000_0000_0000_0000 != r % 0x8000_0000_0000_0000 && apart(
        float::double_worth(r) * d,
        n,
    ) == apart(#[trigger] float::double_worth(z) * d, n) implies r % 2 == 0 by {
        assert(float::double_worth(z) == arith::worth(
            float::double_negative(z),
            float::double_magnitude(z),
            52,
        ));
    }
}

/// Where the exact result is a double, the closest one is worth just that.
pub proof fn the_closest_double_is_exact(r: u64, n: int, d: int, z: u64)
    requires
        closest_double(r, n, d),
        !float::double_nan(z),
        float::double_worth(z) * d == n,
    ensures
        float::double_worth(r) * d == n,
{
}

/// What a double is worth stands in its bits: a sign, an exponent and a fraction. One is
/// `2^1074` units.
pub proof fn the_worth_of_a_double(negative: bool, exponent: nat, fraction: nat)
    requires
        exponent <= 2047,
        fraction < pow2(52),
    ensures
        ({
            let b = ((if negative {
                0x8000_0000_0000_0000
            } else {
                0int
            }) + exponent * pow2(52) + fraction) as u64;
            let units = if exponent == 0 {
                fraction as int
            } else {
                ((pow2(52) + fraction) * pow2((exponent - 1) as nat)) as int
            };
            &&& float::double_worth(b) == if negative {
                -units
            } else {
                units
            }
            &&& float::double_nan(b) <==> exponent == 2047 && fraction > 0
        }),
        float::double_worth(0x3ff0_0000_0000_0000) == pow2(1074),
{
    lemma2_to64();
    lemma2_to64_rest();
    let b = pow2(52) as int;
    let m = exponent * pow2(52) + fraction;
    assert(exponent * pow2(52) <= 2047 * pow2(52)) by (nonlinear_arith)
        requires
            exponent <= 2047,
    ;
    lemma_fundamental_div_mod_converse(m as int, b, exponent as int, fraction as int);
    if exponent < 2047 {
        assert(exponent * pow2(52) <= (2047 - 1) * pow2(52)) by (nonlinear_arith)
            requires
                exponent <= 2047 - 1,
        ;
    }
    lemma_pow2_adds(52, 1022);
}

/// The sum of two finite doubles is the double nearest to the exact sum.
pub proof fn the_sum_of_doubles_is_closest(a: u64, b: u64)
    requires
        finite_double(a),
        finite_double(b),
    ensures
        closest_double(
            arith::double_sum(a, b),
            float::double_worth(a) + float::double_worth(b),
            1,
        ),
        float::double_worth(a) + float::double_worth(b) == 0 ==> (arith::double_sum(a, b) == if a
            >= 0x8000_0000_0000_0000 && b >= 0x8000_0000_0000_0000 {
            0x8000_0000_0000_0000u64
        } else {
            0
        }),
{
    let (x, m) = (float::double_negative(a), float::double_magnitude(a));
    let (y, n) = (float::double_negative(b), float::double_magnitude(b));
    lemma_sum(x, m, y, n, 52);
    let r = arith::sum(x, m, y, n, 52);
    lemma_closest_double(r.0, r.1, float::double_worth(a) + float::double_worth(b), 1);
}

/// The negative of a double has the other sign and the same size; taking it twice changes
/// nothing.
pub proof fn the_negative_of_a_double(b: u64)
    ensures
        float::double_worth(float::double_minus(b)) == -float::double_worth(b),
        (float::double_minus(b) >= 0x8000_0000_0000_0000) != (b >= 0x8000_0000_0000_0000),
        float::double_minus(b) % 0x8000_0000_0000_0000 == b % 0x8000_0000_0000_0000,
        float::double_minus(float::double_minus(b)) == b,
{
}

/// The difference of two finite doubles is the double nearest to the exact difference.
pub proof fn the_difference_of_doubles_is_closest(a: u64, b: u64)
    requires
        finite_double(a),
        finite_double(b),
    ensures
        closest_double(
            arith::double_difference(a, b),
            float::double_worth(a) - float::double_worth(b),
            1,
        ),
{
    the_negative_of_a_double(b);
    the_sum_of_doubles_is_closest(a, float::double_minus(b));
}

/// The product of two finite doubles is the double nearest to the exact product, and has a sign
/// where one factor has.
pub proof fn the_product_of_doubles_is_closest(a: u64, b: u64)
    requires
        finite_double(a),
        finite_double(b),
    ensures
        closest_double(
            arith::double_product(a, b),
            float::double_worth(a) * float::double_worth(b),
            pow2(1074) as int,
        ),
        (arith::double_product(a, b) >= 0x8000_0000_0000_0000) == ((a >= 0x8000_0000_0000_0000) != (b >= 0x8000_0000_0000_0000)),
{
    let (x, m) = (float::double_negative(a), float::double_magnitude(a));
    let (y, n) = (float::double_negative(b), float::double_magnitude(b));
    lemma_product(x, m, y, n, 52);
    let r = arith::product(x, m, y, n, 52);
    lemma_closest_double(
        r.0,
        r.1,
        float::double_worth(a) * float::double_worth(b),
        pow2(1074) as int,
    );
}

/// The quotient of two finite doubles is the double nearest to the exact quotient, and has a sign
/// where one of them has.
pub proof fn the_quotient_of_doubles_is_closest(a: u64, b: u64)
    requires
        finite_double(a),
        finite_double(b),
        float::double_worth(b) != 0,
    ensures
        float::double_worth(b) > 0 ==> closest_double(
            arith::double_quotient(a, b),
            float::double_worth(a) * pow2(1074),
            float::double_worth(b),
        ),
        float::double_worth(b) < 0 ==> closest_double(
            arith::double_quotient(a, b),
            -(float::double_worth(a) * pow2(1074)),
            -float::double_worth(b),
        ),
        (arith::double_quotient(a, b) >= 0x8000_0000_0000_0000) == ((a >= 0x8000_0000_0000_0000) != (b >= 0x8000_0000_0000_0000)),
{
    let (x, m) = (float::double_negative(a), float::double_magnitude(a));
    let (y, n) = (float::double_negative(b), float::double_magnitude(b));
    lemma_worthless(n, 52);
    lemma_quotient(x, m, y, n, 52);
    let r = arith::quotient(x, m, y, n, 52);
    lemma_closest_double(
        r.0,
        r.1,
        float::signed(y, float::double_worth(a) * pow2(1074)),
        float::units(n, 52) as int,
    );
}

/// The remainder of two finite doubles is exact: it has the sign of the dividend, is smaller than
/// the divisor, and differs from the dividend by a multiple of the divisor.
pub proof fn the_remainder_of_doubles_is_exact(a: u64, b: u64)
    requires
        finite_double(a),
        finite_double(b),
        float::double_worth(b) != 0,
    ensures
        ({
            let r = arith::double_remainder(a, b);
            &&& finite_double(r)
            &&& (r >= 0x8000_0000_0000_0000) == (a >= 0x8000_0000_0000_0000)
            &&& apart(float::double_worth(r), 0) < apart(float::double_worth(b), 0)
            &&& (float::double_worth(a) - float::double_worth(r)) % apart(
                float::double_worth(b),
                0,
            ) == 0
        }),
{
    let (x, m) = (float::double_negative(a), float::double_magnitude(a));
    let n = float::double_magnitude(b);
    lemma_worthless(n, 52);
    lemma_remainder(x, m, n, 52);
    let r = arith::double_remainder(a, b);
    let (u, v) = (float::units(m, 52) as int, float::units(n, 52) as int);
    lemma_fundamental_div_mod(u, v);
    lemma_mod_bound(u, v);
    assert(float::double_negative(r) == x);
    let k = u / v;
    assert(u - u % v == k * v + 0) by (nonlinear_arith)
        requires
            u == v * k + u % v,
    ;
    assert(-(u - u % v) == (-k) * v + 0) by (nonlinear_arith)
        requires
            u - u % v == k * v + 0,
    ;
    lemma_fundamental_div_mod_converse(u - u % v, v, k, 0);
    lemma_fundamental_div_mod_converse(-(u - u % v), v, -k, 0);
}

/// What comes of doubles that are not finite: NaN of NaN and of what has no result, and infinity
/// where a result is past all numbers.
pub proof fn doubles_that_are_not_finite(a: u64, b: u64)
    ensures
        float::double_nan(a) || float::double_nan(b) ==> {
            &&& float::double_nan(arith::double_sum(a, b))
            &&& float::double_nan(arith::double_difference(a, b))
            &&& float::double_nan(arith::double_product(a, b))
            &&& float::double_nan(arith::double_quotient(a, b))
            &&& float::double_nan(arith::double_remainder(a, b))
        },
        !float::double_nan(a) && !float::double_nan(b) && !finite_double(a) ==> {
            &&& finite_double(b) || (a >= 0x8000_0000_0000_0000) == (b >= 0x8000_0000_0000_0000) ==> arith::double_sum(a, b) == a
            &&& finite_double(b) || (a >= 0x8000_0000_0000_0000) != (b >= 0x8000_0000_0000_0000) ==> arith::double_difference(
                a,
                b,
            ) == a
            &&& !finite_double(b) && (a >= 0x8000_0000_0000_0000) != (b >= 0x8000_0000_0000_0000) ==> float::double_nan(
                arith::double_sum(a, b),
            )
            &&& !finite_double(b) && (a >= 0x8000_0000_0000_0000) == (b >= 0x8000_0000_0000_0000) ==> float::double_nan(
                arith::double_difference(a, b),
            )
            &&& b % 0x8000_0000_0000_0000 == 0 ==> float::double_nan(arith::double_product(a, b))
            &&& b % 0x8000_0000_0000_0000 != 0 ==> arith::double_product(a, b) == if (a >= 0x8000_0000_0000_0000) != (b
                >= 0x8000_0000_0000_0000) {
                (0x7ff0_0000_0000_0000 + 0x8000_0000_0000_0000) as u64
            } else {
                0x7ff0_0000_0000_0000
            }
            &&& !finite_double(b) ==> float::double_nan(arith::double_quotient(a, b))
            &&& finite_double(b) ==> arith::double_quotient(a, b) == if (a >= 0x8000_0000_0000_0000) != (b
                >= 0x8000_0000_0000_0000) {
                (0x7ff0_0000_0000_0000 + 0x8000_0000_0000_0000) as u64
            } else {
                0x7ff0_0000_0000_0000
            }
            &&& float::double_nan(arith::double_remainder(a, b))
        },
        finite_double(a) && !float::double_nan(b) && !finite_double(b) ==> {
            &&& arith::double_sum(a, b) == b
            &&& arith::double_difference(a, b) == float::double_minus(b)
            &&& arith::double_product(a, b) == arith::double_product(b, a)
            &&& arith::double_quotient(a, b) % 0x8000_0000_0000_0000 == 0
            &&& (arith::double_quotient(a, b) >= 0x8000_0000_0000_0000) == ((a >= 0x8000_0000_0000_0000) != (b >= 0x8000_0000_0000_0000))
            &&& arith::double_remainder(a, b) == a
        },
        finite_double(a) && b % 0x8000_0000_0000_0000 == 0 ==> {
            &&& float::double_nan(arith::double_remainder(a, b))
            &&& a % 0x8000_0000_0000_0000 == 0 ==> float::double_nan(arith::double_quotient(a, b))
            &&& a % 0x8000_0000_0000_0000 != 0 ==> arith::double_quotient(a, b) == if (a >= 0x8000_0000_0000_0000) != (b
                >= 0x8000_0000_0000_0000) {
                (0x7ff0_0000_0000_0000 + 0x8000_0000_0000_0000) as u64
            } else {
                0x7ff0_0000_0000_0000
            }
        },
{
}

/// Numbers add and multiply in either order.
pub proof fn doubles_commute(a: u64, b: u64)
    ensures
        arith::double_sum(a, b) == arith::double_sum(b, a),
        arith::double_product(a, b) == arith::double_product(b, a),
{
    let m = float::units(float::double_magnitude(a), 52);
    let n = float::units(float::double_magnitude(b), 52);
    lemma_mul_is_commutative(m as int, n as int);
}

} // verus!
