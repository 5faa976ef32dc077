//! Arithmetic on binary floating-point numbers, done in integers.
//!
//! Every operation takes the exact result, counted in units, and rounds it once: to the
//! nearest pattern, and to the even one of two as near. A number is a sign and an unsigned
//! pattern; `p` is 23 for singles and 52 for doubles.

use vstd::arithmetic::div_mod::*;
use vstd::arithmetic::mul::*;
use vstd::arithmetic::power2::*;
use vstd::prelude::*;

use crate::float;

verus! {

pub open spec fn infinity(p: nat) -> nat {
    if p == 23 {
        0x7f80_0000
    } else {
        0x7ff0_0000_0000_0000
    }
}

/// The pattern that stands for every result that is no number.
pub open spec fn quiet(p: nat) -> nat {
    if p == 23 {
        0x7fc0_0000
    } else {
        0x7ff8_0000_0000_0000
    }
}

/// One is `2^one(p)` units.
pub open spec fn one(p: nat) -> nat {
    if p == 23 {
        149
    } else {
        1074
    }
}

pub open spec fn capped(m: nat, p: nat) -> nat {
    float::smaller(m as int, infinity(p) as int) as nat
}

/// How far the last kept digit of `n / d` stands above the unit.
pub open spec fn ratio_grain(n: nat, d: nat, p: nat) -> nat {
    float::larger(0, float::width(n / d) - (p + 1)) as nat
}

/// The pattern nearest to `n / d` units.
pub open spec fn ratio_pattern(n: nat, d: nat, p: nat) -> nat {
    let t = ratio_grain(n, d, p);
    t * pow2(p) + float::half_even(n, d * pow2(t))
}

pub open spec fn worth(negative: bool, m: nat, p: nat) -> int {
    float::signed(negative, float::units(m, p) as int)
}

pub open spec fn sum(x: bool, m: nat, y: bool, n: nat, p: nat) -> (bool, nat) {
    let i = infinity(p);
    if m > i || n > i {
        (false, quiet(p))
    } else if m == i {
        if n == i && x != y {
            (false, quiet(p))
        } else {
            (x, m)
        }
    } else if n == i {
        (y, n)
    } else {
        let s = worth(x, m, p) + worth(y, n, p);
        if s == 0 {
            (x && y, 0)
        } else {
            (s < 0, capped(float::pattern(float::absolute(s), 0, p), p))
        }
    }
}

pub open spec fn product(x: bool, m: nat, y: bool, n: nat, p: nat) -> (bool, nat) {
    let i = infinity(p);
    if m > i || n > i {
        (false, quiet(p))
    } else if m == i || n == i {
        if m == 0 || n == 0 {
            (false, quiet(p))
        } else {
            (x != y, i)
        }
    } else if m == 0 || n == 0 {
        (x != y, 0)
    } else {
        (
            x != y,
            capped(
                float::pattern(float::units(m, p) * float::units(n, p), -(one(p) as int), p),
                p,
            ),
        )
    }
}

pub open spec fn quotient(x: bool, m: nat, y: bool, n: nat, p: nat) -> (bool, nat) {
    let i = infinity(p);
    if m > i || n > i {
        (false, quiet(p))
    } else if m == i {
        if n == i {
            (false, quiet(p))
        } else {
            (x != y, i)
        }
    } else if n == i {
        (x != y, 0)
    } else if n == 0 {
        if m == 0 {
            (false, quiet(p))
        } else {
            (x != y, i)
        }
    } else if m == 0 {
        (x != y, 0)
    } else {
        (
            x != y,
            capped(
                ratio_pattern(float::units(m, p) * pow2(one(p)), float::units(n, p), p),
                p,
            ),
        )
    }
}

/// The remainder of the division that drops the fraction; it has the sign of the dividend.
pub open spec fn remainder(x: bool, m: nat, n: nat, p: nat) -> (bool, nat) {
    let i = infinity(p);
    if m >= i || n > i || n == 0 {
        (false, quiet(p))
    } else if n == i {
        (x, m)
    } else {
        (x, float::pattern(float::units(m, p) % float::units(n, p), 0, p))
    }
}

/// Half of a number, plus one half, rounded once.
pub open spec fn half_and_half(x: bool, m: nat, p: nat) -> (bool, nat) {
    let i = infinity(p);
    if m > i {
        (false, quiet(p))
    } else if m == i {
        (x, m)
    } else {
        let s = worth(x, m, p) + pow2(one(p));
        if s == 0 {
            (false, 0)
        } else {
            (s < 0, capped(float::pattern(float::absolute(s), -1, p), p))
        }
    }
}

pub proof fn lemma_pow2_ordered(a: nat, b: nat)
    requires
        a <= b,
    ensures
        0 < pow2(a) <= pow2(b),
{
    lemma_pow2_pos(a);
    if a < b {
        lemma_pow2_strictly_increases(a, b);
    }
}

pub proof fn lemma_width_scale(n: nat, j: nat)
    requires
        n > 0,
    ensures
        float::width(n * pow2(j)) == float::width(n) + j,
    decreases j,
{
    lemma2_to64();
    if j == 0 {
        lemma_mul_basics(n as int);
    } else {
        lemma_width_scale(n, (j - 1) as nat);
        lemma_pow2_unfold(j);
        lemma_pow2_pos((j - 1) as nat);
        let h = n * pow2((j - 1) as nat);
        assert(n * pow2(j) == 2 * h) by (nonlinear_arith)
            requires
                h == n * pow2((j - 1) as nat),
                pow2(j) == 2 * pow2((j - 1) as nat),
        ;
        assert(h > 0) by (nonlinear_arith)
            requires
                h == n * pow2((j - 1) as nat),
                n > 0,
                pow2((j - 1) as nat) > 0,
        ;
        assert((2 * h) / 2 == h);
    }
}

/// The width of a number whose lowest digits are cut off.
pub proof fn lemma_width_cut(n: nat, j: nat)
    ensures
        float::width(n / pow2(j)) == float::larger(0, float::width(n) - j),
    decreases j,
{
    lemma2_to64();
    if j == 0 {
        lemma_div_basics(n as int);
    } else {
        lemma_width_cut(n, (j - 1) as nat);
        lemma_pow2_unfold(j);
        lemma_pow2_pos((j - 1) as nat);
        let h = n / pow2((j - 1) as nat);
        lemma_div_denominator(n as int, pow2((j - 1) as nat) as int, 2);
        lemma_mul_is_commutative(pow2((j - 1) as nat) as int, 2);
        assert(n / pow2(j) == h / 2);
        assert(h > 0 ==> float::width(h) == 1 + float::width(h / 2));
        assert(float::width(0) == 0);
    }
}

/// A number between two neighbours times a power of two is as wide as the lower one.
proof fn lemma_width_between(n: nat, q: nat, j: nat)
    requires
        q > 0,
        q * pow2(j) <= n < (q + 1) * pow2(j),
    ensures
        float::width(n) == float::width(q) + j,
{
    let c = pow2(j);
    lemma_pow2_pos(j);
    lemma_width_cut(n, j);
    assert(n / c == q) by {
        lemma_mul_is_commutative(q as int, c as int);
        assert((q + 1) * c == q * c + c) by (nonlinear_arith);
        lemma_fundamental_div_mod_converse(n as int, c as int, q as int, n - q * c);
    }
    float::lemma_width(q);
}

/// A ratio rounds as it does with both sides multiplied.
pub proof fn lemma_half_even_scale(n: nat, u: nat, c: nat)
    requires
        u > 0,
        c > 0,
    ensures
        float::half_even(n * c, u * c) == float::half_even(n, u),
        (n * c) / (u * c) == n / u,
{
    let q = n / u;
    let r = n % u;
    lemma_fundamental_div_mod(n as int, u as int);
    lemma_mod_bound(n as int, u as int);
    assert(n * c == (u * c) * q + r * c) by (nonlinear_arith)
        requires
            n == u * q + r,
    ;
    assert(0 <= r * c < u * c) by (nonlinear_arith)
        requires
            0 <= r < u,
            c > 0,
    ;
    lemma_mul_is_commutative((u * c) as int, q as int);
    assert(u * c > 0) by (nonlinear_arith)
        requires
            u > 0,
            c > 0,
    ;
    lemma_fundamental_div_mod_converse((n * c) as int, (u * c) as int, q as int, (r * c) as int);
    assert((2 * (r * c) > u * c) == (2 * r > u)) by (nonlinear_arith)
        requires
            c > 0,
    ;
    assert((2 * (r * c) == u * c) == (2 * r == u)) by (nonlinear_arith)
        requires
            c > 0,
    ;
}

pub proof fn lemma_half_even_exact(n: nat, u: nat)
    requires
        u > 0,
    ensures
        float::half_even(n * u, u) == n,
{
    lemma_mul_is_commutative(n as int, u as int);
    lemma_fundamental_div_mod_converse((n * u) as int, u as int, n as int, 0);
}

/// Digits moved from the number into the power of two change nothing.
pub proof fn lemma_pattern_scale(n: nat, j: nat, s: int, p: nat)
    requires
        n > 0,
    ensures
        float::pattern(n * pow2(j), s, p) == float::pattern(n, s + j, p),
{
    lemma_width_scale(n, j);
    let t = float::grain(n, s + j, p);
    assert(float::grain(n * pow2(j), s, p) == t);
    if s >= t {
        lemma_pow2_adds(j, (s - t) as nat);
        lemma_mul_is_associative(n as int, pow2(j) as int, pow2((s - t) as nat) as int);
    } else if s + j >= t {
        let e = (s + j - t) as nat;
        lemma_pow2_adds(e, (t - s) as nat);
        lemma_pow2_pos((t - s) as nat);
        lemma_mul_is_associative(n as int, pow2(e) as int, pow2((t - s) as nat) as int);
        lemma_half_even_exact(n * pow2(e), pow2((t - s) as nat));
    } else {
        let e = (t - s - j) as nat;
        lemma_pow2_adds(e, j);
        lemma_pow2_pos(e);
        lemma_pow2_pos(j);
        lemma_half_even_scale(n, pow2(e), pow2(j));
    }
}

/// Equal ratios have one pattern.
pub proof fn lemma_ratio_equal(n: nat, d: nat, a: nat, b: nat, p: nat)
    requires
        d > 0,
        b > 0,
        n * b == a * d,
    ensures
        ratio_pattern(n, d, p) == ratio_pattern(a, b, p),
{
    lemma_half_even_scale(n, d, b);
    lemma_half_even_scale(a, b, d);
    lemma_mul_is_commutative(d as int, b as int);
    let t = ratio_grain(n, d, p);
    assert(t == ratio_grain(a, b, p));
    let g = pow2(t);
    lemma_pow2_pos(t);
    assert(d * g > 0 && b * g > 0) by (nonlinear_arith)
        requires
            d > 0,
            b > 0,
            g > 0,
    ;
    lemma_half_even_scale(n, d * g, b);
    lemma_half_even_scale(a, b * g, d);
    assert((d * g) * b == (b * g) * d) by (nonlinear_arith);
}

/// A quotient with one more digit that says whether anything is left rounds as the ratio.
proof fn lemma_sticky_round(q: nat, d: nat, r: nat, h: nat)
    requires
        d > 0,
        r < d,
        h > 0,
        h % 2 == 0,
    ensures
        float::half_even(q * d + r, d * h) == float::half_even(
            2 * q + (if r != 0 {
                1nat
            } else {
                0nat
            }),
            2 * h,
        ),
{
    let b: nat = if r != 0 {
        1
    } else {
        0
    };
    let w = q / h;
    let v = q % h;
    lemma_fundamental_div_mod(q as int, h as int);
    lemma_mod_bound(q as int, h as int);
    let rest = d * v + r;
    assert(q * d + r == (d * h) * w + rest) by (nonlinear_arith)
        requires
            q == h * w + v,
            rest == d * v + r,
    ;
    assert(0 <= rest < d * h) by (nonlinear_arith)
        requires
            0 <= v <= h - 1,
            0 <= r < d,
            rest == d * v + r,
    ;
    assert(d * h > 0) by (nonlinear_arith)
        requires
            d > 0,
            h > 0,
    ;
    lemma_fundamental_div_mod_converse(
        (q * d + r) as int,
        (d * h) as int,
        w as int,
        rest as int,
    );
    assert(2 * q + b == (2 * h) * w + (2 * v + b)) by (nonlinear_arith)
        requires
            q == h * w + v,
    ;
    lemma_fundamental_div_mod_converse(
        (2 * q + b) as int,
        (2 * h) as int,
        w as int,
        (2 * v + b) as int,
    );
    if 2 * v > h {
        assert(2 * rest > d * h) by (nonlinear_arith)
            requires
                2 * v >= h + 1,
                rest == d * v + r,
                d > 0,
        ;
    } else if 2 * v == h {
        assert(2 * rest == d * h + 2 * r) by (nonlinear_arith)
            requires
                2 * v == h,
                rest == d * v + r,
        ;
    } else {
        assert(2 * v <= h - 2);
        assert(2 * rest < d * h) by (nonlinear_arith)
            requires
                2 * v <= h - 2,
                rest == d * v + r,
                r < d,
        ;
    }
}

/// The pattern of a quotient, from enough of its digits and the news of a rest.
proof fn lemma_sticky(a: nat, d: nat, s: int, p: nat)
    requires
        d > 0,
        float::width(a / d) >= p + 2,
    ensures
        ({
            let n = 2 * (a / d) + (if a % d != 0 {
                1nat
            } else {
                0nat
            });
            float::pattern(n, s, p) == if s + 1 >= 0 {
                ratio_pattern(a * pow2((s + 1) as nat), d, p)
            } else {
                ratio_pattern(a, d * pow2((-(s + 1)) as nat), p)
            }
        }),
{
    let q = a / d;
    let r = a % d;
    let b: nat = if r != 0 {
        1
    } else {
        0
    };
    let n = 2 * q + b;
    lemma_fundamental_div_mod(a as int, d as int);
    lemma_mod_bound(a as int, d as int);
    assert(float::width(0) == 0);
    assert(q > 0);
    assert(n / 2 == q);
    assert(float::width(n) == 1 + float::width(q));
    let t = float::grain(n, s, p);
    let e = t - s;
    assert(e >= 2);
    let h = pow2((e - 1) as nat);
    lemma_pow2_unfold((e - 1) as nat);
    lemma_pow2_unfold(e as nat);
    lemma_pow2_pos((e - 2) as nat);
    assert(h % 2 == 0) by {
        assert(h == 2 * pow2((e - 2) as nat));
    }
    lemma_sticky_round(q, d, r, h);
    assert(q * d + r == a) by {
        lemma_mul_is_commutative(q as int, d as int);
    }
    assert(float::kept(n, s, p) == float::half_even(a, d * h));
    if s + 1 >= 0 {
        let c = pow2((s + 1) as nat);
        lemma_pow2_pos((s + 1) as nat);
        // The whole part is q with s + 1 further digits.
        let x = (a * c) / d;
        assert(q * c <= x < (q + 1) * c) by {
            assert(a * c >= (q * c) * d && a * c < ((q + 1) * c) * d) by (nonlinear_arith)
                requires
                    a == d * q + r,
                    0 <= r < d,
                    c > 0,
            ;
            lemma_div_is_ordered(((q * c) * d) as int, (a * c) as int, d as int);
            lemma_div_by_multiple((q * c) as int, d as int);
            lemma_fundamental_div_mod((a * c) as int, d as int);
            lemma_mod_bound((a * c) as int, d as int);
            assert(x < (q + 1) * c) by (nonlinear_arith)
                requires
                    d * x <= a * c,
                    a * c < ((q + 1) * c) * d,
                    d > 0,
            ;
        }
        lemma_width_between(x, q, (s + 1) as nat);
        assert(ratio_grain(a * c, d, p) == t);
        lemma_pow2_adds((s + 1) as nat, (e - 1) as nat);
        assert(d * h > 0) by (nonlinear_arith)
            requires
                d > 0,
                h > 0,
        ;
        lemma_half_even_scale(a, d * h, c);
        assert((d * h) * c == d * pow2(t as nat)) by (nonlinear_arith)
            requires
                pow2(t as nat) == c * h,
        ;
    } else {
        let j = (-(s + 1)) as nat;
        let c = pow2(j);
        lemma_pow2_pos(j);
        lemma_div_denominator(a as int, d as int, c as int);
        lemma_width_cut(q, j);
        assert(ratio_grain(a, d * c, p) == t);
        lemma_pow2_adds(j, t as nat);
        assert(j + t == e - 1);
        lemma_mul_is_associative(d as int, c as int, pow2(t as nat) as int);
    }
}

/// A number next to which another one is too small to count rounds back to itself.
proof fn lemma_far(m: nat, d: nat, small: nat, minus: bool, s: int, p: nat)
    requires
        p == 23 || p == 52,
        pow2(p) <= m < 2 * pow2(p),
        small < pow2(53),
        d >= 65,
        s + d >= 1,
    ensures
        ({
            let n = (m * pow2(d) + (if minus {
                -(small as int)
            } else {
                small as int
            })) as nat;
            &&& m * pow2(d) > small
            &&& float::pattern(n, s, p) == float::pattern(m, s + d, p)
        }),
{
    let c = pow2(d);
    lemma2_to64();
    lemma_pow2_ordered(65, d);
    lemma_pow2_unfold(65);
    lemma2_to64_rest();
    assert(c > 4 * small);
    lemma_pow2_pos(p);
    assert(m * c >= c) by (nonlinear_arith)
        requires
            m >= 1,
            c > 0,
    ;
    float::lemma_width(m);
    lemma_pow2_unfold(p + 1);
    assert(float::width(m) == p + 1) by {
        float::lemma_width_bound(m, p + 1);
        if float::width(m) <= p {
            lemma_pow2_ordered(float::width(m), p);
        }
    }
    let t = s + d;
    assert(float::grain(m, s + d, p) == t);
    lemma_mul_basics(m as int);
    assert(pow2(0) == 1);
    assert(float::kept(m, s + d, p) == m);
    if !minus || small == 0 {
        let n = m * c + small;
        lemma_mul_is_commutative(m as int, c as int);
        lemma_fundamental_div_mod_converse(n as int, c as int, m as int, small as int);
        lemma_width_cut(n, d);
        assert(float::width(n) == p + 1 + d);
        assert(float::half_even(n, c) == m);
    } else {
        let n = (m * c - small) as nat;
        if m > pow2(p) {
            assert((m - 1) * c + c == m * c) by (nonlinear_arith);
            lemma_mul_is_commutative(m - 1, c as int);
            lemma_fundamental_div_mod_converse(n as int, c as int, m - 1, c - small);
            lemma_width_cut(n, d);
            float::lemma_width((m - 1) as nat);
            assert(float::width((m - 1) as nat) == p + 1) by {
                float::lemma_width_bound((m - 1) as nat, p + 1);
                if float::width((m - 1) as nat) <= p {
                    lemma_pow2_ordered(float::width((m - 1) as nat), p);
                }
            }
            assert(float::width(n) == p + 1 + d);
            assert(float::half_even(n, c) == m);
        } else {
            let g = pow2((d - 1) as nat);
            lemma_pow2_unfold(d);
            let k = (2 * m - 1) as nat;
            assert(k * g + g == m * c) by (nonlinear_arith)
                requires
                    c == 2 * g,
                    k == 2 * m - 1,
            ;
            lemma_mul_is_commutative(k as int, g as int);
            lemma_fundamental_div_mod_converse(n as int, g as int, k as int, g - small);
            lemma_width_cut(n, (d - 1) as nat);
            float::lemma_width(k);
            assert(float::width(k) == p + 1) by {
                float::lemma_width_bound(k, p + 1);
                if float::width(k) <= p {
                    lemma_pow2_ordered(float::width(k), p);
                }
            }
            assert(float::width(n) == p + d);
            assert(float::grain(n, s, p) == t - 1);
            assert(float::half_even(n, g) == k + 1);
            assert((t - 1) * pow2(p) + 2 * pow2(p) == t * pow2(p) + pow2(p)) by (nonlinear_arith);
        }
    }
}

proof fn lemma_significant(m: nat, p: nat)
    requires
        p == 23 || p == 52,
    ensures
        float::units(m, p) == float::significand(m, p) * pow2(float::scale(m, p)),
        float::significand(m, p) < 2 * pow2(p),
        float::scale(m, p) > 0 ==> float::significand(m, p) >= pow2(p),
        m > 0 ==> float::significand(m, p) > 0,
        m > 0 ==> float::units(m, p) > 0,
        m == 0 ==> float::significand(m, p) == 0 && float::scale(m, p) == 0,
        m == 0 ==> float::units(m, p) == 0,
{
    float::lemma_units_parts(m, p);
    lemma_pow2_pos(p);
    lemma_pow2_pos(float::scale(m, p));
    lemma_mod_bound(m as int, pow2(p) as int);
    lemma_div_of0(pow2(p) as int);
    lemma_small_mod(0, pow2(p));
    let a = float::significand(m, p);
    let b = pow2(float::scale(m, p));
    if m > 0 {
        assert(a * b > 0) by (nonlinear_arith)
            requires
                a > 0,
                b > 0,
        ;
    } else {
        lemma_mul_basics(b as int);
    }
}

/// A common factor can be taken out of a sum of two signed numbers.
proof fn lemma_common(x: bool, a: nat, y: bool, b: nat, c: nat)
    requires
        c > 0,
    ensures
        ({
            let e = float::signed(x, (a * c) as int) + float::signed(y, (b * c) as int);
            let t = float::signed(x, a as int) + float::signed(y, b as int);
            &&& e == t * c
            &&& (e < 0) == (t < 0)
            &&& (e == 0) == (t == 0)
            &&& float::absolute(e) == float::absolute(t) * c
        }),
{
    let t = float::signed(x, a as int) + float::signed(y, b as int);
    let e = float::signed(x, (a * c) as int) + float::signed(y, (b * c) as int);
    assert(-((a * c) as int) == (-(a as int)) * c) by (nonlinear_arith);
    assert(-((b * c) as int) == (-(b as int)) * c) by (nonlinear_arith);
    let u = float::signed(x, a as int);
    let v = float::signed(y, b as int);
    assert(u * c + v * c == (u + v) * c) by (nonlinear_arith);
    assert(t < 0 ==> t * c < 0) by (nonlinear_arith)
        requires
            c > 0,
    ;
    assert(t > 0 ==> t * c > 0) by (nonlinear_arith)
        requires
            c > 0,
    ;
    assert((-t) * c == -(t * c)) by (nonlinear_arith);
    assert(t == 0 ==> t * c == 0) by (nonlinear_arith);
}

/// The pattern of `n * 2^s`, kept folded.
#[verifier::opaque]
spec fn rounded(n: nat, s: int, p: nat) -> nat {
    float::pattern(n, s, p)
}

proof fn lemma_rounded_scale(n: nat, j: nat, s: int, p: nat)
    requires
        n > 0,
    ensures
        rounded(n * pow2(j), s, p) == rounded(n, s + j, p),
{
    reveal(rounded);
    lemma_pattern_scale(n, j, s, p);
}

proof fn lemma_rounded_far(x: bool, a: nat, d: nat, y: bool, b: nat, s: int, p: nat)
    requires
        p == 23 || p == 52,
        pow2(p) <= a < 2 * pow2(p),
        b < pow2(53),
        d >= 65,
        s + d >= 1,
    ensures
        ({
            let e = float::signed(x, (a * pow2(d)) as int) + float::signed(y, b as int);
            &&& (e < 0) == x
            &&& e != 0
            &&& rounded(float::absolute(e), s, p) == rounded(a, s + d, p)
        }),
{
    reveal(rounded);
    lemma_far(a, d, b, x != y, s, p);
}

/// `encode` gives the pattern.
fn encoded(n: u128, s: i32, p: u32) -> (r: u64)
    requires
        p == 23 || p == 52,
        0 < n < 0x40_0000_0000_0000_0000_0000_0000_0000,
        -4000 <= s <= 3200,
    ensures
        r == rounded(n as nat, s as int, p as nat),
{
    proof {
        reveal(rounded);
    }
    float::encode(n, s, p)
}

/// The sum of `a * 2^d` and `b`, where the two are near enough to fit a word.
fn near(x: bool, a: u64, d: u32, y: bool, b: u64) -> (r: i128)
    requires
        a < 0x20_0000_0000_0000,
        b < 0x20_0000_0000_0000,
        d <= 64,
    ensures
        r == float::signed(x, (a * pow2(d as nat)) as int) + float::signed(y, b as int),
        -0x40_0000_0000_0000_0000_0000_0000_0000 < r < 0x40_0000_0000_0000_0000_0000_0000_0000,
{
    proof {
        lemma2_to64();
        lemma2_to64_rest();
        lemma_pow2_ordered(d as nat, 64);
        assert(a * pow2(d as nat) <= 0x20_0000_0000_0000 * 0x1_0000_0000_0000_0000)
            by (nonlinear_arith)
            requires
                0 <= a <= 0x20_0000_0000_0000,
                0 <= pow2(d as nat) <= 0x1_0000_0000_0000_0000,
        ;
    }
    let top = (a as u128 * float::power(d)) as i128;
    let left: i128 = if x {
        -top
    } else {
        top
    };
    let right: i128 = if y {
        -(b as i128)
    } else {
        b as i128
    };
    left + right
}

/// The exact sum of two numbers, times `2^s`, rounded: whether it is below zero, whether it
/// is zero, and its unsigned pattern where it is not.
fn combine(x: bool, a: u64, k: u32, y: bool, b: u64, l: u32, s: i32, p: u32) -> (r: (
    bool,
    bool,
    u64,
))
    requires
        p == 23 || p == 52,
        a < 2 * pow2(p as nat),
        b < 2 * pow2(p as nat),
        k <= 2046,
        l <= 2046,
        k > 0 ==> a >= pow2(p as nat),
        l > 0 ==> b >= pow2(p as nat),
        s == 0 || s == -1,
    ensures
        ({
            let e = float::signed(x, (a * pow2(k as nat)) as int) + float::signed(
                y,
                (b * pow2(l as nat)) as int,
            );
            &&& r.0 == (e < 0)
            &&& r.1 == (e == 0)
            &&& e != 0 ==> r.2 == rounded(float::absolute(e), s as int, p as nat)
        }),
    decreases 2046 + l - k,
{
    if k < l {
        return combine(y, b, l, x, a, k, s, p);
    }
    let d: u32 = k - l;
    let ghost c = pow2(l as nat);
    let ghost h = (a * pow2(d as nat)) as nat;
    proof {
        assert(pow2(23) == 0x80_0000 && pow2(52) == 0x10_0000_0000_0000 && pow2(53)
            == 0x20_0000_0000_0000) by {
            lemma2_to64();
            lemma2_to64_rest();
        }
        assert(a * pow2(k as nat) == h * c) by {
            lemma_pow2_adds(d as nat, l as nat);
            lemma_mul_is_associative(a as int, pow2(d as nat) as int, c as int);
        }
        lemma_pow2_pos(l as nat);
        lemma_common(x, h, y, b as nat, c);
    }
    if d <= 64 {
        let total = near(x, a, d, y, b);
        if total == 0 {
            return (false, true, 0);
        }
        let n: u128 = if total < 0 {
            (-total) as u128
        } else {
            total as u128
        };
        proof {
            lemma_rounded_scale(n as nat, l as nat, s as int, p as nat);
        }
        (total < 0, false, encoded(n, l as i32 + s, p))
    } else {
        proof {
            lemma_rounded_far(x, a as nat, d as nat, y, b as nat, l + s, p as nat);
            let n = float::absolute(float::signed(x, h as int) + float::signed(y, b as int));
            lemma_rounded_scale(n, l as nat, s as int, p as nat);
        }
        (x, false, encoded(a as u128, k as i32 + s, p))
    }
}

/// The bounds on unsigned patterns of the two formats.
pub open spec fn fits(m: u64, p: u32) -> bool {
    &&& p == 23 || p == 52
    &&& p == 23 ==> m < 0x8000_0000
    &&& p == 52 ==> m < 0x8000_0000_0000_0000
}

fn infinity_of(p: u32) -> (r: u64)
    requires
        p == 23 || p == 52,
    ensures
        r == infinity(p as nat),
{
    if p == 23 {
        0x7f80_0000
    } else {
        0x7ff0_0000_0000_0000
    }
}

fn quiet_of(p: u32) -> (r: u64)
    requires
        p == 23 || p == 52,
    ensures
        r == quiet(p as nat),
{
    if p == 23 {
        0x7fc0_0000
    } else {
        0x7ff8_0000_0000_0000
    }
}

fn cap(m: u64, p: u32) -> (r: u64)
    requires
        p == 23 || p == 52,
    ensures
        r == capped(m as nat, p as nat),
        r <= infinity(p as nat),
{
    let i = infinity_of(p);
    if m < i {
        m
    } else {
        i
    }
}

fn add_patterns(x: bool, m: u64, y: bool, n: u64, p: u32) -> (r: (bool, u64))
    requires
        fits(m, p),
        fits(n, p),
    ensures
        (r.0, r.1 as nat) == sum(x, m as nat, y, n as nat, p as nat),
        fits(r.1, p),
{
    let i = infinity_of(p);
    if m > i || n > i {
        (false, quiet_of(p))
    } else if m == i {
        if n == i && x != y {
            (false, quiet_of(p))
        } else {
            (x, m)
        }
    } else if n == i {
        (y, n)
    } else {
        let (a, k) = float::parts(m, p);
        let (b, l) = float::parts(n, p);
        proof {
            lemma2_to64();
            lemma2_to64_rest();
            lemma_significant(m as nat, p as nat);
            lemma_significant(n as nat, p as nat);
            reveal(rounded);
        }
        let (negative, zero, e) = combine(x, a, k, y, b, l, 0, p);
        if zero {
            (x && y, 0)
        } else {
            (negative, cap(e, p))
        }
    }
}

fn multiply_patterns(x: bool, m: u64, y: bool, n: u64, p: u32) -> (r: (bool, u64))
    requires
        fits(m, p),
        fits(n, p),
    ensures
        (r.0, r.1 as nat) == product(x, m as nat, y, n as nat, p as nat),
        fits(r.1, p),
{
    let i = infinity_of(p);
    if m > i || n > i {
        (false, quiet_of(p))
    } else if m == i || n == i {
        if m == 0 || n == 0 {
            (false, quiet_of(p))
        } else {
            (x != y, i)
        }
    } else if m == 0 || n == 0 {
        (x != y, 0)
    } else {
        let (a, k) = float::parts(m, p);
        let (b, l) = float::parts(n, p);
        let o: i32 = if p == 23 {
            149
        } else {
            1074
        };
        proof {
            lemma2_to64();
            lemma2_to64_rest();
            lemma_significant(m as nat, p as nat);
            lemma_significant(n as nat, p as nat);
            lemma_pow2_adds(k as nat, l as nat);
            let f = pow2(k as nat);
            let g = pow2(l as nat);
            assert((a * f) * (b * g) == (a * b) * (f * g)) by (nonlinear_arith);
            assert(0 < a * b <= 0x20_0000_0000_0000 * 0x20_0000_0000_0000) by (nonlinear_arith)
                requires
                    0 < a <= 0x20_0000_0000_0000,
                    0 < b <= 0x20_0000_0000_0000,
            ;
            lemma_pattern_scale((a * b) as nat, (k + l) as nat, -o, p as nat);
        }
        let e = float::encode(a as u128 * b as u128, k as i32 + l as i32 - o, p);
        (x != y, cap(e, p))
    }
}

fn divide_patterns(x: bool, m: u64, y: bool, n: u64, p: u32) -> (r: (bool, u64))
    requires
        fits(m, p),
        fits(n, p),
    ensures
        (r.0, r.1 as nat) == quotient(x, m as nat, y, n as nat, p as nat),
        fits(r.1, p),
{
    let i = infinity_of(p);
    if m > i || n > i {
        (false, quiet_of(p))
    } else if m == i {
        if n == i {
            (false, quiet_of(p))
        } else {
            (x != y, i)
        }
    } else if n == i {
        (x != y, 0)
    } else if n == 0 {
        if m == 0 {
            (false, quiet_of(p))
        } else {
            (x != y, i)
        }
    } else if m == 0 {
        (x != y, 0)
    } else {
        let (a, k) = float::parts(m, p);
        let (b, l) = float::parts(n, p);
        let o: i32 = if p == 23 {
            149
        } else {
            1074
        };
        proof {
            lemma2_to64();
            lemma2_to64_rest();
            lemma_significant(m as nat, p as nat);
            lemma_significant(n as nat, p as nat);
            float::lemma_width(a as nat);
            float::lemma_width_bound(a as nat, 53);
        }
        let w = float::width_of(a as u128);
        let j: u32 = 116 - w;
        let ghost u = pow2(j as nat);
        proof {
            lemma_pow2_unfold(117);
            lemma_wide();
            lemma_pow2_adds(w as nat, j as nat);
            lemma_pow2_adds((w - 1) as nat, j as nat);
            lemma_pow2_pos(j as nat);
            assert(a * u < pow2(w as nat) * u) by (nonlinear_arith)
                requires
                    a < pow2(w as nat),
                    u > 0,
            ;
            assert(a * u >= pow2((w - 1) as nat) * u) by (nonlinear_arith)
                requires
                    a >= pow2((w - 1) as nat),
                    u > 0,
            ;
        }
        let top: u128 = a as u128 * float::power(j);
        let q: u128 = top / b as u128;
        let rest: u128 = top % b as u128;
        let digits: u128 = 2 * q + (if rest != 0 {
            1
        } else {
            0
        });
        let s: i32 = k as i32 - l as i32 + o - j as i32 - 1;
        proof {
            // Enough digits for every format.
            assert(q >= 0x4000_0000_0000_0000) by {
                lemma_div_is_ordered_by_denominator(
                    top as int,
                    b as int,
                    0x20_0000_0000_0000,
                );
            }
            lemma_div_nonincreasing(top as int, b as int);
            if float::width(q as nat) < 54 {
                float::lemma_width(q as nat);
                lemma_pow2_ordered(float::width(q as nat), 54);
            }
            lemma_sticky(top as nat, b as nat, s as int, p as nat);
            let f = pow2(k as nat);
            let g = pow2(l as nat);
            let c = pow2(o as nat);
            lemma_pow2_pos(l as nat);
            lemma_pow2_pos(k as nat);
            assert(b * g > 0) by (nonlinear_arith)
                requires
                    b > 0,
                    g > 0,
            ;
            lemma_pow2_adds(k as nat, o as nat);
            if s + 1 >= 0 {
                let v = pow2((s + 1) as nat);
                lemma_pow2_adds(j as nat, (s + 1) as nat);
                lemma_pow2_adds((j + s + 1) as nat, l as nat);
                assert(f * c == (u * v) * g);
                assert(((a * f) * c) * b == ((a * u) * v) * (b * g)) by (nonlinear_arith)
                    requires
                        f * c == (u * v) * g,
                ;
                lemma_ratio_equal(
                    ((a * f) * c) as nat,
                    (b * g) as nat,
                    (top * v) as nat,
                    b as nat,
                    p as nat,
                );
            } else {
                let v = pow2((-(s + 1)) as nat);
                lemma_pow2_pos((-(s + 1)) as nat);
                lemma_pow2_adds((k + o) as nat, (-(s + 1)) as nat);
                lemma_pow2_adds(j as nat, l as nat);
                assert((f * c) * v == u * g);
                assert(((a * f) * c) * (b * v) == (a * u) * (b * g)) by (nonlinear_arith)
                    requires
                        (f * c) * v == u * g,
                ;
                assert(b * v > 0) by (nonlinear_arith)
                    requires
                        b > 0,
                        v > 0,
                ;
                lemma_ratio_equal(
                    ((a * f) * c) as nat,
                    (b * g) as nat,
                    top as nat,
                    (b * v) as nat,
                    p as nat,
                );
            }
        }
        let e = float::encode(digits, s, p);
        (x != y, cap(e, p))
    }
}

proof fn lemma_wide()
    ensures
        pow2(115) == 0x8_0000_0000_0000_0000_0000_0000_0000,
        pow2(116) == 0x10_0000_0000_0000_0000_0000_0000_0000,
{
    lemma2_to64();
    lemma2_to64_rest();
    lemma_pow2_adds(60, 55);
    lemma_pow2_unfold(116);
}

/// `a * 2^e` modulo `b`.
fn power_mod(a: u64, e: u32, b: u64) -> (r: u64)
    requires
        0 < b < 0x20_0000_0000_0000,
    ensures
        r == (a * pow2(e as nat)) as int % b as int,
    decreases e,
{
    proof {
        lemma2_to64();
    }
    if e == 0 {
        proof {
            lemma_mul_basics(a as int);
        }
        a % b
    } else {
        let h = power_mod(a, e - 1, b);
        proof {
            let x = (a * pow2((e - 1) as nat)) as int;
            lemma_pow2_unfold(e as nat);
            assert(a * pow2(e as nat) == 2 * x) by (nonlinear_arith)
                requires
                    x == a * pow2((e - 1) as nat),
                    pow2(e as nat) == 2 * pow2((e - 1) as nat),
            ;
            lemma_mul_mod_noop_right(2, x, b as int);
        }
        (2 * h) % b
    }
}

fn remainder_patterns(x: bool, m: u64, n: u64, p: u32) -> (r: (bool, u64))
    requires
        fits(m, p),
        fits(n, p),
    ensures
        (r.0, r.1 as nat) == remainder(x, m as nat, n as nat, p as nat),
        fits(r.1, p),
{
    let i = infinity_of(p);
    if m >= i || n > i || n == 0 {
        (false, quiet_of(p))
    } else if n == i {
        (x, m)
    } else {
        let (a, k) = float::parts(m, p);
        let (b, l) = float::parts(n, p);
        proof {
            lemma2_to64();
            lemma2_to64_rest();
            lemma_significant(m as nat, p as nat);
            lemma_significant(n as nat, p as nat);
            lemma_pow2_pos(k as nat);
            lemma_pow2_pos(l as nat);
        }
        let ghost ua = (a * pow2(k as nat)) as int;
        let ghost ub = (b * pow2(l as nat)) as int;
        let (v, e): (u64, u32) = if k >= l {
            let v = power_mod(a, k - l, b);
            proof {
                let g = pow2(l as nat) as int;
                lemma_pow2_adds((k - l) as nat, l as nat);
                let t = (a * pow2((k - l) as nat)) as int;
                assert(ua == t * g) by {
                    lemma_mul_is_associative(a as int, pow2((k - l) as nat) as int, g);
                }
                lemma_mod_scale(t, b as int, g);
            }
            (v, l)
        } else if l - k > 53 || a / (float::power(l - k) as u64) < b {
            proof {
                lemma_smaller(a as nat, b as nat, k as nat, l as nat);
                lemma_small_mod(ua as nat, ub as nat);
            }
            (a, k)
        } else {
            let up: u64 = float::power(l - k) as u64;
            proof {
                let g = pow2(k as nat) as int;
                lemma_pow2_adds((l - k) as nat, k as nat);
                lemma_pow2_pos((l - k) as nat);
                assert(ub == (b * up) * g) by {
                    lemma_mul_is_associative(b as int, up as int, g);
                }
                lemma_fundamental_div_mod(a as int, up as int);
                lemma_mod_bound(a as int, up as int);
                assert(0 < b * up <= a) by (nonlinear_arith)
                    requires
                        b <= a as int / up as int,
                        a == up * (a as int / up as int) + a as int % up as int,
                        0 <= a as int % up as int,
                        up > 0,
                        b > 0,
                ;
                lemma_mod_scale(a as int, (b * up) as int, g);
                lemma_mod_bound(a as int, (b * up) as int);
            }
            (a % (b * up), k)
        };
        if v == 0 {
            proof {
                lemma_mul_basics(pow2(e as nat) as int);
                lemma_pattern_zero(p as nat);
            }
            return (x, 0);
        }
        proof {
            lemma_pattern_scale(v as nat, e as nat, 0, p as nat);
            lemma_mod_bound(ua, ub);
            lemma_exact(v as nat, e as nat, p as nat);
        }
        (x, float::encode(v as u128, e as i32, p))
    }
}

/// Nothing rounds to nothing.
proof fn lemma_pattern_zero(p: nat)
    ensures
        float::pattern(0, 0, p) == 0,
{
    assert(float::width(0) == 0);
    assert(0 * pow2(p) == 0) by (nonlinear_arith);
    assert(0 * pow2(0) == 0) by (nonlinear_arith);
}

pub proof fn lemma_mod_scale(a: int, b: int, c: int)
    requires
        a >= 0,
        b > 0,
        c > 0,
    ensures
        (a * c) % (b * c) == (a % b) * c,
{
    lemma_fundamental_div_mod(a, b);
    lemma_mod_bound(a, b);
    let q = a / b;
    let r = a % b;
    assert(a * c == q * (b * c) + r * c) by (nonlinear_arith)
        requires
            a == b * q + r,
    ;
    assert(0 <= r * c < b * c) by (nonlinear_arith)
        requires
            0 <= r < b,
            c > 0,
    ;
    lemma_fundamental_div_mod_converse(a * c, b * c, q, r * c);
}

proof fn lemma_smaller(a: nat, b: nat, k: nat, l: nat)
    requires
        k < l,
        0 < b,
        a < 0x20_0000_0000_0000,
        l - k > 53 || a / pow2((l - k) as nat) < b,
    ensures
        a * pow2(k) < b * pow2(l),
{
    let d = pow2((l - k) as nat);
    lemma_pow2_adds((l - k) as nat, k);
    lemma_pow2_pos((l - k) as nat);
    lemma_pow2_pos(k);
    lemma2_to64_rest();
    assert(a < b * d) by {
        if l - k > 53 {
            lemma_pow2_ordered(53, (l - k) as nat);
            assert(d <= b * d) by (nonlinear_arith)
                requires
                    b >= 1,
                    d > 0,
            ;
        } else {
            lemma_fundamental_div_mod(a as int, d as int);
            lemma_mod_bound(a as int, d as int);
            let q = a as int / d as int;
            let r = a as int % d as int;
            assert(a < b * d) by (nonlinear_arith)
                requires
                    a == d * q + r,
                    q <= b - 1,
                    r < d,
                    d > 0,
            ;
        }
    }
    assert(a * pow2(k) < b * pow2(l)) by (nonlinear_arith)
        requires
            a < b * d,
            pow2(l) == d * pow2(k),
            pow2(k) > 0,
    ;
}

/// A number with few digits keeps its pattern below infinity.
proof fn lemma_exact(v: nat, e: nat, p: nat)
    requires
        p == 23 || p == 52,
        0 < v < 2 * pow2(p),
        p == 23 ==> e <= 253,
        p == 52 ==> e <= 2045,
    ensures
        float::pattern(v, e as int, p) <= infinity(p),
{
    lemma2_to64();
    lemma2_to64_rest();
    lemma_pow2_unfold(p + 1);
    float::lemma_width_bound(v, p + 1);
    float::lemma_width(v);
    let t = float::grain(v, e as int, p);
    assert(t <= e);
    let k = float::kept(v, e as int, p);
    lemma_pow2_pos((e - t) as nat);
    lemma_pow2_adds(float::width(v), (e - t) as nat);
    lemma_pow2_ordered((float::width(v) + e - t) as nat, p + 1);
    assert(k <= pow2(p + 1)) by (nonlinear_arith)
        requires
            k == v * pow2((e - t) as nat),
            v <= pow2(float::width(v)),
            pow2(float::width(v)) * pow2((e - t) as nat) <= pow2(p + 1),
    ;
    assert(t * pow2(p) <= e * pow2(p)) by (nonlinear_arith)
        requires
            t <= e,
            pow2(p) >= 0,
    ;
}

fn half_and_half_pattern(x: bool, m: u64, p: u32) -> (r: (bool, u64))
    requires
        fits(m, p),
    ensures
        (r.0, r.1 as nat) == half_and_half(x, m as nat, p as nat),
        fits(r.1, p),
{
    let i = infinity_of(p);
    if m > i {
        (false, quiet_of(p))
    } else if m == i {
        (x, m)
    } else {
        let (a, k) = float::parts(m, p);
        proof {
            lemma2_to64();
            lemma2_to64_rest();
            lemma_significant(m as nat, p as nat);
            reveal(rounded);
            if p == 23 {
                lemma_pow2_adds(23, 126);
            } else {
                lemma_pow2_adds(52, 1022);
            }
        }
        let (b, l): (u64, u32) = if p == 23 {
            (0x80_0000, 126)
        } else {
            (0x10_0000_0000_0000, 1022)
        };
        let (negative, zero, e) = combine(x, a, k, false, b, l, -1, p);
        if zero {
            (false, 0)
        } else {
            (negative, cap(e, p))
        }
    }
}

// Singles.

pub open spec fn single_of(r: (bool, nat)) -> u32 {
    float::single_bits(r.0, r.1)
}

fn pack_single(r: (bool, u64)) -> (b: u32)
    requires
        r.1 < 0x8000_0000,
    ensures
        b == single_of((r.0, r.1 as nat)),
{
    if r.0 {
        (r.1 + 0x8000_0000) as u32
    } else {
        r.1 as u32
    }
}

pub open spec fn single_sum(a: u32, b: u32) -> u32 {
    single_of(
        sum(
            float::single_negative(a),
            float::single_magnitude(a),
            float::single_negative(b),
            float::single_magnitude(b),
            23,
        ),
    )
}

pub open spec fn single_product(a: u32, b: u32) -> u32 {
    single_of(
        product(
            float::single_negative(a),
            float::single_magnitude(a),
            float::single_negative(b),
            float::single_magnitude(b),
            23,
        ),
    )
}

pub open spec fn single_quotient(a: u32, b: u32) -> u32 {
    single_of(
        quotient(
            float::single_negative(a),
            float::single_magnitude(a),
            float::single_negative(b),
            float::single_magnitude(b),
            23,
        ),
    )
}

pub open spec fn single_remainder(a: u32, b: u32) -> u32 {
    single_of(
        remainder(
            float::single_negative(a),
            float::single_magnitude(a),
            float::single_magnitude(b),
            23,
        ),
    )
}

pub open spec fn single_difference(a: u32, b: u32) -> u32 {
    single_sum(a, float::single_minus(b))
}

pub open spec fn single_half_and_half(a: u32) -> u32 {
    single_of(half_and_half(float::single_negative(a), float::single_magnitude(a), 23))
}

pub fn single_add(a: u32, b: u32) -> (r: u32)
    ensures
        r == single_sum(a, b),
{
    pack_single(
        add_patterns(
            a >= 0x8000_0000,
            (a % 0x8000_0000) as u64,
            b >= 0x8000_0000,
            (b % 0x8000_0000) as u64,
            23,
        ),
    )
}

pub fn single_subtract(a: u32, b: u32) -> (r: u32)
    ensures
        r == single_difference(a, b),
{
    single_add(a, float::single_negate(b))
}

pub fn single_multiply(a: u32, b: u32) -> (r: u32)
    ensures
        r == single_product(a, b),
{
    pack_single(
        multiply_patterns(
            a >= 0x8000_0000,
            (a % 0x8000_0000) as u64,
            b >= 0x8000_0000,
            (b % 0x8000_0000) as u64,
            23,
        ),
    )
}

pub fn single_divide(a: u32, b: u32) -> (r: u32)
    ensures
        r == single_quotient(a, b),
{
    pack_single(
        divide_patterns(
            a >= 0x8000_0000,
            (a % 0x8000_0000) as u64,
            b >= 0x8000_0000,
            (b % 0x8000_0000) as u64,
            23,
        ),
    )
}

pub fn single_modulo(a: u32, b: u32) -> (r: u32)
    ensures
        r == single_remainder(a, b),
{
    pack_single(
        remainder_patterns(
            a >= 0x8000_0000,
            (a % 0x8000_0000) as u64,
            (b % 0x8000_0000) as u64,
            23,
        ),
    )
}

/// Half of a single plus one half, with one rounding.
pub fn single_halve_and_add_half(a: u32) -> (r: u32)
    ensures
        r == single_half_and_half(a),
{
    pack_single(half_and_half_pattern(a >= 0x8000_0000, (a % 0x8000_0000) as u64, 23))
}

// Doubles.

pub open spec fn double_of(r: (bool, nat)) -> u64 {
    float::double_bits(r.0, r.1)
}

fn pack_double(r: (bool, u64)) -> (b: u64)
    requires
        r.1 < 0x8000_0000_0000_0000,
    ensures
        b == double_of((r.0, r.1 as nat)),
{
    if r.0 {
        r.1 + 0x8000_0000_0000_0000
    } else {
        r.1
    }
}

pub open spec fn double_sum(a: u64, b: u64) -> u64 {
    double_of(
        sum(
            float::double_negative(a),
            float::double_magnitude(a),
            float::double_negative(b),
            float::double_magnitude(b),
            52,
        ),
    )
}

pub open spec fn double_product(a: u64, b: u64) -> u64 {
    double_of(
        product(
            float::double_negative(a),
            float::double_magnitude(a),
            float::double_negative(b),
            float::double_magnitude(b),
            52,
        ),
    )
}

pub open spec fn double_quotient(a: u64, b: u64) -> u64 {
    double_of(
        quotient(
            float::double_negative(a),
            float::double_magnitude(a),
            float::double_negative(b),
            float::double_magnitude(b),
            52,
        ),
    )
}

pub open spec fn double_remainder(a: u64, b: u64) -> u64 {
    double_of(
        remainder(
            float::double_negative(a),
            float::double_magnitude(a),
            float::double_magnitude(b),
            52,
        ),
    )
}

pub open spec fn double_difference(a: u64, b: u64) -> u64 {
    double_sum(a, float::double_minus(b))
}

pub fn double_add(a: u64, b: u64) -> (r: u64)
    ensures
        r == double_sum(a, b),
{
    pack_double(
        add_patterns(
            a >= 0x8000_0000_0000_0000,
            a % 0x8000_0000_0000_0000,
            b >= 0x8000_0000_0000_0000,
            b % 0x8000_0000_0000_0000,
            52,
        ),
    )
}

pub fn double_subtract(a: u64, b: u64) -> (r: u64)
    ensures
        r == double_difference(a, b),
{
    double_add(a, float::double_negate(b))
}

pub fn double_multiply(a: u64, b: u64) -> (r: u64)
    ensures
        r == double_product(a, b),
{
    pack_double(
        multiply_patterns(
            a >= 0x8000_0000_0000_0000,
            a % 0x8000_0000_0000_0000,
            b >= 0x8000_0000_0000_0000,
            b % 0x8000_0000_0000_0000,
            52,
        ),
    )
}

pub fn double_divide(a: u64, b: u64) -> (r: u64)
    ensures
        r == double_quotient(a, b),
{
    pack_double(
        divide_patterns(
            a >= 0x8000_0000_0000_0000,
            a % 0x8000_0000_0000_0000,
            b >= 0x8000_0000_0000_0000,
            b % 0x8000_0000_0000_0000,
            52,
        ),
    )
}

pub fn double_modulo(a: u64, b: u64) -> (r: u64)
    ensures
        r == double_remainder(a, b),
{
    pack_double(
        remainder_patterns(
            a >= 0x8000_0000_0000_0000,
            a % 0x8000_0000_0000_0000,
            b % 0x8000_0000_0000_0000,
            52,
        ),
    )
}

} // verus!
