//! Colours of four bytes.

use vstd::arithmetic::div_mod::*;
use vstd::prelude::*;

use crate::ops;

verus! {

#[derive(Debug, Clone, Copy, PartialEq, Eq, Structural)]
pub struct Rgba8 {
    pub r: u8,
    pub g: u8,
    pub b: u8,
    pub a: u8,
}

pub open spec fn opaque_of(r: u8, g: u8, b: u8) -> Rgba8 {
    Rgba8 { r, g, b, a: 255 }
}

pub fn opaque_color(r: u8, g: u8, b: u8) -> (c: Rgba8)
    ensures
        c == opaque_of(r, g, b),
{
    Rgba8 { r, g, b, a: 255 }
}

/// Four bytes as one number, the first one on top.
pub open spec fn big_endian(a: u8, b: u8, c: u8, d: u8) -> int {
    a * 0x100_0000 + b * 0x1_0000 + c * 0x100 + d
}

/// The colour whose bytes are alpha, red, green and blue, from the top.
pub fn unpack_argb_color(value: u32) -> (r: Rgba8)
    ensures
        big_endian(r.a, r.r, r.g, r.b) == value,
        r == argb(value),
{
    proof {
        lemma_from_bytes(value as int);
    }
    Rgba8 {
        a: (value / 0x100_0000) as u8,
        r: (value / 0x1_0000 % 0x100) as u8,
        g: (value / 0x100 % 0x100) as u8,
        b: (value % 0x100) as u8,
    }
}

/// A colour as an integer, red in the top byte and alpha in the lowest.
pub open spec fn packed(color: Rgba8) -> i32 {
    ops::signed32(big_endian(color.r, color.g, color.b, color.a)) as i32
}

pub fn pack_color(color: Rgba8) -> (r: i32)
    ensures
        r == packed(color),
        r == ops::signed32(big_endian(color.r, color.g, color.b, color.a)),
{
    let n: i64 = color.r as i64 * 0x100_0000 + color.g as i64 * 0x1_0000 + color.b as i64 * 0x100
        + color.a as i64;
    if n >= 0x8000_0000 {
        (n - 0x1_0000_0000) as i32
    } else {
        n as i32
    }
}

pub open spec fn unsigned32(n: i32) -> int {
    if n < 0 {
        n + 0x1_0000_0000
    } else {
        n as int
    }
}

pub open spec fn unpacked(value: i32) -> Rgba8 {
    let n = unsigned32(value);
    Rgba8 {
        r: (n / 0x100_0000) as u8,
        g: (n / 0x1_0000 % 0x100) as u8,
        b: (n / 0x100 % 0x100) as u8,
        a: (n % 0x100) as u8,
    }
}

pub fn unpack_color(value: i32) -> (r: Rgba8)
    ensures
        r == unpacked(value),
        ops::signed32(big_endian(r.r, r.g, r.b, r.a)) == value,
{
    let n: i64 = if value < 0 {
        value as i64 + 0x1_0000_0000
    } else {
        value as i64
    };
    proof {
        lemma_from_bytes(n as int);
    }
    Rgba8 {
        r: (n / 0x100_0000) as u8,
        g: (n / 0x1_0000 % 0x100) as u8,
        b: (n / 0x100 % 0x100) as u8,
        a: (n % 0x100) as u8,
    }
}

/// The colour that `unpack_argb_color` gives.
pub open spec fn argb(value: u32) -> Rgba8 {
    Rgba8 {
        a: (value as int / 0x100_0000) as u8,
        r: (value as int / 0x1_0000 % 0x100) as u8,
        g: (value as int / 0x100 % 0x100) as u8,
        b: (value as int % 0x100) as u8,
    }
}

/// Four bytes are the only ones that make up their number.
pub proof fn lemma_bytes(a: u8, b: u8, c: u8, d: u8)
    ensures
        ({
            let n = big_endian(a, b, c, d);
            &&& n / 0x100_0000 == a
            &&& n / 0x1_0000 % 0x100 == b
            &&& n / 0x100 % 0x100 == c
            &&& n % 0x100 == d
        }),
{
    let n = big_endian(a, b, c, d);
    let x = a * 0x1_0000 + b * 0x100 + c;
    let y = a * 0x100 + b;
    assert(n / 0x100 == x && n % 0x100 == d);
    assert(x / 0x100 == y && x % 0x100 == c);
    assert(y / 0x100 == a && y % 0x100 == b);
    lemma_div_denominator(n, 0x100, 0x100);
    lemma_div_denominator(n, 0x1_0000, 0x100);
}

/// A number is made up of its bytes.
pub proof fn lemma_from_bytes(n: int)
    requires
        0 <= n < 0x1_0000_0000,
    ensures
        n == (n / 0x100_0000) * 0x100_0000 + (n / 0x1_0000 % 0x100) * 0x1_0000 + (n / 0x100
            % 0x100) * 0x100 + n % 0x100,
        0 <= n / 0x100_0000 < 0x100,
{
    let x = n / 0x100;
    let y = x / 0x100;
    lemma_div_denominator(n, 0x100, 0x100);
    lemma_div_denominator(n, 0x1_0000, 0x100);
    assert(n / 0x1_0000 == y);
    assert(n / 0x100_0000 == y / 0x100);
    assert(n == x * 0x100 + n % 0x100);
    assert(x == y * 0x100 + x % 0x100);
    assert(y == (y / 0x100) * 0x100 + y % 0x100);
}

/// Packing and unpacking undo each other.
pub proof fn pack_and_unpack(color: Rgba8, value: i32)
    ensures
        unpacked(packed(color)) == color,
        packed(unpacked(value)) == value,
{
    lemma_bytes(color.r, color.g, color.b, color.a);
    lemma_from_bytes(unsigned32(value));
}

} // verus!
