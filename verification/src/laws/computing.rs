//! What the arithmetic instructions compute.

use vstd::arithmetic::div_mod::*;
use vstd::arithmetic::power2::*;
use vstd::prelude::*;

use crate::arith;
use crate::code::ActivationView;
use crate::convert;
use crate::dex::DexFile;
use crate::float;
use crate::interp::arithmetic;
use crate::interp::execute;
use crate::laws::conversions;
use crate::laws::conversions::truncates;
use crate::laws::numbers;
use crate::laws::rounding;
use crate::laws::rounding::{
    apart, closest_double, closest_single, finite_double, finite_single,
};
use crate::laws::steps;
use crate::laws::steps::{bits, within, keeps_but, keeps_but_pair, signed_word, whole};
use crate::ops;
use crate::value::ValueView;
use crate::world::WorldView;

verus! {

// Integers.

/// Whether a quotient drops its fraction. The one that is too large wraps.
pub open spec fn divides(x: int, y: int, q: int, least: int) -> bool {
    if x == least && y == -1 {
        q == least
    } else {
        &&& apart(x, q * y) < apart(y, 0)
        &&& x >= 0 ==> x - q * y >= 0
        &&& x <= 0 ==> x - q * y <= 0
    }
}

/// Whether a remainder is smaller than the divisor, has the sign of the dividend, and differs
/// from it by a multiple of the divisor.
pub open spec fn remains(x: int, y: int, r: int) -> bool {
    &&& apart(r, 0) < apart(y, 0)
    &&& (x - r) % apart(y, 0) == 0
    &&& x >= 0 ==> r >= 0
    &&& x <= 0 ==> r <= 0
}

/// Whether an operation on two integers gives a third, all modulo `2^32`: sum, difference,
/// product, quotient, remainder, and, or, exclusive or, and the three shifts.
pub open spec fn int_computes(kind: int, x: i32, y: i32, r: i32) -> bool {
    &&& kind == 0 ==> (r - (x + y)) % 0x1_0000_0000 == 0
    &&& kind == 1 ==> (r - (x - y)) % 0x1_0000_0000 == 0
    &&& kind == 2 ==> (r - x * y) % 0x1_0000_0000 == 0
    &&& kind == 3 ==> divides(x as int, y as int, r as int, i32::MIN as int)
    &&& kind == 4 ==> remains(x as int, y as int, r as int)
    &&& kind == 5 ==> r == x & y
    &&& kind == 6 ==> r == x | y
    &&& kind == 7 ==> r == x ^ y
    &&& kind == 8 ==> r == x << (y & 0x1f)
    &&& kind == 9 ==> r == x >> (y & 0x1f)
    &&& kind == 10 ==> r == ((x as u32) >> (y & 0x1f)) as i32
}

pub open spec fn long_computes(kind: int, x: i64, y: i64, r: i64) -> bool {
    &&& kind == 0 ==> (r - (x + y)) % 0x1_0000_0000_0000_0000 == 0
    &&& kind == 1 ==> (r - (x - y)) % 0x1_0000_0000_0000_0000 == 0
    &&& kind == 2 ==> (r - x * y) % 0x1_0000_0000_0000_0000 == 0
    &&& kind == 3 ==> divides(x as int, y as int, r as int, i64::MIN as int)
    &&& kind == 4 ==> remains(x as int, y as int, r as int)
    &&& kind == 5 ==> r == x & y
    &&& kind == 6 ==> r == x | y
    &&& kind == 7 ==> r == x ^ y
}

proof fn lemma_division(x: int, y: int)
    requires
        y != 0,
    ensures
        ({
            let q = ops::quotient(x, y);
            &&& apart(x, q * y) < apart(y, 0)
            &&& x >= 0 ==> x - q * y >= 0
            &&& x <= 0 ==> x - q * y <= 0
        }),
        remains(x, y, ops::remainder(x, y)),
{
    numbers::division_has_a_remainder(x, y);
    let q = ops::quotient(x, y);
    let r = ops::remainder(x, y);
    let b = apart(y, 0);
    assert(x - r == q * y);
    assert((q * y) % b == 0) by {
        if y > 0 {
            lemma_mod_multiples_basic(q, b);
        } else {
            assert(q * y == (-q) * b) by (nonlinear_arith)
                requires
                    b == -y,
            ;
            lemma_mod_multiples_basic(-q, b);
        }
    }
}

proof fn lemma_crop(n: int, m: int)
    requires
        m > 0,
    ensures
        (n % m - n) % m == 0,
        (n % m - m - n) % m == 0,
{
    lemma_fundamental_div_mod(n, m);
    let q = n / m;
    assert(n % m - n == (-q) * m) by (nonlinear_arith)
        requires
            n == m * q + n % m,
    ;
    assert(n % m - m - n == (-q - 1) * m) by (nonlinear_arith)
        requires
            n == m * q + n % m,
    ;
    lemma_mod_multiples_basic(-q, m);
    lemma_mod_multiples_basic(-q - 1, m);
}

proof fn lemma_int(kind: int, x: i32, y: i32, pc: usize, opcode: u8)
    requires
        0 <= kind <= 10,
    ensures
        ({
            let r = ops::int_result(kind, x, y, pc, opcode);
            if (kind == 3 || kind == 4) && y == 0 {
                r is Err
            } else {
                r matches Ok(n) && int_computes(kind, x, y, n)
            }
        }),
{
    assert(0 <= (y & 0x1f) < 32) by (bit_vector);
    if y != 0 {
        lemma_division(x as int, y as int);
        vstd::arithmetic::div_mod::lemma_div_pos_is_pos(
            ops::magnitude(x as int),
            ops::magnitude(y as int),
        );
        lemma_quotient_bound(x as int, y as int);
    }
    lemma_crop(x * y, 0x1_0000_0000);
}

proof fn lemma_quotient_bound(x: int, y: int)
    requires
        y != 0,
    ensures
        apart(ops::quotient(x, y), 0) <= apart(x, 0),
        y != -1 && y != 1 ==> 2 * apart(ops::quotient(x, y), 0) <= apart(x, 0),
{
    let a = ops::magnitude(x);
    let b = ops::magnitude(y);
    let q = a / b;
    lemma_fundamental_div_mod(a, b);
    lemma_mod_bound(a, b);
    lemma_div_pos_is_pos(a, b);
    assert(q <= a) by (nonlinear_arith)
        requires
            a == b * q + a % b,
            a % b >= 0,
            b >= 1,
            q >= 0,
    ;
    assert(b >= 2 ==> 2 * q <= a) by (nonlinear_arith)
        requires
            a == b * q + a % b,
            a % b >= 0,
            q >= 0,
    ;
}

proof fn lemma_long(kind: int, x: i64, y: i64, pc: usize, opcode: u8)
    requires
        0 <= kind <= 7,
    ensures
        ({
            let r = ops::long_result(kind, x, y, pc, opcode);
            if (kind == 3 || kind == 4) && y == 0 {
                r is Err
            } else {
                r matches Ok(n) && long_computes(kind, x, y, n)
            }
        }),
{
    if y != 0 {
        lemma_division(x as int, y as int);
        lemma_quotient_bound(x as int, y as int);
    }
    lemma_crop(x * y, 0x1_0000_0000_0000_0000);
}

/// Where the operands of an operation are, and how long the instruction is: three registers in
/// two words, or two registers in one, of which the first takes the result.
pub open spec fn operands(
    words: Seq<u16>,
    a: ActivationView,
    instruction: u16,
    short: bool,
) -> (int, int, int, int) {
    if short {
        (bits(instruction, 8, 0xf), bits(instruction, 8, 0xf), bits(instruction, 12, 0xf), 1)
    } else {
        let second = words[a.pc + 1];
        (bits(instruction, 8, 0xff), bits(second, 0, 0xff), bits(second, 8, 0xff), 2)
    }
}

/// An operation on two integer registers gives what it computes of them, in their order, and
/// changes nothing else. Division by zero is an error.
pub proof fn integers_are_computed(
    dex: &DexFile,
    words: Seq<u16>,
    w: WorldView,
    a: ActivationView,
    opcode: u8,
    instruction: u16,
    x: i32,
    y: i32,
)
    requires
        0x90 <= opcode <= 0x9a || 0xb0 <= opcode <= 0xba,
        ({
            let (dest, left, right, size) = operands(words, a, instruction, opcode >= 0xb0);
            &&& whole(words, a, size)
            &&& within(a, dest)
            &&& within(a, left) && a.registers[left] == ValueView::Int(x)
            &&& within(a, right) && a.registers[right] == ValueView::Int(y)
        }),
    ensures
        ({
            let (dest, left, right, size) = operands(words, a, instruction, opcode >= 0xb0);
            let kind = if opcode >= 0xb0 {
                opcode - 0xb0
            } else {
                opcode - 0x90
            };
            let (world, stepped) = execute::plain_step(dex, words, w, a, opcode, instruction);
            &&& world == w
            &&& if (kind == 3 || kind == 4) && y == 0 {
                stepped is Err
            } else {
                stepped matches Ok(after) && keeps_but(a, after, dest, size)
                    && (after.registers[dest] matches ValueView::Int(r) && int_computes(
                    kind,
                    x,
                    y,
                    r,
                ))
            }
        }),
{
    steps::the_parts_of_a_word(instruction);
    let kind = if opcode >= 0xb0 {
        opcode - 0xb0
    } else {
        steps::the_parts_of_a_word(words[a.pc + 1]);
        opcode - 0x90
    };
    lemma_int(kind, x, y, a.pc, opcode);
}

/// An operation on an integer register and a literal: the literal is signed, and subtraction is
/// from it.
pub proof fn integers_are_computed_with_literals(
    dex: &DexFile,
    words: Seq<u16>,
    w: WorldView,
    a: ActivationView,
    opcode: u8,
    instruction: u16,
    x: i32,
)
    requires
        0xd0 <= opcode <= 0xdf,
        whole(words, a, 2),
        ({
            let second = words[a.pc + 1];
            let (dest, source) = if opcode <= 0xd7 {
                (bits(instruction, 8, 0xf), bits(instruction, 12, 0xf))
            } else {
                (bits(instruction, 8, 0xff), bits(second, 0, 0xff))
            };
            within(a, dest) && within(a, source) && a.registers[source] == ValueView::Int(x)
        }),
    ensures
        ({
            let second = words[a.pc + 1];
            let (dest, source) = if opcode <= 0xd7 {
                (bits(instruction, 8, 0xf), bits(instruction, 12, 0xf))
            } else {
                (bits(instruction, 8, 0xff), bits(second, 0, 0xff))
            };
            let high = bits(second, 8, 0xff);
            let literal = (if opcode <= 0xd7 {
                signed_word(second)
            } else if high < 0x80 {
                high
            } else {
                high - 0x100
            }) as i32;
            let kind = if opcode <= 0xd7 {
                opcode - 0xd0
            } else {
                opcode - 0xd8
            };
            let (world, stepped) = execute::plain_step(dex, words, w, a, opcode, instruction);
            &&& world == w
            &&& if (kind == 3 || kind == 4) && literal == 0 {
                stepped is Err
            } else {
                stepped matches Ok(after) && keeps_but(a, after, dest, 2)
                    && (after.registers[dest] matches ValueView::Int(r) && if kind == 1 {
                    int_computes(1, literal, x, r)
                } else {
                    int_computes(kind, x, literal, r)
                })
            }
        }),
{
    steps::the_parts_of_a_word(instruction);
    steps::the_parts_of_a_word(words[a.pc + 1]);
    let second = words[a.pc + 1];
    let high = bits(second, 8, 0xff);
    let literal = (if opcode <= 0xd7 {
        signed_word(second)
    } else if high < 0x80 {
        high
    } else {
        high - 0x100
    }) as i32;
    let kind = if opcode <= 0xd7 {
        opcode - 0xd0
    } else {
        opcode - 0xd8
    };
    if kind == 1 {
        lemma_int(kind, literal, x, a.pc, opcode);
    } else {
        lemma_int(kind, x, literal, a.pc, opcode);
    }
}

/// An operation on two long registers gives what it computes of them, in their order. A long is
/// shifted by the low six bits of an integer.
pub proof fn longs_are_computed(
    dex: &DexFile,
    words: Seq<u16>,
    w: WorldView,
    a: ActivationView,
    opcode: u8,
    instruction: u16,
    x: i64,
    y: i64,
    distance: i32,
)
    requires
        0x9b <= opcode <= 0xa5 || 0xbb <= opcode <= 0xc5,
        ({
            let (dest, left, right, size) = operands(words, a, instruction, opcode >= 0xbb);
            let kind = if opcode >= 0xbb {
                opcode - 0xbb
            } else {
                opcode - 0x9b
            };
            &&& whole(words, a, size)
            &&& within(a, dest + 1)
            &&& within(a, left) && a.registers[left] == ValueView::Long(x)
            &&& within(a, right)
            &&& kind < 8 ==> a.registers[right] == ValueView::Long(y)
            &&& kind >= 8 ==> a.registers[right] == ValueView::Int(distance)
        }),
    ensures
        ({
            let (dest, left, right, size) = operands(words, a, instruction, opcode >= 0xbb);
            let kind = if opcode >= 0xbb {
                opcode - 0xbb
            } else {
                opcode - 0x9b
            };
            let (world, stepped) = execute::plain_step(dex, words, w, a, opcode, instruction);
            &&& world == w
            &&& if (kind == 3 || kind == 4) && y == 0 {
                stepped is Err
            } else {
                stepped matches Ok(after) && keeps_but_pair(a, after, dest, size)
                    && (after.registers[dest] matches ValueView::Long(r) && {
                    &&& kind < 8 ==> long_computes(kind, x, y, r)
                    &&& kind == 8 ==> r == x << (distance & 0x3f)
                    &&& kind == 9 ==> r == x >> (distance & 0x3f)
                    &&& kind == 10 ==> r == ((x as u64) >> (distance & 0x3f)) as i64
                })
            }
        }),
{
    let (dest, left, right, size) = operands(words, a, instruction, opcode >= 0xbb);
    let kind = if opcode >= 0xbb {
        opcode - 0xbb
    } else {
        opcode - 0x9b
    };
    lemma_long_dispatch(dex, words, w, a, opcode, instruction);
    lemma_on_longs(a, dest, left, right, kind, size, opcode, x, y, distance);
}

proof fn lemma_long_dispatch(
    dex: &DexFile,
    words: Seq<u16>,
    w: WorldView,
    a: ActivationView,
    opcode: u8,
    instruction: u16,
)
    requires
        0x9b <= opcode <= 0xa5 || 0xbb <= opcode <= 0xc5,
        whole(words, a, operands(words, a, instruction, opcode >= 0xbb).3),
    ensures
        ({
            let (dest, left, right, size) = operands(words, a, instruction, opcode >= 0xbb);
            execute::plain_step(dex, words, w, a, opcode, instruction) == (
                w,
                arithmetic::long_on_registers(
                    a,
                    dest,
                    left,
                    right,
                    if opcode >= 0xbb {
                        opcode - 0xbb
                    } else {
                        opcode - 0x9b
                    },
                    size,
                    opcode,
                ),
            )
        }),
{
    steps::the_parts_of_a_word(instruction);
    if opcode < 0xbb {
        steps::the_parts_of_a_word(words[a.pc + 1]);
    }
    assert(execute::arithmetic_step(words, a, opcode, instruction) == Some(
        arithmetic::long_step(words, a, opcode, instruction),
    ));
}

proof fn lemma_on_longs(
    a: ActivationView,
    dest: int,
    left: int,
    right: int,
    kind: int,
    size: int,
    opcode: u8,
    x: i64,
    y: i64,
    distance: i32,
)
    requires
        0 <= kind <= 10,
        0 <= dest,
        within(a, dest + 1),
        0 <= a.pc + size <= usize::MAX,
        within(a, left) && a.registers[left] == ValueView::Long(x),
        within(a, right),
        kind < 8 ==> a.registers[right] == ValueView::Long(y),
        kind >= 8 ==> a.registers[right] == ValueView::Int(distance),
    ensures
        ({
            let stepped = arithmetic::long_on_registers(a, dest, left, right, kind, size, opcode);
            if (kind == 3 || kind == 4) && y == 0 {
                stepped is Err
            } else {
                stepped matches Ok(after) && keeps_but_pair(a, after, dest, size) && (
                after.registers[dest] matches ValueView::Long(r) && {
                    &&& kind < 8 ==> long_computes(kind, x, y, r)
                    &&& kind == 8 ==> r == x << (distance & 0x3f)
                    &&& kind == 9 ==> r == x >> (distance & 0x3f)
                    &&& kind == 10 ==> r == ((x as u64) >> (distance & 0x3f)) as i64
                })
            }
        }),
{
    assert(0 <= (distance & 0x3f) < 64) by (bit_vector);
    if kind < 8 {
        lemma_long(kind, x, y, a.pc, opcode);
    }
}

// Floating-point numbers.

/// Whether an operation on two finite singles gives a third: the one nearest to the exact sum,
/// difference, product or quotient, or the exact remainder.
pub open spec fn single_computes(kind: int, x: u32, y: u32, r: u32) -> bool {
    let (m, n) = (float::single_worth(x), float::single_worth(y));
    let one = pow2(149) as int;
    &&& kind == 0 ==> closest_single(r, m + n, 1)
    &&& kind == 1 ==> closest_single(r, m - n, 1)
    &&& kind == 2 ==> closest_single(r, m * n, one)
    &&& kind == 3 && n > 0 ==> closest_single(r, m * one, n)
    &&& kind == 3 && n < 0 ==> closest_single(r, -(m * one), -n)
    &&& kind == 4 && n != 0 ==> {
        &&& apart(float::single_worth(r), 0) < apart(n, 0)
        &&& (m - float::single_worth(r)) % apart(n, 0) == 0
        &&& (r >= 0x8000_0000) == (x >= 0x8000_0000)
    }
    &&& n == 0 && (kind == 4 || kind == 3 && m == 0) ==> float::single_nan(r)
    &&& n == 0 && kind == 3 && m != 0 ==> r == if (x >= 0x8000_0000) == (y >= 0x8000_0000) {
        0x7f80_0000u32
    } else {
        0xff80_0000
    }
}

pub open spec fn double_computes(kind: int, x: u64, y: u64, r: u64) -> bool {
    let (m, n) = (float::double_worth(x), float::double_worth(y));
    let one = pow2(1074) as int;
    &&& kind == 0 ==> closest_double(r, m + n, 1)
    &&& kind == 1 ==> closest_double(r, m - n, 1)
    &&& kind == 2 ==> closest_double(r, m * n, one)
    &&& kind == 3 && n > 0 ==> closest_double(r, m * one, n)
    &&& kind == 3 && n < 0 ==> closest_double(r, -(m * one), -n)
    &&& kind == 4 && n != 0 ==> {
        &&& apart(float::double_worth(r), 0) < apart(n, 0)
        &&& (m - float::double_worth(r)) % apart(n, 0) == 0
        &&& (r >= 0x8000_0000_0000_0000) == (x >= 0x8000_0000_0000_0000)
    }
    &&& n == 0 && (kind == 4 || kind == 3 && m == 0) ==> float::double_nan(r)
    &&& n == 0 && kind == 3 && m != 0 ==> r == if (x >= 0x8000_0000_0000_0000) == (y
        >= 0x8000_0000_0000_0000) {
        0x7ff0_0000_0000_0000u64
    } else {
        0xfff0_0000_0000_0000
    }
}

proof fn lemma_single(kind: int, x: u32, y: u32)
    requires
        0 <= kind <= 4,
        finite_single(x),
        finite_single(y),
    ensures
        single_computes(kind, x, y, arithmetic::single_result(kind, x, y)),
{
    rounding::the_sum_of_singles_is_closest(x, y);
    rounding::the_difference_of_singles_is_closest(x, y);
    rounding::the_product_of_singles_is_closest(x, y);
    rounding::lemma_worthless(float::single_magnitude(x), 23);
    rounding::lemma_worthless(float::single_magnitude(y), 23);
    rounding::singles_that_are_not_finite(x, y);
    if float::single_worth(y) != 0 {
        rounding::the_quotient_of_singles_is_closest(x, y);
        rounding::the_remainder_of_singles_is_exact(x, y);
    }
}

proof fn lemma_double(kind: int, x: u64, y: u64)
    requires
        0 <= kind <= 4,
        finite_double(x),
        finite_double(y),
    ensures
        double_computes(kind, x, y, arithmetic::double_result(kind, x, y)),
{
    rounding::the_sum_of_doubles_is_closest(x, y);
    rounding::the_difference_of_doubles_is_closest(x, y);
    rounding::the_product_of_doubles_is_closest(x, y);
    rounding::lemma_worthless(float::double_magnitude(x), 52);
    rounding::lemma_worthless(float::double_magnitude(y), 52);
    rounding::doubles_that_are_not_finite(x, y);
    if float::double_worth(y) != 0 {
        rounding::the_quotient_of_doubles_is_closest(x, y);
        rounding::the_remainder_of_doubles_is_exact(x, y);
    }
}

/// An operation on two registers that count as finite singles gives the single nearest to the
/// exact result of the first and the second, and changes nothing else.
pub proof fn singles_are_computed(
    dex: &DexFile,
    words: Seq<u16>,
    w: WorldView,
    a: ActivationView,
    opcode: u8,
    instruction: u16,
    x: u32,
    y: u32,
)
    requires
        0xa6 <= opcode <= 0xaa || 0xc6 <= opcode <= 0xca,
        finite_single(x),
        finite_single(y),
        ({
            let (dest, left, right, size) = operands(words, a, instruction, opcode >= 0xc6);
            &&& whole(words, a, size)
            &&& within(a, dest)
            &&& within(a, left) && convert::single_of(a.registers[left], a.pc, opcode) == Ok::<
                u32,
                crate::error::ErrorView,
            >(x)
            &&& within(a, right) && convert::single_of(a.registers[right], a.pc, opcode) == Ok::<
                u32,
                crate::error::ErrorView,
            >(y)
        }),
    ensures
        ({
            let (dest, left, right, size) = operands(words, a, instruction, opcode >= 0xc6);
            let kind = if opcode >= 0xc6 {
                opcode - 0xc6
            } else {
                opcode - 0xa6
            };
            let (world, stepped) = execute::plain_step(dex, words, w, a, opcode, instruction);
            &&& world == w
            &&& stepped matches Ok(after) && keeps_but(a, after, dest, size)
                && (after.registers[dest] matches ValueView::Float(r) && single_computes(
                kind,
                x,
                y,
                r,
            ))
        }),
{
    steps::the_parts_of_a_word(instruction);
    let kind = if opcode >= 0xc6 {
        opcode - 0xc6
    } else {
        steps::the_parts_of_a_word(words[a.pc + 1]);
        opcode - 0xa6
    };
    lemma_single(kind, x, y);
}

/// An operation on two registers that count as finite doubles gives the double nearest to the
/// exact result of the first and the second, and changes nothing else.
pub proof fn doubles_are_computed(
    dex: &DexFile,
    words: Seq<u16>,
    w: WorldView,
    a: ActivationView,
    opcode: u8,
    instruction: u16,
    x: u64,
    y: u64,
)
    requires
        0xab <= opcode <= 0xaf || 0xcb <= opcode <= 0xcf,
        finite_double(x),
        finite_double(y),
        ({
            let (dest, left, right, size) = operands(words, a, instruction, opcode >= 0xcb);
            &&& whole(words, a, size)
            &&& within(a, dest + 1)
            &&& within(a, left) && convert::double_of(a.registers[left], a.pc, opcode) == Ok::<
                u64,
                crate::error::ErrorView,
            >(x)
            &&& within(a, right) && convert::double_of(a.registers[right], a.pc, opcode) == Ok::<
                u64,
                crate::error::ErrorView,
            >(y)
            &&& opcode >= 0xcb ==> within(a, right + 1)
        }),
    ensures
        ({
            let (dest, left, right, size) = operands(words, a, instruction, opcode >= 0xcb);
            let kind = if opcode >= 0xcb {
                opcode - 0xcb
            } else {
                opcode - 0xab
            };
            let (world, stepped) = execute::plain_step(dex, words, w, a, opcode, instruction);
            &&& world == w
            &&& stepped matches Ok(after) && keeps_but_pair(a, after, dest, size)
                && (after.registers[dest] matches ValueView::Double(r) && double_computes(
                kind,
                x,
                y,
                r,
            ))
        }),
{
    steps::the_parts_of_a_word(instruction);
    let kind = if opcode >= 0xcb {
        opcode - 0xcb
    } else {
        steps::the_parts_of_a_word(words[a.pc + 1]);
        opcode - 0xab
    };
    lemma_double(kind, x, y);
}

/// Taking zero away, adding it, or multiplying or dividing by one, changes no finite single.
pub proof fn zero_and_one_change_no_single(x: u32)
    requires
        finite_single(x),
    ensures
        float::single_worth(arith::single_difference(x, 0)) == float::single_worth(x),
        float::single_worth(arith::single_sum(x, 0)) == float::single_worth(x),
        float::single_worth(arith::single_sum(0, x)) == float::single_worth(x),
        float::single_worth(arith::single_product(x, 0x3f80_0000)) == float::single_worth(x),
        float::single_worth(arith::single_quotient(x, 0x3f80_0000)) == float::single_worth(x),
{
    let m = float::single_worth(x);
    rounding::lemma_units_zero(23);
    rounding::the_sum_of_singles_is_closest(x, 0);
    rounding::the_sum_of_singles_is_closest(0, x);
    rounding::the_difference_of_singles_is_closest(x, 0);
    lemma_pow2_pos(23);
    rounding::the_worth_of_a_single(false, 0, 0);
    rounding::the_product_of_singles_is_closest(x, 0x3f80_0000);
    lemma_pow2_pos(149);
    rounding::the_quotient_of_singles_is_closest(x, 0x3f80_0000);
    let one = pow2(149) as int;
    let p = float::single_worth(arith::single_product(x, 0x3f80_0000));
    let q = float::single_worth(arith::single_quotient(x, 0x3f80_0000));
    assert(p == m) by (nonlinear_arith)
        requires
            p * one == m * one,
            one > 0,
    ;
    assert(q == m) by (nonlinear_arith)
        requires
            q * one == m * one,
            one > 0,
    ;
}

// One operand.

/// Whether a number is a value turned into another kind, turned round, or complemented.
pub open spec fn int_turns_into(opcode: u8, x: i32, v: ValueView) -> bool {
    &&& opcode == 0x7b ==> (v matches ValueView::Int(r) && (r + x) % 0x1_0000_0000 == 0)
    &&& opcode == 0x7c ==> (v matches ValueView::Int(r) && r == -1 - x)
    &&& opcode == 0x81 ==> (v matches ValueView::Long(r) && r == x)
    &&& opcode == 0x82 ==> (v matches ValueView::Float(r) && closest_single(r, x * pow2(149), 1))
    &&& opcode == 0x83 ==> (v matches ValueView::Double(r) && float::double_worth(r) == x * pow2(
        1074,
    ))
    &&& opcode == 0x8d ==> (v matches ValueView::Int(r) && -0x80 <= r < 0x80 && r & 0xff == x & 0xff)
    &&& opcode == 0x8e ==> (v matches ValueView::Int(r) && 0 <= r < 0x1_0000 && r & 0xffff == x
        & 0xffff)
    &&& opcode == 0x8f ==> (v matches ValueView::Int(r) && -0x8000 <= r < 0x8000 && r & 0xffff == x
        & 0xffff)
}

pub open spec fn long_turns_into(opcode: u8, x: i64, v: ValueView) -> bool {
    &&& opcode == 0x7d ==> (v matches ValueView::Long(r) && (r + x) % 0x1_0000_0000_0000_0000 == 0)
    &&& opcode == 0x7e ==> (v matches ValueView::Long(r) && r == -1 - x)
    &&& opcode == 0x84 ==> (v matches ValueView::Int(r) && (r as i64) & 0xffff_ffff == x
        & 0xffff_ffff)
    &&& opcode == 0x85 ==> (v matches ValueView::Float(r) && closest_single(r, x * pow2(149), 1))
    &&& opcode == 0x86 ==> (v matches ValueView::Double(r) && closest_double(r, x * pow2(1074), 1))
}

pub open spec fn single_turns_into(opcode: u8, x: u32, v: ValueView) -> bool {
    let (worth, one) = (float::single_worth(x), pow2(149) as int);
    let nan = float::single_nan(x);
    &&& opcode == 0x7f ==> (v matches ValueView::Float(r) && r % 0x8000_0000 == x % 0x8000_0000 && r
        != x)
    &&& opcode == 0x87 ==> (v matches ValueView::Int(r) && if nan {
        r == 0
    } else {
        truncates(r as int, worth, one, i32::MIN as int, i32::MAX as int)
    })
    &&& opcode == 0x88 ==> (v matches ValueView::Long(r) && if nan {
        r == 0
    } else {
        truncates(r as int, worth, one, i64::MIN as int, i64::MAX as int)
    })
    &&& opcode == 0x89 ==> (v matches ValueView::Double(r) && (finite_single(x)
        ==> float::double_worth(r) == worth * pow2(925)) && float::double_nan(r) == nan)
}

pub open spec fn double_turns_into(opcode: u8, x: u64, v: ValueView) -> bool {
    let (worth, one) = (float::double_worth(x), pow2(1074) as int);
    let nan = float::double_nan(x);
    &&& opcode == 0x80 ==> (v matches ValueView::Double(r) && r % 0x8000_0000_0000_0000 == x
        % 0x8000_0000_0000_0000 && r != x)
    &&& opcode == 0x8a ==> (v matches ValueView::Int(r) && if nan {
        r == 0
    } else {
        truncates(r as int, worth, one, i32::MIN as int, i32::MAX as int)
    })
    &&& opcode == 0x8b ==> (v matches ValueView::Long(r) && if nan {
        r == 0
    } else {
        truncates(r as int, worth, one, i64::MIN as int, i64::MAX as int)
    })
    &&& opcode == 0x8c ==> (v matches ValueView::Float(r) && (finite_double(x) ==> closest_single(
        r,
        worth,
        pow2(925) as int,
    )) && float::single_nan(r) == nan)
}

/// An operation on one register turns what it holds into what the opcode names, in another
/// register or a pair of them, and changes nothing else.
pub proof fn numbers_are_converted(
    dex: &DexFile,
    words: Seq<u16>,
    w: WorldView,
    a: ActivationView,
    opcode: u8,
    instruction: u16,
)
    requires
        0x7b <= opcode <= 0x8f,
        whole(words, a, 1),
        within(a, bits(instruction, 8, 0xf) + 1),
        within(a, bits(instruction, 12, 0xf)),
    ensures
        ({
            let dest = bits(instruction, 8, 0xf);
            let v = a.registers[bits(instruction, 12, 0xf)];
            let from_int = opcode == 0x7b || opcode == 0x7c || 0x81 <= opcode <= 0x83 || 0x8d
                <= opcode;
            let from_long = opcode == 0x7d || opcode == 0x7e || 0x84 <= opcode <= 0x86;
            let from_single = opcode == 0x7f || 0x87 <= opcode <= 0x89;
            let from_double = opcode == 0x80 || 0x8a <= opcode <= 0x8c;
            let wide = opcode == 0x7d || opcode == 0x7e || opcode == 0x80 || opcode == 0x81
                || opcode == 0x83 || opcode == 0x86 || opcode == 0x88 || opcode == 0x89 || opcode
                == 0x8b;
            let (world, stepped) = execute::plain_step(dex, words, w, a, opcode, instruction);
            &&& world == w
            &&& stepped matches Ok(after) ==> if wide {
                keeps_but_pair(a, after, dest, 1)
            } else {
                keeps_but(a, after, dest, 1)
            }
            &&& from_int ==> (v matches ValueView::Int(x) ==> (stepped matches Ok(after)
                && int_turns_into(opcode, x, after.registers[dest])))
            &&& from_long ==> (v matches ValueView::Long(x) ==> (stepped matches Ok(after)
                && long_turns_into(opcode, x, after.registers[dest])))
            &&& from_single ==> (v matches ValueView::Float(x) ==> (stepped matches Ok(after)
                && single_turns_into(opcode, x, after.registers[dest])))
            &&& from_double ==> (v matches ValueView::Double(x) ==> (stepped matches Ok(after)
                && double_turns_into(opcode, x, after.registers[dest])))
        }),
{
    steps::the_parts_of_a_word(instruction);
    let v = a.registers[bits(instruction, 12, 0xf)];
    match v {
        ValueView::Int(x) => lemma_int_turns(opcode, x),
        ValueView::Long(x) => lemma_long_turns(opcode, x),
        ValueView::Float(x) => lemma_single_turns(opcode, x),
        ValueView::Double(x) => lemma_double_turns(opcode, x),
        _ => {},
    }
}

proof fn lemma_int_turns(opcode: u8, x: i32)
    ensures
        opcode == 0x7b || opcode == 0x7c || 0x81 <= opcode <= 0x83 || 0x8d <= opcode <= 0x8f
            ==> int_turns_into(opcode, x, arithmetic::int_converted(x, opcode)),
{
    assert(!x == -1 - x) by (bit_vector);
    assert(-0x80 <= (x as i8) as i32 && (x as i8) as i32 <= 0x7f && ((x as i8) as i32) & 0xff == x
        & 0xff) by (bit_vector);
    assert(-0x8000 <= (x as i16) as i32 && (x as i16) as i32 <= 0x7fff && ((x as i16) as i32)
        & 0xffff == x & 0xffff) by (bit_vector);
    assert(0 <= x & 0xffff && x & 0xffff <= 0xffff && (x & 0xffff) & 0xffff == x & 0xffff)
        by (bit_vector);
    conversions::an_integer_becomes_the_nearest_number(x as int);
    numbers::an_integer_is_exact_as_a_double(x);
}

proof fn lemma_long_turns(opcode: u8, x: i64)
    ensures
        opcode == 0x7d || opcode == 0x7e || 0x84 <= opcode <= 0x86 ==> long_turns_into(
            opcode,
            x,
            arithmetic::long_converted(x, opcode),
        ),
{
    assert(!x == -1 - x) by (bit_vector);
    assert(((x as i32) as i64) & 0xffff_ffff == x & 0xffff_ffff) by (bit_vector);
    conversions::an_integer_becomes_the_nearest_number(x as int);
}

proof fn lemma_single_turns(opcode: u8, x: u32)
    ensures
        opcode == 0x7f || 0x87 <= opcode <= 0x89 ==> single_turns_into(
            opcode,
            x,
            arithmetic::single_converted(x, opcode),
        ),
{
    rounding::the_negative_of_a_single(x);
    conversions::a_number_loses_its_fraction(x, 0, i32::MIN as int, i32::MAX as int);
    conversions::a_number_loses_its_fraction(x, 0, i64::MIN as int, i64::MAX as int);
    if finite_single(x) {
        numbers::a_single_is_exact_as_a_double(x);
        numbers::lemma_single_as_double_is_number(x);
    }
}

proof fn lemma_double_turns(opcode: u8, x: u64)
    ensures
        opcode == 0x80 || 0x8a <= opcode <= 0x8c ==> double_turns_into(
            opcode,
            x,
            arithmetic::double_converted(x, opcode),
        ),
{
    rounding::the_negative_of_a_double(x);
    conversions::a_number_loses_its_fraction(0, x, i32::MIN as int, i32::MAX as int);
    conversions::a_number_loses_its_fraction(0, x, i64::MIN as int, i64::MAX as int);
    conversions::a_double_becomes_the_nearest_single(x);
}

// Comparisons.

/// Comparing two registers gives -1, 0 or 1 as the first is worth less than, as much as or more
/// than the second. With NaN, one opcode of each kind gives -1 and the other 1.
pub proof fn numbers_are_compared(
    dex: &DexFile,
    words: Seq<u16>,
    w: WorldView,
    a: ActivationView,
    opcode: u8,
    instruction: u16,
)
    requires
        0x2d <= opcode <= 0x31,
        whole(words, a, 2),
        within(a, bits(instruction, 8, 0xff)),
        within(a, bits(words[a.pc + 1], 0, 0xff)),
        within(a, bits(words[a.pc + 1], 8, 0xff)),
    ensures
        ({
            let dest = bits(instruction, 8, 0xff);
            let left = a.registers[bits(words[a.pc + 1], 0, 0xff)];
            let right = a.registers[bits(words[a.pc + 1], 8, 0xff)];
            let (world, stepped) = execute::plain_step(dex, words, w, a, opcode, instruction);
            let operands_worth = match (left, right) {
                (ValueView::Float(x), ValueView::Float(y)) if opcode <= 0x2e => Some(
                    (
                        float::single_worth(x),
                        float::single_worth(y),
                        float::single_nan(x) || float::single_nan(y),
                    ),
                ),
                (ValueView::Double(x), ValueView::Double(y)) if opcode == 0x2f || opcode
                    == 0x30 => Some(
                    (
                        float::double_worth(x),
                        float::double_worth(y),
                        float::double_nan(x) || float::double_nan(y),
                    ),
                ),
                (ValueView::Long(x), ValueView::Long(y)) if opcode == 0x31 => Some(
                    (x as int, y as int, false),
                ),
                _ => None,
            };
            &&& world == w
            &&& operands_worth matches Some((m, n, nan)) ==> (stepped matches Ok(after)
                && keeps_but(a, after, dest, 2) && (after.registers[dest] matches ValueView::Int(
                r,
            ) && if nan {
                r == if opcode == 0x2e || opcode == 0x30 {
                    1int
                } else {
                    -1
                }
            } else {
                &&& r == -1 <==> m < n
                &&& r == 0 <==> m == n
                &&& r == 1 <==> m > n
            }))
        }),
{
    steps::the_parts_of_a_word(instruction);
    steps::the_parts_of_a_word(words[a.pc + 1]);
}

} // verus!
