//! Arithmetic on integers and longs.

use vstd::prelude::*;

use crate::error;
use crate::error::{failure, ErrorView, VmError};
use crate::convert::err_of;

verus! {

/// A 32-bit number read as a signed one.
pub open spec fn signed32(n: int) -> int {
    if n >= 0x8000_0000 {
        n - 0x1_0000_0000
    } else {
        n
    }
}

pub fn as_signed(n: u32) -> (r: i32)
    ensures
        r == signed32(n as int),
{
    if n >= 0x8000_0000 {
        (n as i64 - 0x1_0000_0000) as i32
    } else {
        n as i32
    }
}

pub open spec fn magnitude(x: int) -> int {
    if x < 0 {
        -x
    } else {
        x
    }
}

/// Division that truncates towards zero.
pub open spec fn quotient(x: int, y: int) -> int {
    if (x < 0) == (y < 0) {
        magnitude(x) / magnitude(y)
    } else {
        -(magnitude(x) / magnitude(y))
    }
}

/// The remainder of truncating division: it has the sign of the dividend.
pub open spec fn remainder(x: int, y: int) -> int {
    if x < 0 {
        -(magnitude(x) % magnitude(y))
    } else {
        x % magnitude(y)
    }
}

/// The quotient as a long. The one quotient that is too large wraps.
pub open spec fn long_quotient(x: i64, y: i64) -> i64 {
    if x == i64::MIN && y == -1 {
        i64::MIN
    } else {
        quotient(x as int, y as int) as i64
    }
}

pub open spec fn int_quotient(x: i32, y: i32) -> i32 {
    if x == i32::MIN && y == -1 {
        i32::MIN
    } else {
        quotient(x as int, y as int) as i32
    }
}

fn size_of(x: i64) -> (r: u64)
    ensures
        r == magnitude(x as int),
{
    if x < 0 {
        (-(x as i128)) as u64
    } else {
        x as u64
    }
}

proof fn lemma_quotient_bound(x: int, y: int)
    requires
        x >= 0,
        y >= 1,
    ensures
        0 <= x / y <= x,
        y >= 2 && x >= 1 ==> x / y < x,
        y == 1 ==> x / y == x,
{
    vstd::arithmetic::div_mod::lemma_div_pos_is_pos(x, y);
    vstd::arithmetic::div_mod::lemma_div_is_ordered_by_denominator(x, 1, y);
    vstd::arithmetic::div_mod::lemma_div_basics(x);
    if y >= 2 && x >= 1 {
        vstd::arithmetic::div_mod::lemma_div_decreases(x, y);
    }
}

pub fn divide(x: i64, y: i64) -> (r: i64)
    requires
        y != 0,
    ensures
        r == long_quotient(x, y),
        x > i64::MIN || y != -1 ==> r == quotient(x as int, y as int),
{
    let q: u64 = size_of(x) / size_of(y);
    proof {
        lemma_quotient_bound(magnitude(x as int), magnitude(y as int));
    }
    if (x < 0) == (y < 0) {
        if q >= 0x8000_0000_0000_0000 {
            i64::MIN
        } else {
            q as i64
        }
    } else {
        (-(q as i128)) as i64
    }
}

pub fn divide_int(x: i32, y: i32) -> (r: i32)
    requires
        y != 0,
    ensures
        r == int_quotient(x, y),
{
    let q = divide(x as i64, y as i64);
    proof {
        lemma_quotient_bound(magnitude(x as int), magnitude(y as int));
    }
    if x == i32::MIN && y == -1 {
        i32::MIN
    } else {
        q as i32
    }
}

pub fn modulo(x: i64, y: i64) -> (r: i64)
    requires
        y != 0,
    ensures
        r == remainder(x as int, y as int),
{
    let m: u64 = size_of(x) % size_of(y);
    proof {
        vstd::arithmetic::div_mod::lemma_mod_bound(
            magnitude(x as int),
            magnitude(y as int),
        );
        vstd::arithmetic::div_mod::lemma_mod_decreases(
            magnitude(x as int) as nat,
            magnitude(y as int) as nat,
        );
    }
    if x < 0 {
        (-(m as i128)) as i64
    } else {
        m as i64
    }
}

pub fn modulo_int(x: i32, y: i32) -> (r: i32)
    requires
        y != 0,
    ensures
        r == remainder(x as int, y as int),
{
    let m = modulo(x as i64, y as i64);
    proof {
        vstd::arithmetic::div_mod::lemma_mod_decreases(
            magnitude(x as int) as nat,
            magnitude(y as int) as nat,
        );
    }
    m as i32
}

/// The integer operation that an opcode names by its place in its group: addition,
/// subtraction, multiplication, division, remainder, and, or, exclusive or, and the three
/// shifts, whose distance is taken modulo 32.
pub open spec fn int_result(kind: int, x: i32, y: i32, pc: usize, opcode: u8) -> Result<
    i32,
    ErrorView,
> {
    if kind == 0 {
        Ok(x.wrapping_add(y))
    } else if kind == 1 {
        Ok(x.wrapping_sub(y))
    } else if kind == 2 {
        Ok(x.wrapping_mul(y))
    } else if kind == 3 {
        if y == 0 {
            Err(error::fault(pc, opcode, "integer division by zero"@))
        } else {
            Ok(int_quotient(x, y))
        }
    } else if kind == 4 {
        if y == 0 {
            Err(error::fault(pc, opcode, "integer remainder by zero"@))
        } else {
            Ok(remainder(x as int, y as int) as i32)
        }
    } else if kind == 5 {
        Ok(x & y)
    } else if kind == 6 {
        Ok(x | y)
    } else if kind == 7 {
        Ok(x ^ y)
    } else if kind == 8 {
        Ok(x.wrapping_shl((y & 0x1f) as u32))
    } else if kind == 9 {
        Ok(x >> (y & 0x1f))
    } else {
        Ok(((x as u32) >> (y & 0x1f)) as i32)
    }
}

pub fn int_operation(kind: u8, x: i32, y: i32, pc: usize, opcode: u8) -> (r: Result<i32, VmError>)
    ensures
        err_of(r) == int_result(kind as int, x, y, pc, opcode),
{
    assert(0 <= (y & 0x1f) < 32) by (bit_vector);
    if kind == 0 {
        Ok(x.wrapping_add(y))
    } else if kind == 1 {
        Ok(x.wrapping_sub(y))
    } else if kind == 2 {
        Ok(x.wrapping_mul(y))
    } else if kind == 3 {
        if y == 0 {
            Err(failure(pc, opcode, "integer division by zero"))
        } else {
            Ok(divide_int(x, y))
        }
    } else if kind == 4 {
        if y == 0 {
            Err(failure(pc, opcode, "integer remainder by zero"))
        } else {
            Ok(modulo_int(x, y))
        }
    } else if kind == 5 {
        Ok(x & y)
    } else if kind == 6 {
        Ok(x | y)
    } else if kind == 7 {
        Ok(x ^ y)
    } else if kind == 8 {
        Ok(x.wrapping_shl((y & 0x1f) as u32))
    } else if kind == 9 {
        Ok(x >> (y & 0x1f))
    } else {
        Ok(((x as u32) >> (y & 0x1f)) as i32)
    }
}

/// The operation on two longs that an opcode names by its place in its group.
pub open spec fn long_result(kind: int, x: i64, y: i64, pc: usize, opcode: u8) -> Result<
    i64,
    ErrorView,
> {
    if kind == 0 {
        Ok(x.wrapping_add(y))
    } else if kind == 1 {
        Ok(x.wrapping_sub(y))
    } else if kind == 2 {
        Ok(x.wrapping_mul(y))
    } else if kind == 3 {
        if y == 0 {
            Err(error::fault(pc, opcode, "long division by zero"@))
        } else {
            Ok(long_quotient(x, y))
        }
    } else if kind == 4 {
        if y == 0 {
            Err(error::fault(pc, opcode, "long remainder by zero"@))
        } else {
            Ok(remainder(x as int, y as int) as i64)
        }
    } else if kind == 5 {
        Ok(x & y)
    } else if kind == 6 {
        Ok(x | y)
    } else {
        Ok(x ^ y)
    }
}

pub fn long_operation(kind: u8, x: i64, y: i64, pc: usize, opcode: u8) -> (r: Result<
    i64,
    VmError,
>)
    ensures
        err_of(r) == long_result(kind as int, x, y, pc, opcode),
{
    if kind == 0 {
        Ok(x.wrapping_add(y))
    } else if kind == 1 {
        Ok(x.wrapping_sub(y))
    } else if kind == 2 {
        Ok(x.wrapping_mul(y))
    } else if kind == 3 {
        if y == 0 {
            Err(failure(pc, opcode, "long division by zero"))
        } else {
            Ok(divide(x, y))
        }
    } else if kind == 4 {
        if y == 0 {
            Err(failure(pc, opcode, "long remainder by zero"))
        } else {
            Ok(modulo(x, y))
        }
    } else if kind == 5 {
        Ok(x & y)
    } else if kind == 6 {
        Ok(x | y)
    } else {
        Ok(x ^ y)
    }
}

/// A long shifted; the distance is an integer, taken modulo 64.
pub open spec fn shifted(kind: int, x: i64, y: i32) -> i64 {
    if kind == 8 {
        x.wrapping_shl((y & 0x3f) as u32)
    } else if kind == 9 {
        x >> (y & 0x3f)
    } else {
        ((x as u64) >> (y & 0x3f)) as i64
    }
}

pub fn shift_long(kind: u8, x: i64, y: i32) -> (r: i64)
    ensures
        r == shifted(kind as int, x, y),
{
    assert(0 <= (y & 0x3f) < 64) by (bit_vector);
    if kind == 8 {
        x.wrapping_shl((y & 0x3f) as u32)
    } else if kind == 9 {
        x >> (y & 0x3f)
    } else {
        ((x as u64) >> (y & 0x3f)) as i64
    }
}

} // verus!
