//! Instructions that compute.

use vstd::prelude::*;

use crate::arith;
use crate::code;
use crate::code::{
    extend16, extend8, operand, read_wide_register, three_registers, two_registers, Activation,
    ActivationView, Stepped,
};
use crate::convert;
use crate::convert::{
    as_double, as_float, as_int, as_long, compare_double, compare_float, compare_long, err_of,
};
use crate::dex::CodeItem;
use crate::error;
use crate::error::{ErrorView, Outcome, Piece, PieceView, VmError};
use crate::float;
use crate::ops;
use crate::ops::{int_operation, long_operation, shift_long};
use crate::text;
use crate::value;
use crate::value::{Value, ValueView};

verus! {

// One operand: opcodes 0x7b to 0x8f.

pub open spec fn unary_is_wide(opcode: u8) -> bool {
    opcode == 0x7d || opcode == 0x7e || opcode == 0x80 || opcode == 0x81 || opcode == 0x83
        || opcode == 0x86 || opcode == 0x88 || opcode == 0x89 || opcode == 0x8b
}

/// Negation, complement and conversion.
pub open spec fn unary(value: ValueView, pc: usize, opcode: u8) -> Outcome {
    let i = convert::int_of(value, pc, opcode);
    let l = convert::long_of(value, pc, opcode);
    let s = convert::single_of(value, pc, opcode);
    let d = convert::double_of(value, pc, opcode);
    if opcode == 0x7b || opcode == 0x7c || 0x81 <= opcode <= 0x83 || 0x8d <= opcode {
        match i {
            Err(e) => Err(e),
            Ok(v) => Ok(int_converted(v, opcode)),
        }
    } else if opcode == 0x7d || opcode == 0x7e || 0x84 <= opcode <= 0x86 {
        match l {
            Err(e) => Err(e),
            Ok(v) => Ok(long_converted(v, opcode)),
        }
    } else if opcode == 0x7f || 0x87 <= opcode <= 0x89 {
        match s {
            Err(e) => Err(e),
            Ok(v) => Ok(single_converted(v, opcode)),
        }
    } else {
        match d {
            Err(e) => Err(e),
            Ok(v) => Ok(double_converted(v, opcode)),
        }
    }
}

pub open spec fn int_converted(v: i32, opcode: u8) -> ValueView {
    if opcode == 0x7b {
        ValueView::Int(0i32.wrapping_sub(v))
    } else if opcode == 0x7c {
        ValueView::Int(!v)
    } else if opcode == 0x81 {
        ValueView::Long(v as i64)
    } else if opcode == 0x82 {
        ValueView::Float(float::int_as_single(v as int))
    } else if opcode == 0x83 {
        ValueView::Double(float::int_as_double(v as int))
    } else if opcode == 0x8d {
        ValueView::Int(v as i8 as i32)
    } else if opcode == 0x8e {
        ValueView::Int(v & 0xffff)
    } else {
        ValueView::Int(v as i16 as i32)
    }
}

pub open spec fn long_converted(v: i64, opcode: u8) -> ValueView {
    if opcode == 0x7d {
        ValueView::Long(0i64.wrapping_sub(v))
    } else if opcode == 0x7e {
        ValueView::Long(!v)
    } else if opcode == 0x84 {
        ValueView::Int(v as i32)
    } else if opcode == 0x85 {
        ValueView::Float(float::int_as_single(v as int))
    } else {
        ValueView::Double(float::int_as_double(v as int))
    }
}

pub open spec fn single_converted(v: u32, opcode: u8) -> ValueView {
    if opcode == 0x7f {
        ValueView::Float(float::single_minus(v))
    } else if opcode == 0x87 {
        ValueView::Int(float::single_as(v, i32::MIN as int, i32::MAX as int) as i32)
    } else if opcode == 0x88 {
        ValueView::Long(float::single_as(v, i64::MIN as int, i64::MAX as int) as i64)
    } else {
        ValueView::Double(float::single_as_double(v))
    }
}

pub open spec fn double_converted(v: u64, opcode: u8) -> ValueView {
    if opcode == 0x80 {
        ValueView::Double(float::double_minus(v))
    } else if opcode == 0x8a {
        ValueView::Int(float::double_as(v, i32::MIN as int, i32::MAX as int) as i32)
    } else if opcode == 0x8b {
        ValueView::Long(float::double_as(v, i64::MIN as int, i64::MAX as int) as i64)
    } else {
        ValueView::Float(float::double_as_single(v))
    }
}

pub open spec fn unary_step(a: ActivationView, opcode: u8, instruction: u16) -> Stepped {
    let dest = code::low_nibble(instruction);
    match a.get(code::high_nibble(instruction), opcode) {
        Err(e) => Err(e),
        Ok(v) => match unary(v, a.pc, opcode) {
            Err(e) => Err(e),
            Ok(w) => if unary_is_wide(opcode) {
                code::put_wide(a, dest, w, 1, opcode)
            } else {
                code::put(a, dest, w, 1, opcode)
            },
        },
    }
}

fn convert_int(v: i32, opcode: u8) -> (r: Value)
    ensures
        r@ == int_converted(v, opcode),
{
    if opcode == 0x7b {
        Value::Int(0i32.wrapping_sub(v))
    } else if opcode == 0x7c {
        Value::Int(!v)
    } else if opcode == 0x81 {
        Value::Long(v as i64)
    } else if opcode == 0x82 {
        Value::Float(float::int_to_single(v as i64))
    } else if opcode == 0x83 {
        Value::Double(float::int_to_double(v as i64))
    } else if opcode == 0x8d {
        Value::Int(v as i8 as i32)
    } else if opcode == 0x8e {
        Value::Int(v & 0xffff)
    } else {
        Value::Int(v as i16 as i32)
    }
}

fn convert_long(v: i64, opcode: u8) -> (r: Value)
    ensures
        r@ == long_converted(v, opcode),
{
    if opcode == 0x7d {
        Value::Long(0i64.wrapping_sub(v))
    } else if opcode == 0x7e {
        Value::Long(!v)
    } else if opcode == 0x84 {
        Value::Int(v as i32)
    } else if opcode == 0x85 {
        Value::Float(float::int_to_single(v))
    } else {
        Value::Double(float::int_to_double(v))
    }
}

fn convert_single(v: u32, opcode: u8) -> (r: Value)
    ensures
        r@ == single_converted(v, opcode),
{
    if opcode == 0x7f {
        Value::Float(float::single_negate(v))
    } else if opcode == 0x87 {
        Value::Int(float::single_to_int(v))
    } else if opcode == 0x88 {
        Value::Long(float::single_to_long(v))
    } else {
        Value::Double(float::single_to_double(v))
    }
}

fn convert_double(v: u64, opcode: u8) -> (r: Value)
    ensures
        r@ == double_converted(v, opcode),
{
    if opcode == 0x80 {
        Value::Double(float::double_negate(v))
    } else if opcode == 0x8a {
        Value::Int(float::double_to_int(v))
    } else if opcode == 0x8b {
        Value::Long(float::double_to_long(v))
    } else {
        Value::Float(float::double_to_single(v))
    }
}

fn unary_value(value: &Value, pc: usize, opcode: u8) -> (r: Result<Value, VmError>)
    ensures
        error::outcome(r) == unary(value@, pc, opcode),
{
    if opcode == 0x7b || opcode == 0x7c || (0x81 <= opcode && opcode <= 0x83) || 0x8d <= opcode {
        let v = as_int(value, pc, opcode)?;
        Ok(convert_int(v, opcode))
    } else if opcode == 0x7d || opcode == 0x7e || (0x84 <= opcode && opcode <= 0x86) {
        let v = as_long(value, pc, opcode)?;
        Ok(convert_long(v, opcode))
    } else if opcode == 0x7f || (0x87 <= opcode && opcode <= 0x89) {
        let v = as_float(value, pc, opcode)?;
        Ok(convert_single(v, opcode))
    } else {
        let v = as_double(value, pc, opcode)?;
        Ok(convert_double(v, opcode))
    }
}

pub fn unary_operation(a: &mut Activation, opcode: u8, instruction: u16) -> (r: Result<(), VmError>)
    requires
        old(a).pc < usize::MAX,
    ensures
        code::stepped(r, final(a)@) == unary_step(old(a)@, opcode, instruction),
{
    let (dest, source) = two_registers(instruction);
    let v = a.value(source, opcode)?;
    let w = unary_value(&v, a.pc, opcode)?;
    if opcode == 0x7d || opcode == 0x7e || opcode == 0x80 || opcode == 0x81 || opcode == 0x83
        || opcode == 0x86 || opcode == 0x88 || opcode == 0x89 || opcode == 0x8b {
        a.put_wide(dest, w, 1, opcode)
    } else {
        a.put(dest, w, 1, opcode)
    }
}

// Comparison: opcodes 0x2d to 0x31.

pub open spec fn compared(x: ValueView, y: ValueView, pc: usize, opcode: u8) -> Result<
    i32,
    ErrorView,
> {
    if opcode <= 0x2e {
        match convert::single_of(x, pc, opcode) {
            Err(e) => Err(e),
            Ok(l) => match convert::single_of(y, pc, opcode) {
                Err(e) => Err(e),
                Ok(r) => Ok(convert::single_comparison(l, r, opcode == 0x2e)),
            },
        }
    } else if opcode <= 0x30 {
        match convert::double_of(x, pc, opcode) {
            Err(e) => Err(e),
            Ok(l) => match convert::double_of(y, pc, opcode) {
                Err(e) => Err(e),
                Ok(r) => Ok(convert::double_comparison(l, r, opcode == 0x30)),
            },
        }
    } else {
        match convert::long_of(x, pc, opcode) {
            Err(e) => Err(e),
            Ok(l) => match convert::long_of(y, pc, opcode) {
                Err(e) => Err(e),
                Ok(r) => Ok(float::order(l as int, r as int) as i32),
            },
        }
    }
}

pub open spec fn comparison_step(
    words: Seq<u16>,
    a: ActivationView,
    opcode: u8,
    instruction: u16,
) -> Stepped {
    match code::word(words, a.pc + 1, a.pc, opcode) {
        Err(e) => Err(e),
        Ok(w) => match a.get(code::low_byte(w), opcode) {
            Err(e) => Err(e),
            Ok(x) => match a.get(code::high_byte(w), opcode) {
                Err(e) => Err(e),
                Ok(y) => match compared(x, y, a.pc, opcode) {
                    Err(e) => Err(e),
                    Ok(v) => code::put(
                        a,
                        code::high_byte(instruction),
                        ValueView::Int(v),
                        2,
                        opcode,
                    ),
                },
            },
        },
    }
}

fn compare_registers(x: &Value, y: &Value, pc: usize, opcode: u8) -> (r: Result<i32, VmError>)
    ensures
        err_of(r) == compared(x@, y@, pc, opcode),
{
    if opcode <= 0x2e {
        let left = as_float(x, pc, opcode)?;
        let right = as_float(y, pc, opcode)?;
        Ok(compare_float(left, right, opcode == 0x2e))
    } else if opcode <= 0x30 {
        let left = as_double(x, pc, opcode)?;
        let right = as_double(y, pc, opcode)?;
        Ok(compare_double(left, right, opcode == 0x30))
    } else {
        let left = as_long(x, pc, opcode)?;
        let right = as_long(y, pc, opcode)?;
        Ok(compare_long(left, right))
    }
}

pub fn comparison(code: &CodeItem, a: &mut Activation, opcode: u8, instruction: u16) -> (r: Result<
    (),
    VmError,
>)
    requires
        old(a).pc < usize::MAX,
    ensures
        code::stepped(r, final(a)@) == comparison_step(
            code.instructions@,
            old(a)@,
            opcode,
            instruction,
        ),
{
    let w = operand(code, a.pc, 1, opcode)?;
    let (dest, left, right) = three_registers(instruction, w);
    let x = a.value(left, opcode)?;
    let y = a.value(right, opcode)?;
    let v = compare_registers(&x, &y, a.pc, opcode)?;
    a.put(dest, Value::Int(v), 2, opcode)
}

// Integers: opcodes 0x90 to 0x9a on three registers, 0xb0 to 0xba on two, 0xd0 to 0xd7 with a
// word and 0xd8 to 0xdf with a byte.

pub open spec fn int_put(
    a: ActivationView,
    dest: int,
    kind: int,
    x: i32,
    y: i32,
    size: int,
    opcode: u8,
) -> Stepped {
    match ops::int_result(kind, x, y, a.pc, opcode) {
        Err(e) => Err(e),
        Ok(v) => code::put(a, dest, ValueView::Int(v), size, opcode),
    }
}

pub open spec fn int_on_registers(
    a: ActivationView,
    dest: int,
    left: int,
    right: int,
    kind: int,
    size: int,
    opcode: u8,
) -> Stepped {
    match a.integer(left, opcode) {
        Err(e) => Err(e),
        Ok(x) => match a.integer(right, opcode) {
            Err(e) => Err(e),
            Ok(y) => int_put(a, dest, kind, x, y, size, opcode),
        },
    }
}

/// With a literal, subtraction is from the literal.
pub open spec fn int_on_literal(
    a: ActivationView,
    dest: int,
    source: int,
    literal: i32,
    kind: int,
    opcode: u8,
) -> Stepped {
    match a.integer(source, opcode) {
        Err(e) => Err(e),
        Ok(x) => if kind == 1 {
            int_put(a, dest, kind, literal, x, 2, opcode)
        } else {
            int_put(a, dest, kind, x, literal, 2, opcode)
        },
    }
}

pub open spec fn int_step(
    words: Seq<u16>,
    a: ActivationView,
    opcode: u8,
    instruction: u16,
) -> Stepped {
    if 0xb0 <= opcode <= 0xba {
        int_on_registers(
            a,
            code::low_nibble(instruction),
            code::low_nibble(instruction),
            code::high_nibble(instruction),
            opcode - 0xb0,
            1,
            opcode,
        )
    } else {
        match code::word(words, a.pc + 1, a.pc, opcode) {
            Err(e) => Err(e),
            Ok(w) => if opcode <= 0x9a {
                int_on_registers(
                    a,
                    code::high_byte(instruction),
                    code::low_byte(w),
                    code::high_byte(w),
                    opcode - 0x90,
                    2,
                    opcode,
                )
            } else if opcode <= 0xd7 {
                int_on_literal(
                    a,
                    code::low_nibble(instruction),
                    code::high_nibble(instruction),
                    code::signed16(w) as i32,
                    opcode - 0xd0,
                    opcode,
                )
            } else {
                int_on_literal(
                    a,
                    code::high_byte(instruction),
                    code::low_byte(w),
                    code::signed8(code::high_byte(w)) as i32,
                    opcode - 0xd8,
                    opcode,
                )
            },
        }
    }
}

fn int_registers(
    a: &mut Activation,
    dest: usize,
    left: usize,
    right: usize,
    kind: u8,
    size: usize,
    opcode: u8,
) -> (r: Result<(), VmError>)
    requires
        old(a).pc + size <= usize::MAX,
    ensures
        code::stepped(r, final(a)@) == int_on_registers(
            old(a)@,
            dest as int,
            left as int,
            right as int,
            kind as int,
            size as int,
            opcode,
        ),
{
    let x = a.integer(left, opcode)?;
    let y = a.integer(right, opcode)?;
    let v = int_operation(kind, x, y, a.pc, opcode)?;
    a.put(dest, Value::Int(v), size, opcode)
}

fn int_literal(
    a: &mut Activation,
    dest: usize,
    source: usize,
    literal: i32,
    kind: u8,
    opcode: u8,
) -> (r: Result<(), VmError>)
    requires
        old(a).pc + 2 <= usize::MAX,
    ensures
        code::stepped(r, final(a)@) == int_on_literal(
            old(a)@,
            dest as int,
            source as int,
            literal,
            kind as int,
            opcode,
        ),
{
    let x = a.integer(source, opcode)?;
    let v = if kind == 1 {
        int_operation(kind, literal, x, a.pc, opcode)?
    } else {
        int_operation(kind, x, literal, a.pc, opcode)?
    };
    a.put(dest, Value::Int(v), 2, opcode)
}

pub fn int_arithmetic(code: &CodeItem, a: &mut Activation, opcode: u8, instruction: u16) -> (r:
    Result<(), VmError>)
    requires
        old(a).pc < usize::MAX,
        0x90 <= opcode <= 0x9a || 0xb0 <= opcode <= 0xba || 0xd0 <= opcode <= 0xdf,
    ensures
        code::stepped(r, final(a)@) == int_step(code.instructions@, old(a)@, opcode, instruction),
{
    if 0xb0 <= opcode && opcode <= 0xba {
        let (dest, source) = two_registers(instruction);
        return int_registers(a, dest, dest, source, opcode - 0xb0, 1, opcode);
    }
    let w = operand(code, a.pc, 1, opcode)?;
    if opcode <= 0x9a {
        let (dest, left, right) = three_registers(instruction, w);
        int_registers(a, dest, left, right, opcode - 0x90, 2, opcode)
    } else if opcode <= 0xd7 {
        let (dest, source) = two_registers(instruction);
        int_literal(a, dest, source, extend16(w), opcode - 0xd0, opcode)
    } else {
        let (dest, source, literal) = three_registers(instruction, w);
        int_literal(a, dest, source, extend8(literal as u16), opcode - 0xd8, opcode)
    }
}

// Longs: opcodes 0x9b to 0xa5 on three registers and 0xbb to 0xc5 on two.

pub open spec fn long_on_registers(
    a: ActivationView,
    dest: int,
    left: int,
    right: int,
    kind: int,
    size: int,
    opcode: u8,
) -> Stepped {
    match a.long(left, opcode) {
        Err(e) => Err(e),
        Ok(x) => if kind >= 8 {
            match a.integer(right, opcode) {
                Err(e) => Err(e),
                Ok(y) => code::put_wide(
                    a,
                    dest,
                    ValueView::Long(ops::shifted(kind, x, y)),
                    size,
                    opcode,
                ),
            }
        } else {
            match a.long(right, opcode) {
                Err(e) => Err(e),
                Ok(y) => match ops::long_result(kind, x, y, a.pc, opcode) {
                    Err(e) => Err(e),
                    Ok(v) => code::put_wide(a, dest, ValueView::Long(v), size, opcode),
                },
            }
        },
    }
}

pub open spec fn long_step(
    words: Seq<u16>,
    a: ActivationView,
    opcode: u8,
    instruction: u16,
) -> Stepped {
    if 0xbb <= opcode {
        long_on_registers(
            a,
            code::low_nibble(instruction),
            code::low_nibble(instruction),
            code::high_nibble(instruction),
            opcode - 0xbb,
            1,
            opcode,
        )
    } else {
        match code::word(words, a.pc + 1, a.pc, opcode) {
            Err(e) => Err(e),
            Ok(w) => long_on_registers(
                a,
                code::high_byte(instruction),
                code::low_byte(w),
                code::high_byte(w),
                opcode - 0x9b,
                2,
                opcode,
            ),
        }
    }
}

fn long_registers(
    a: &mut Activation,
    dest: usize,
    left: usize,
    right: usize,
    kind: u8,
    size: usize,
    opcode: u8,
) -> (r: Result<(), VmError>)
    requires
        old(a).pc + size <= usize::MAX,
    ensures
        code::stepped(r, final(a)@) == long_on_registers(
            old(a)@,
            dest as int,
            left as int,
            right as int,
            kind as int,
            size as int,
            opcode,
        ),
{
    let x = a.long(left, opcode)?;
    if kind >= 8 {
        let y = a.integer(right, opcode)?;
        a.put_wide(dest, Value::Long(shift_long(kind, x, y)), size, opcode)
    } else {
        let y = a.long(right, opcode)?;
        let v = long_operation(kind, x, y, a.pc, opcode)?;
        a.put_wide(dest, Value::Long(v), size, opcode)
    }
}

pub fn long_arithmetic(code: &CodeItem, a: &mut Activation, opcode: u8, instruction: u16) -> (r:
    Result<(), VmError>)
    requires
        old(a).pc < usize::MAX,
        0x9b <= opcode <= 0xa5 || 0xbb <= opcode <= 0xc5,
    ensures
        code::stepped(r, final(a)@) == long_step(code.instructions@, old(a)@, opcode, instruction),
{
    if 0xbb <= opcode {
        let (dest, source) = two_registers(instruction);
        return long_registers(a, dest, dest, source, opcode - 0xbb, 1, opcode);
    }
    let w = operand(code, a.pc, 1, opcode)?;
    let (dest, left, right) = three_registers(instruction, w);
    long_registers(a, dest, left, right, opcode - 0x9b, 2, opcode)
}

// Singles: opcodes 0xa6 to 0xaa on three registers and 0xc6 to 0xca on two.

pub open spec fn single_result(kind: int, x: u32, y: u32) -> u32 {
    if kind == 0 {
        arith::single_sum(x, y)
    } else if kind == 1 {
        arith::single_difference(x, y)
    } else if kind == 2 {
        arith::single_product(x, y)
    } else if kind == 3 {
        arith::single_quotient(x, y)
    } else {
        arith::single_remainder(x, y)
    }
}

fn single_operation(kind: u8, x: u32, y: u32) -> (r: u32)
    ensures
        r == single_result(kind as int, x, y),
{
    if kind == 0 {
        arith::single_add(x, y)
    } else if kind == 1 {
        arith::single_subtract(x, y)
    } else if kind == 2 {
        arith::single_multiply(x, y)
    } else if kind == 3 {
        arith::single_divide(x, y)
    } else {
        arith::single_modulo(x, y)
    }
}

/// An error that names the register and what it holds in front of its message.
pub open spec fn about_register(
    e: ErrorView,
    side: Seq<char>,
    index: int,
    value: ValueView,
) -> ErrorView {
    ErrorView {
        message: seq![
            PieceView::Text(side + text::decimal(index) + "="@),
            PieceView::Debug(value),
            PieceView::Text(": "@),
        ] + e.message,
        ..e
    }
}

fn name_register(e: VmError, side: &str, index: usize, value: &Value) -> (r: VmError)
    ensures
        r@ == about_register(e@, side@, index as int, value@),
{
    let mut message: Vec<Piece> = Vec::new();
    let mut rest = e.message;
    let head = text::join3(side, text::decimal_unsigned(index as u64).as_str(), "=");
    message.push(Piece::Text(head));
    message.push(Piece::Debug(value.clone()));
    message.push(Piece::Text(": ".to_owned()));
    message.append(&mut rest);
    let r = VmError { pc: e.pc, opcode: e.opcode, message };
    assert(r@.message =~= about_register(e@, side@, index as int, value@).message);
    r
}

pub open spec fn single_two_step(a: ActivationView, opcode: u8, instruction: u16) -> Stepped {
    let dest = code::low_nibble(instruction);
    let source = code::high_nibble(instruction);
    match a.get(dest, opcode) {
        Err(e) => Err(e),
        Ok(l) => match a.get(source, opcode) {
            Err(e) => Err(e),
            Ok(r) => match convert::single_of(l, a.pc, opcode) {
                Err(e) => Err(about_register(e, "float 2addr left v"@, dest, l)),
                Ok(x) => match convert::single_of(r, a.pc, opcode) {
                    Err(e) => Err(about_register(e, "float 2addr right v"@, source, r)),
                    Ok(y) => code::put(
                        a,
                        dest,
                        ValueView::Float(single_result(opcode - 0xc6, x, y)),
                        1,
                        opcode,
                    ),
                },
            },
        },
    }
}

pub open spec fn single_step(
    words: Seq<u16>,
    a: ActivationView,
    opcode: u8,
    instruction: u16,
) -> Stepped {
    if 0xc6 <= opcode {
        single_two_step(a, opcode, instruction)
    } else {
        match code::word(words, a.pc + 1, a.pc, opcode) {
            Err(e) => Err(e),
            Ok(w) => match a.single(code::low_byte(w), opcode) {
                Err(e) => Err(e),
                Ok(x) => match a.single(code::high_byte(w), opcode) {
                    Err(e) => Err(e),
                    Ok(y) => code::put(
                        a,
                        code::high_byte(instruction),
                        ValueView::Float(single_result(opcode - 0xa6, x, y)),
                        2,
                        opcode,
                    ),
                },
            },
        }
    }
}

fn single_two(a: &mut Activation, opcode: u8, instruction: u16) -> (r: Result<(), VmError>)
    requires
        old(a).pc < usize::MAX,
        0xc6 <= opcode,
    ensures
        code::stepped(r, final(a)@) == single_two_step(old(a)@, opcode, instruction),
{
    let (dest, source) = two_registers(instruction);
    let left = a.value(dest, opcode)?;
    let right = a.value(source, opcode)?;
    let x = match as_float(&left, a.pc, opcode) {
        Ok(x) => x,
        Err(e) => {
            return Err(name_register(e, "float 2addr left v", dest, &left));
        },
    };
    let y = match as_float(&right, a.pc, opcode) {
        Ok(y) => y,
        Err(e) => {
            return Err(name_register(e, "float 2addr right v", source, &right));
        },
    };
    a.put(dest, Value::Float(single_operation(opcode - 0xc6, x, y)), 1, opcode)
}

pub fn single_arithmetic(code: &CodeItem, a: &mut Activation, opcode: u8, instruction: u16) -> (r:
    Result<(), VmError>)
    requires
        old(a).pc < usize::MAX,
        0xa6 <= opcode <= 0xaa || 0xc6 <= opcode <= 0xca,
    ensures
        code::stepped(r, final(a)@) == single_step(
            code.instructions@,
            old(a)@,
            opcode,
            instruction,
        ),
{
    if 0xc6 <= opcode {
        return single_two(a, opcode, instruction);
    }
    let w = operand(code, a.pc, 1, opcode)?;
    let (dest, left, right) = three_registers(instruction, w);
    let x = a.single(left, opcode)?;
    let y = a.single(right, opcode)?;
    a.put(dest, Value::Float(single_operation(opcode - 0xa6, x, y)), 2, opcode)
}

// Doubles: opcodes 0xab to 0xaf on three registers and 0xcb to 0xcf on two.

pub open spec fn double_result(kind: int, x: u64, y: u64) -> u64 {
    if kind == 0 {
        arith::double_sum(x, y)
    } else if kind == 1 {
        arith::double_difference(x, y)
    } else if kind == 2 {
        arith::double_product(x, y)
    } else if kind == 3 {
        arith::double_quotient(x, y)
    } else {
        arith::double_remainder(x, y)
    }
}

fn double_operation(kind: u8, x: u64, y: u64) -> (r: u64)
    ensures
        r == double_result(kind as int, x, y),
{
    if kind == 0 {
        arith::double_add(x, y)
    } else if kind == 1 {
        arith::double_subtract(x, y)
    } else if kind == 2 {
        arith::double_multiply(x, y)
    } else if kind == 3 {
        arith::double_divide(x, y)
    } else {
        arith::double_modulo(x, y)
    }
}

pub open spec fn wide_double(a: ActivationView, index: int, opcode: u8) -> Result<u64, ErrorView> {
    match code::wide(a.registers, index, a.pc, opcode) {
        Err(e) => Err(e),
        Ok(v) => convert::double_of(v, a.pc, opcode),
    }
}

fn read_double(a: &Activation, index: usize, opcode: u8) -> (r: Result<u64, VmError>)
    ensures
        err_of(r) == wide_double(a@, index as int, opcode),
{
    let v = read_wide_register(&a.registers, index, a.pc, opcode)?;
    as_double(v, a.pc, opcode)
}

pub open spec fn double_step(
    words: Seq<u16>,
    a: ActivationView,
    opcode: u8,
    instruction: u16,
) -> Stepped {
    if 0xcb <= opcode {
        match wide_double(a, code::low_nibble(instruction), opcode) {
            Err(e) => Err(e),
            Ok(x) => match wide_double(a, code::high_nibble(instruction), opcode) {
                Err(e) => Err(e),
                Ok(y) => code::put_wide(
                    a,
                    code::low_nibble(instruction),
                    ValueView::Double(double_result(opcode - 0xcb, x, y)),
                    1,
                    opcode,
                ),
            },
        }
    } else {
        match code::word(words, a.pc + 1, a.pc, opcode) {
            Err(e) => Err(e),
            Ok(w) => match a.double(code::low_byte(w), opcode) {
                Err(e) => Err(e),
                Ok(x) => match a.double(code::high_byte(w), opcode) {
                    Err(e) => Err(e),
                    Ok(y) => code::put_wide(
                        a,
                        code::high_byte(instruction),
                        ValueView::Double(double_result(opcode - 0xab, x, y)),
                        2,
                        opcode,
                    ),
                },
            },
        }
    }
}

pub fn double_arithmetic(code: &CodeItem, a: &mut Activation, opcode: u8, instruction: u16) -> (r:
    Result<(), VmError>)
    requires
        old(a).pc < usize::MAX,
        0xab <= opcode <= 0xaf || 0xcb <= opcode <= 0xcf,
    ensures
        code::stepped(r, final(a)@) == double_step(
            code.instructions@,
            old(a)@,
            opcode,
            instruction,
        ),
{
    if 0xcb <= opcode {
        let (dest, source) = two_registers(instruction);
        let x = read_double(a, dest, opcode)?;
        let y = read_double(a, source, opcode)?;
        return a.put_wide(
            dest,
            Value::Double(double_operation(opcode - 0xcb, x, y)),
            1,
            opcode,
        );
    }
    let w = operand(code, a.pc, 1, opcode)?;
    let (dest, left, right) = three_registers(instruction, w);
    let x = a.double(left, opcode)?;
    let y = a.double(right, opcode)?;
    a.put_wide(dest, Value::Double(double_operation(opcode - 0xab, x, y)), 2, opcode)
}

} // verus!
