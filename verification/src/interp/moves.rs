//! Moves between registers, and constants.

use vstd::prelude::*;

use crate::code;
use crate::code::{
    byte_register, extend16, join_words, operand, read_wide_register, two_registers, Activation,
    ActivationView, Stepped,
};
use crate::dex::{CodeItem, DexFile};
use crate::error;
use crate::error::{failure, Outcome, VmError};
use crate::ops;
use crate::ops::as_signed;
use crate::value::{Value, ValueView};

verus! {

/// Two nibbles, a byte and a word, or two words name the destination and the source.
pub open spec fn move_shape(opcode: u8) -> int {
    if opcode == 0x01 || opcode == 0x04 || opcode == 0x07 {
        1
    } else if opcode == 0x02 || opcode == 0x05 || opcode == 0x08 {
        2
    } else {
        3
    }
}

pub open spec fn move_is_wide(opcode: u8) -> bool {
    0x04 <= opcode <= 0x06
}

pub open spec fn moved(
    a: ActivationView,
    dest: int,
    source: int,
    size: int,
    opcode: u8,
) -> Stepped {
    match a.get(source, opcode) {
        Err(e) => Err(e),
        Ok(v) => if move_is_wide(opcode) {
            code::put_wide(a, dest, v, size, opcode)
        } else {
            code::put(a, dest, v, size, opcode)
        },
    }
}

/// `move` and its relatives: opcodes 0x01 to 0x09.
pub open spec fn move_step(
    words: Seq<u16>,
    a: ActivationView,
    opcode: u8,
    instruction: u16,
) -> Stepped {
    if move_shape(opcode) == 1 {
        moved(a, code::low_nibble(instruction), code::high_nibble(instruction), 1, opcode)
    } else if move_shape(opcode) == 2 {
        match code::word(words, a.pc + 1, a.pc, opcode) {
            Err(e) => Err(e),
            Ok(source) => moved(a, code::high_byte(instruction), source as int, 2, opcode),
        }
    } else {
        match code::word(words, a.pc + 1, a.pc, opcode) {
            Err(e) => Err(e),
            Ok(dest) => match code::word(words, a.pc + 2, a.pc, opcode) {
                Err(e) => Err(e),
                Ok(source) => moved(a, dest as int, source as int, 3, opcode),
            },
        }
    }
}

fn copy_register(a: &mut Activation, dest: usize, source: usize, size: usize, opcode: u8) -> (r:
    Result<(), VmError>)
    requires
        old(a).pc + size <= usize::MAX,
    ensures
        code::stepped(r, final(a)@) == moved(
            old(a)@,
            dest as int,
            source as int,
            size as int,
            opcode,
        ),
{
    let v = a.value(source, opcode)?;
    if 0x04 <= opcode && opcode <= 0x06 {
        a.put_wide(dest, v, size, opcode)
    } else {
        a.put(dest, v, size, opcode)
    }
}

pub fn move_register(code: &CodeItem, a: &mut Activation, opcode: u8, instruction: u16) -> (r:
    Result<(), VmError>)
    requires
        old(a).pc < usize::MAX,
    ensures
        code::stepped(r, final(a)@) == move_step(
            code.instructions@,
            old(a)@,
            opcode,
            instruction,
        ),
{
    if opcode == 0x01 || opcode == 0x04 || opcode == 0x07 {
        let (dest, source) = two_registers(instruction);
        copy_register(a, dest, source, 1, opcode)
    } else if opcode == 0x02 || opcode == 0x05 || opcode == 0x08 {
        let source = operand(code, a.pc, 1, opcode)?;
        copy_register(a, byte_register(instruction), source as usize, 2, opcode)
    } else {
        let dest = operand(code, a.pc, 1, opcode)?;
        let source = operand(code, a.pc, 2, opcode)?;
        copy_register(a, dest as usize, source as usize, 3, opcode)
    }
}

/// `move-exception` takes the upper half of a long and the lower half of a double.
pub open spec fn halved(value: ValueView) -> ValueView {
    match value {
        ValueView::Long(v) => ValueView::Int((v >> 32) as i32),
        ValueView::Double(v) => ValueView::Int(v as u32 as i32),
        _ => value,
    }
}

/// `move-result` and its relatives: opcodes 0x0a to 0x0d.
pub open spec fn result_step(a: ActivationView, opcode: u8, instruction: u16) -> Stepped {
    let dest = code::high_byte(instruction);
    if opcode == 0x0b {
        code::put_wide(a, dest, a.result, 1, opcode)
    } else if opcode == 0x0d {
        code::put(a, dest, halved(a.result), 1, opcode)
    } else {
        code::put(a, dest, a.result, 1, opcode)
    }
}

pub fn move_result(a: &mut Activation, opcode: u8, instruction: u16) -> (r: Result<(), VmError>)
    requires
        old(a).pc < usize::MAX,
    ensures
        code::stepped(r, final(a)@) == result_step(old(a)@, opcode, instruction),
{
    let dest = byte_register(instruction);
    if opcode == 0x0b {
        let v = a.result.clone();
        a.put_wide(dest, v, 1, opcode)
    } else if opcode == 0x0d {
        let v = match &a.result {
            Value::Long(v) => Value::Int((*v >> 32) as i32),
            Value::Double(v) => Value::Int(*v as u32 as i32),
            v => v.clone(),
        };
        a.put(dest, v, 1, opcode)
    } else {
        let v = a.result.clone();
        a.put(dest, v, 1, opcode)
    }
}

/// What a method returns: opcodes 0x0e to 0x11.
pub open spec fn returned(a: ActivationView, opcode: u8, instruction: u16) -> Outcome {
    if opcode == 0x0e {
        Ok(ValueView::Void)
    } else if opcode == 0x10 {
        code::wide(a.registers, code::high_byte(instruction), a.pc, opcode)
    } else {
        a.get(code::high_byte(instruction), opcode)
    }
}

pub fn return_value(a: &Activation, opcode: u8, instruction: u16) -> (r: Result<Value, VmError>)
    ensures
        error::outcome(r) == returned(a@, opcode, instruction),
{
    if opcode == 0x0e {
        Ok(Value::Void)
    } else if opcode == 0x10 {
        let v = read_wide_register(&a.registers, byte_register(instruction), a.pc, opcode)?;
        Ok(v.clone())
    } else {
        a.value(byte_register(instruction), opcode)
    }
}

/// Constants: opcodes 0x12 to 0x19. The nibble of 0x12 and the 32 bits of 0x17 are taken as
/// they are, without a sign.
pub open spec fn constant_step(
    words: Seq<u16>,
    a: ActivationView,
    opcode: u8,
    instruction: u16,
) -> Stepped {
    let dest = code::high_byte(instruction);
    let first = code::word(words, a.pc + 1, a.pc, opcode);
    let second = code::word(words, a.pc + 2, a.pc, opcode);
    let third = code::word(words, a.pc + 3, a.pc, opcode);
    let fourth = code::word(words, a.pc + 4, a.pc, opcode);
    if opcode == 0x12 {
        code::put(
            a,
            code::low_nibble(instruction),
            ValueView::Int(code::high_nibble(instruction) as i32),
            1,
            opcode,
        )
    } else {
        match first {
            Err(e) => Err(e),
            Ok(w1) => if opcode == 0x13 {
                code::put(a, dest, ValueView::Int(code::signed16(w1) as i32), 2, opcode)
            } else if opcode == 0x15 {
                code::put(
                    a,
                    dest,
                    ValueView::Int((code::signed16(w1) * 0x1_0000) as i32),
                    2,
                    opcode,
                )
            } else if opcode == 0x16 {
                code::put_wide(a, dest, ValueView::Long(code::signed16(w1) as i64), 2, opcode)
            } else if opcode == 0x19 {
                code::put_wide(
                    a,
                    dest,
                    ValueView::Long((code::signed16(w1) * 0x1_0000_0000_0000) as i64),
                    2,
                    opcode,
                )
            } else {
                match second {
                    Err(e) => Err(e),
                    Ok(w2) => if opcode == 0x14 {
                        code::put(
                            a,
                            dest,
                            ValueView::Int(ops::signed32(code::pair(w1, w2) as int) as i32),
                            3,
                            opcode,
                        )
                    } else if opcode == 0x17 {
                        code::put_wide(
                            a,
                            dest,
                            ValueView::Long(code::pair(w1, w2) as i64),
                            3,
                            opcode,
                        )
                    } else {
                        match third {
                            Err(e) => Err(e),
                            Ok(w3) => match fourth {
                                Err(e) => Err(e),
                                Ok(w4) => code::put_wide(
                                    a,
                                    dest,
                                    ValueView::Long(
                                        (code::pair(w1, w2) + ops::signed32(
                                            code::pair(w3, w4) as int,
                                        ) * 0x1_0000_0000) as i64,
                                    ),
                                    5,
                                    opcode,
                                ),
                            },
                        }
                    },
                }
            },
        }
    }
}

pub fn constant(code: &CodeItem, a: &mut Activation, opcode: u8, instruction: u16) -> (r: Result<
    (),
    VmError,
>)
    requires
        old(a).pc < usize::MAX,
    ensures
        code::stepped(r, final(a)@) == constant_step(
            code.instructions@,
            old(a)@,
            opcode,
            instruction,
        ),
{
    if opcode == 0x12 {
        let (dest, literal) = two_registers(instruction);
        return a.put(dest, Value::Int(literal as i32), 1, opcode);
    }
    let dest = byte_register(instruction);
    let w1 = operand(code, a.pc, 1, opcode)?;
    if opcode == 0x13 {
        return a.put(dest, Value::Int(extend16(w1)), 2, opcode);
    }
    if opcode == 0x15 {
        return a.put(dest, Value::Int(extend16(w1) * 0x1_0000), 2, opcode);
    }
    if opcode == 0x16 {
        return a.put_wide(dest, Value::Long(extend16(w1) as i64), 2, opcode);
    }
    if opcode == 0x19 {
        return a.put_wide(dest, Value::Long(extend16(w1) as i64 * 0x1_0000_0000_0000), 2, opcode);
    }
    let w2 = operand(code, a.pc, 2, opcode)?;
    let low = join_words(w1, w2);
    if opcode == 0x14 {
        return a.put(dest, Value::Int(as_signed(low)), 3, opcode);
    }
    if opcode == 0x17 {
        return a.put_wide(dest, Value::Long(low as i64), 3, opcode);
    }
    let w3 = operand(code, a.pc, 3, opcode)?;
    let w4 = operand(code, a.pc, 4, opcode)?;
    let high = as_signed(join_words(w3, w4));
    a.put_wide(dest, Value::Long(low as i64 + high as i64 * 0x1_0000_0000), 5, opcode)
}

/// String constants: opcodes 0x1a and 0x1b.
pub open spec fn string_step(
    dex: &DexFile,
    words: Seq<u16>,
    a: ActivationView,
    opcode: u8,
    instruction: u16,
) -> Stepped {
    match code::word(words, a.pc + 1, a.pc, opcode) {
        Err(e) => Err(e),
        Ok(w1) => match code::word(words, a.pc + 2, a.pc, opcode) {
            Err(e) => if opcode == 0x1a {
                put_string(dex, a, w1 as int, 2, opcode, instruction)
            } else {
                Err(e)
            },
            Ok(w2) => if opcode == 0x1a {
                put_string(dex, a, w1 as int, 2, opcode, instruction)
            } else {
                put_string(dex, a, code::pair(w1, w2) as int, 3, opcode, instruction)
            },
        },
    }
}

pub open spec fn put_string(
    dex: &DexFile,
    a: ActivationView,
    index: int,
    size: int,
    opcode: u8,
    instruction: u16,
) -> Stepped {
    if index < dex.strings.len() {
        code::put(
            a,
            code::high_byte(instruction),
            ValueView::String(dex.strings[index]@),
            size,
            opcode,
        )
    } else {
        Err(error::fault(a.pc, opcode, "string index is invalid"@))
    }
}

pub fn constant_string(
    dex: &DexFile,
    code: &CodeItem,
    a: &mut Activation,
    opcode: u8,
    instruction: u16,
) -> (r: Result<(), VmError>)
    requires
        old(a).pc < usize::MAX,
    ensures
        code::stepped(r, final(a)@) == string_step(
            dex,
            code.instructions@,
            old(a)@,
            opcode,
            instruction,
        ),
{
    let w1 = operand(code, a.pc, 1, opcode)?;
    let mut index: usize = w1 as usize;
    let mut size: usize = 2;
    if opcode != 0x1a {
        let w2 = operand(code, a.pc, 2, opcode)?;
        index = join_words(w1, w2) as usize;
        size = 3;
    }
    if index < dex.strings.len() {
        let text = dex.strings[index].clone();
        a.put(byte_register(instruction), Value::String(text), size, opcode)
    } else {
        Err(failure(a.pc, opcode, "string index is invalid"))
    }
}

} // verus!
