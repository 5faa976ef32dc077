//! Jumps, tests and switches.

use vstd::prelude::*;

use crate::code;
use crate::code::{
    byte_register, extend16, extend8, join_words, operand, two_registers, Activation,
    ActivationView, Stepped,
};
use crate::convert;
use crate::convert::{as_int, compare_values, err_of, is_zero, values_equal};
use crate::dex::CodeItem;
use crate::error;
use crate::error::{failure, ErrorView, VmError};
use crate::ops;
use crate::ops::as_signed;
use crate::value::{Value, ValueView};

verus! {

/// `goto`: opcodes 0x28 to 0x2a. The long form reads one word, as the middle one does.
pub open spec fn goto_step(
    words: Seq<u16>,
    a: ActivationView,
    opcode: u8,
    instruction: u16,
) -> Stepped {
    if opcode == 0x28 {
        code::jump(a, code::signed8(code::high_byte(instruction)), words.len(), opcode)
    } else {
        match code::word(words, a.pc + 1, a.pc, opcode) {
            Err(e) => Err(e),
            Ok(w) => code::jump(a, code::signed16(w), words.len(), opcode),
        }
    }
}

pub fn goto(code: &CodeItem, a: &mut Activation, opcode: u8, instruction: u16) -> (r: Result<
    (),
    VmError,
>)
    ensures
        code::stepped(r, final(a)@) == goto_step(code.instructions@, old(a)@, opcode, instruction),
{
    if opcode == 0x28 {
        a.jump(extend8(instruction / 0x100), code, opcode)
    } else {
        let w = operand(code, a.pc, 1, opcode)?;
        a.jump(extend16(w), code, opcode)
    }
}

pub open spec fn branch(
    a: ActivationView,
    taken: bool,
    offset: int,
    len: nat,
    opcode: u8,
) -> Stepped {
    if taken {
        code::jump(a, offset, len, opcode)
    } else {
        Ok(code::skip(a, 2))
    }
}

/// Whether a test of two values holds: equal, not equal, less, at least, greater, at most.
pub open spec fn pair_test(x: ValueView, y: ValueView, pc: usize, opcode: u8) -> Result<
    bool,
    ErrorView,
> {
    if opcode == 0x32 {
        Ok(convert::equal(x, y))
    } else if opcode == 0x33 {
        Ok(!convert::equal(x, y))
    } else {
        match convert::comparison(x, y) {
            None => Err(convert::incomparable(x, y, pc, opcode)),
            Some(order) => if opcode == 0x34 {
                Ok(order < 0)
            } else if opcode == 0x35 {
                Ok(order >= 0)
            } else if opcode == 0x36 {
                Ok(order > 0)
            } else {
                Ok(order <= 0)
            },
        }
    }
}

/// Tests of two registers: opcodes 0x32 to 0x37.
pub open spec fn pair_step(
    words: Seq<u16>,
    a: ActivationView,
    opcode: u8,
    instruction: u16,
) -> Stepped {
    match code::word(words, a.pc + 1, a.pc, opcode) {
        Err(e) => Err(e),
        Ok(w) => match a.get(code::low_nibble(instruction), opcode) {
            Err(e) => Err(e),
            Ok(x) => match a.get(code::high_nibble(instruction), opcode) {
                Err(e) => Err(e),
                Ok(y) => match pair_test(x, y, a.pc, opcode) {
                    Err(e) => Err(e),
                    Ok(taken) => branch(a, taken, code::signed16(w), words.len(), opcode),
                },
            },
        },
    }
}

fn test_pair(x: &Value, y: &Value, pc: usize, opcode: u8) -> (r: Result<bool, VmError>)
    ensures
        err_of(r) == pair_test(x@, y@, pc, opcode),
{
    if opcode == 0x32 {
        Ok(values_equal(x, y))
    } else if opcode == 0x33 {
        Ok(!values_equal(x, y))
    } else {
        let order = compare_values(x, y, pc, opcode)?;
        if opcode == 0x34 {
            Ok(order < 0)
        } else if opcode == 0x35 {
            Ok(order >= 0)
        } else if opcode == 0x36 {
            Ok(order > 0)
        } else {
            Ok(order <= 0)
        }
    }
}

pub fn branch_on_pair(code: &CodeItem, a: &mut Activation, opcode: u8, instruction: u16) -> (r:
    Result<(), VmError>)
    requires
        old(a).pc < usize::MAX,
    ensures
        code::stepped(r, final(a)@) == pair_step(code.instructions@, old(a)@, opcode, instruction),
{
    let (left, right) = two_registers(instruction);
    let w = operand(code, a.pc, 1, opcode)?;
    let x = a.value(left, opcode)?;
    let y = a.value(right, opcode)?;
    if test_pair(&x, &y, a.pc, opcode)? {
        a.jump(extend16(w), code, opcode)
    } else {
        a.skip(2);
        Ok(())
    }
}

/// Whether a test of a value against zero holds.
pub open spec fn zero_test(x: ValueView, pc: usize, opcode: u8) -> Result<bool, ErrorView> {
    if opcode == 0x38 {
        Ok(convert::zero(x))
    } else if opcode == 0x39 {
        Ok(!convert::zero(x))
    } else {
        match convert::int_of(x, pc, opcode) {
            Err(e) => Err(e),
            Ok(v) => if opcode == 0x3a {
                Ok(v < 0)
            } else if opcode == 0x3b {
                Ok(v >= 0)
            } else if opcode == 0x3c {
                Ok(v > 0)
            } else {
                Ok(v <= 0)
            },
        }
    }
}

/// Tests against zero: opcodes 0x38 to 0x3d.
pub open spec fn zero_step(
    words: Seq<u16>,
    a: ActivationView,
    opcode: u8,
    instruction: u16,
) -> Stepped {
    match code::word(words, a.pc + 1, a.pc, opcode) {
        Err(e) => Err(e),
        Ok(w) => match a.get(code::high_byte(instruction), opcode) {
            Err(e) => Err(e),
            Ok(x) => match zero_test(x, a.pc, opcode) {
                Err(e) => Err(e),
                Ok(taken) => branch(a, taken, code::signed16(w), words.len(), opcode),
            },
        },
    }
}

fn test_zero(x: &Value, pc: usize, opcode: u8) -> (r: Result<bool, VmError>)
    ensures
        err_of(r) == zero_test(x@, pc, opcode),
{
    if opcode == 0x38 {
        Ok(is_zero(x))
    } else if opcode == 0x39 {
        Ok(!is_zero(x))
    } else {
        let v = as_int(x, pc, opcode)?;
        if opcode == 0x3a {
            Ok(v < 0)
        } else if opcode == 0x3b {
            Ok(v >= 0)
        } else if opcode == 0x3c {
            Ok(v > 0)
        } else {
            Ok(v <= 0)
        }
    }
}

pub fn branch_on_zero(code: &CodeItem, a: &mut Activation, opcode: u8, instruction: u16) -> (r:
    Result<(), VmError>)
    requires
        old(a).pc < usize::MAX,
    ensures
        code::stepped(r, final(a)@) == zero_step(code.instructions@, old(a)@, opcode, instruction),
{
    let w = operand(code, a.pc, 1, opcode)?;
    let x = a.value(byte_register(instruction), opcode)?;
    if test_zero(&x, a.pc, opcode)? {
        a.jump(extend16(w), code, opcode)
    } else {
        a.skip(2);
        Ok(())
    }
}

// Switches: opcodes 0x2b and 0x2c. A payload lies in the code, at an offset from the
// instruction.

/// Two words of the code as one signed number.
pub open spec fn long_word(words: Seq<u16>, at: int) -> int {
    ops::signed32(code::pair(words[at], words[at + 1]) as int)
}

fn read_long_word(code: &CodeItem, at: usize) -> (r: i32)
    requires
        at + 1 < code.instructions.len(),
    ensures
        r == long_word(code.instructions@, at as int),
{
    as_signed(join_words(code.instructions[at], code.instructions[at + 1]))
}

/// Where a payload of a kind starts: in the code, with at least `least` words and the kind in
/// its first one.
pub open spec fn payload_at(
    words: Seq<u16>,
    at: int,
    kind: u16,
    least: int,
) -> bool {
    0 <= at && at + least <= words.len() && words[at] == kind
}

pub fn find_payload(code: &CodeItem, pc: usize, offset: i32, kind: u16, least: usize) -> (r: Option<
    usize,
>)
    requires
        0 < least,
    ensures
        match r {
            Some(at) => at == pc + offset && payload_at(
                code.instructions@,
                pc + offset,
                kind,
                least as int,
            ),
            None => !payload_at(code.instructions@, pc + offset, kind, least as int),
        },
{
    let at: i128 = pc as i128 + offset as i128;
    if at < 0 || at + least as i128 > code.instructions.len() as i128 {
        return None;
    }
    if code.instructions[at as usize] == kind {
        Some(at as usize)
    } else {
        None
    }
}

/// The target of a packed switch: the keys are consecutive from an unsigned first one.
pub open spec fn packed_target(words: Seq<u16>, at: int, key: i32) -> Result<Option<int>, Seq<char>> {
    if at + 4 > words.len() {
        Err("packed switch target is truncated"@)
    } else {
        let index = key - code::pair(words[at + 2], words[at + 3]);
        if index < 0 || index >= words[at + 1] {
            Ok(None)
        } else if at + 4 + 2 * index + 1 >= words.len() {
            Err("packed switch target is truncated"@)
        } else {
            Ok(Some(long_word(words, at + 4 + 2 * index)))
        }
    }
}

/// The target of a sparse switch from an entry on: each entry is a key and its target. Only the
/// target of the key that is looked for has to be there.
pub open spec fn sparse_target(words: Seq<u16>, at: int, entry: int, key: i32) -> Result<
    Option<int>,
    Seq<char>,
>
    decreases words[at + 1] - entry,
{
    if entry >= words[at + 1] {
        Ok(None)
    } else if at + 2 + 4 * entry + 2 > words.len() {
        Err("sparse switch payload is truncated"@)
    } else if long_word(words, at + 2 + 4 * entry) != key {
        sparse_target(words, at, entry + 1, key)
    } else if at + 2 + 4 * entry + 4 > words.len() {
        Err("sparse switch payload is truncated"@)
    } else {
        Ok(Some(long_word(words, at + 4 + 4 * entry)))
    }
}

pub open spec fn switch_kind(opcode: u8) -> u16 {
    if opcode == 0x2b {
        0x0100
    } else {
        0x0200
    }
}

pub open spec fn switch_target(words: Seq<u16>, at: int, key: i32, opcode: u8) -> Result<
    Option<int>,
    Seq<char>,
> {
    if opcode == 0x2b {
        packed_target(words, at, key)
    } else {
        sparse_target(words, at, 0, key)
    }
}

pub open spec fn switch_step(
    words: Seq<u16>,
    a: ActivationView,
    opcode: u8,
    instruction: u16,
) -> Stepped {
    match code::word(words, a.pc + 1, a.pc, opcode) {
        Err(e) => Err(e),
        Ok(w1) => match code::word(words, a.pc + 2, a.pc, opcode) {
            Err(e) => Err(e),
            Ok(w2) => {
                let at = a.pc + ops::signed32(code::pair(w1, w2) as int);
                if !payload_at(words, at, switch_kind(opcode), 2) {
                    Err(error::fault(a.pc, opcode, "invalid switch payload"@))
                } else {
                    match a.integer(code::high_byte(instruction), opcode) {
                        Err(e) => Err(e),
                        Ok(key) => match switch_target(words, at, key, opcode) {
                            Err(message) => Err(error::fault(a.pc, opcode, message)),
                            Ok(None) => Ok(code::skip(a, 3)),
                            Ok(Some(offset)) => code::jump(a, offset, words.len(), opcode),
                        },
                    }
                }
            },
        },
    }
}

pub open spec fn target_of(r: Result<Option<i32>, &str>) -> Result<Option<int>, Seq<char>> {
    match r {
        Ok(Some(v)) => Ok(Some(v as int)),
        Ok(None) => Ok(None),
        Err(s) => Err(s@),
    }
}

fn find_packed(code: &CodeItem, at: usize, key: i32) -> (r: Result<Option<i32>, &'static str>)
    requires
        at + 2 <= code.instructions.len(),
    ensures
        target_of(r) == packed_target(code.instructions@, at as int, key),
{
    let len: u128 = code.instructions.len() as u128;
    if at as u128 + 4 > len {
        return Err("packed switch target is truncated");
    }
    let first = join_words(code.instructions[at + 2], code.instructions[at + 3]);
    let index: i64 = key as i64 - first as i64;
    if index < 0 || index >= code.instructions[at + 1] as i64 {
        return Ok(None);
    }
    if at as u128 + 5 + 2 * index as u128 >= len {
        return Err("packed switch target is truncated");
    }
    Ok(Some(read_long_word(code, at + 4 + 2 * index as usize)))
}

fn find_sparse(code: &CodeItem, at: usize, key: i32) -> (r: Result<Option<i32>, &'static str>)
    requires
        at + 2 <= code.instructions.len(),
    ensures
        target_of(r) == sparse_target(code.instructions@, at as int, 0, key),
{
    let len: u128 = code.instructions.len() as u128;
    let size: u16 = code.instructions[at + 1];
    let mut entry: u16 = 0;
    while entry < size
        invariant
            entry <= size,
            at + 2 <= code.instructions.len(),
            len == code.instructions.len(),
            size == code.instructions@[at as int + 1],
            sparse_target(code.instructions@, at as int, 0, key) == sparse_target(
                code.instructions@,
                at as int,
                entry as int,
                key,
            ),
        decreases size - entry,
    {
        let place: u128 = at as u128 + 2 + 4 * entry as u128;
        if place + 2 > len {
            return Err("sparse switch payload is truncated");
        }
        if read_long_word(code, place as usize) == key {
            if place + 4 > len {
                return Err("sparse switch payload is truncated");
            }
            return Ok(Some(read_long_word(code, place as usize + 2)));
        }
        entry += 1;
    }
    Ok(None)
}

pub fn switch(code: &CodeItem, a: &mut Activation, opcode: u8, instruction: u16) -> (r: Result<
    (),
    VmError,
>)
    requires
        old(a).pc < usize::MAX,
    ensures
        code::stepped(r, final(a)@) == switch_step(
            code.instructions@,
            old(a)@,
            opcode,
            instruction,
        ),
{
    let w1 = operand(code, a.pc, 1, opcode)?;
    let w2 = operand(code, a.pc, 2, opcode)?;
    let kind: u16 = if opcode == 0x2b {
        0x0100
    } else {
        0x0200
    };
    let at = match find_payload(code, a.pc, as_signed(join_words(w1, w2)), kind, 2) {
        Some(at) => at,
        None => {
            return Err(failure(a.pc, opcode, "invalid switch payload"));
        },
    };
    let key = a.integer(byte_register(instruction), opcode)?;
    let target = if opcode == 0x2b {
        find_packed(code, at, key)
    } else {
        find_sparse(code, at, key)
    };
    match target {
        Err(message) => Err(failure(a.pc, opcode, message)),
        Ok(None) => {
            a.skip(3);
            Ok(())
        },
        Ok(Some(offset)) => a.jump(offset, code, opcode),
    }
}

} // verus!
