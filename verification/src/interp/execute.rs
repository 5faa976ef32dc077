//! Which instruction an opcode is.

use vstd::prelude::*;

use crate::code;
use crate::code::{byte_register, operand, Activation, ActivationView, Stepped};
use crate::dex::{CodeItem, DexFile};
use crate::error;
use crate::error::{failure, VmError};
use crate::interp::arithmetic;
use crate::interp::arrays;
use crate::interp::arrays::Worked;
use crate::interp::branches;
use crate::interp::moves;
use crate::interp::objects;
use crate::world::{World, WorldView};

verus! {

/// Whether an instruction ends its method.
pub open spec fn ends_method(opcode: u8) -> bool {
    0x0e <= opcode <= 0x11
}

/// Whether an instruction reads a static field.
pub open spec fn loads_static(opcode: u8) -> bool {
    0x60 <= opcode <= 0x66
}

/// Whether an instruction writes a static field.
pub open spec fn stores_static(opcode: u8) -> bool {
    0x67 <= opcode <= 0x6d
}

/// Whether an instruction calls a method.
pub open spec fn invokes(opcode: u8) -> bool {
    0x6e <= opcode <= 0x72 || 0x74 <= opcode <= 0x78
}

/// `check-cast` lets every value pass: opcode 0x1f.
pub open spec fn check_step(
    words: Seq<u16>,
    a: ActivationView,
    opcode: u8,
    instruction: u16,
) -> Stepped {
    match code::word(words, a.pc + 1, a.pc, opcode) {
        Err(e) => Err(e),
        Ok(_) => match a.get(code::high_byte(instruction), opcode) {
            Err(e) => Err(e),
            Ok(_) => Ok(code::skip(a, 2)),
        },
    }
}

fn check_cast(code: &CodeItem, a: &mut Activation, opcode: u8, instruction: u16) -> (r: Result<
    (),
    VmError,
>)
    requires
        old(a).pc < usize::MAX,
    ensures
        code::stepped(r, final(a)@) == check_step(
            code.instructions@,
            old(a)@,
            opcode,
            instruction,
        ),
{
    let _ = operand(code, a.pc, 1, opcode)?;
    let _ = a.value(byte_register(instruction), opcode)?;
    a.skip(2);
    Ok(())
}

/// Instructions on registers alone.
pub open spec fn arithmetic_step(
    words: Seq<u16>,
    a: ActivationView,
    opcode: u8,
    instruction: u16,
) -> Option<Stepped> {
    if 0x2d <= opcode <= 0x31 {
        Some(arithmetic::comparison_step(words, a, opcode, instruction))
    } else if 0x7b <= opcode <= 0x8f {
        Some(arithmetic::unary_step(a, opcode, instruction))
    } else if 0x90 <= opcode <= 0x9a || 0xb0 <= opcode <= 0xba || 0xd0 <= opcode <= 0xdf {
        Some(arithmetic::int_step(words, a, opcode, instruction))
    } else if 0x9b <= opcode <= 0xa5 || 0xbb <= opcode <= 0xc5 {
        Some(arithmetic::long_step(words, a, opcode, instruction))
    } else if 0xa6 <= opcode <= 0xaa || 0xc6 <= opcode <= 0xca {
        Some(arithmetic::single_step(words, a, opcode, instruction))
    } else if 0xab <= opcode <= 0xaf || 0xcb <= opcode <= 0xcf {
        Some(arithmetic::double_step(words, a, opcode, instruction))
    } else {
        None
    }
}

pub open spec fn maybe_stepped(r: Option<Result<(), VmError>>, after: ActivationView) -> Option<
    Stepped,
> {
    match r {
        Some(r) => Some(code::stepped(r, after)),
        None => None,
    }
}

fn execute_arithmetic(code: &CodeItem, a: &mut Activation, opcode: u8, instruction: u16) -> (r:
    Option<Result<(), VmError>>)
    requires
        old(a).pc < usize::MAX,
    ensures
        maybe_stepped(r, final(a)@) == arithmetic_step(
            code.instructions@,
            old(a)@,
            opcode,
            instruction,
        ),
        r is None ==> *final(a) == *old(a),
{
    if 0x2d <= opcode && opcode <= 0x31 {
        Some(arithmetic::comparison(code, a, opcode, instruction))
    } else if 0x7b <= opcode && opcode <= 0x8f {
        Some(arithmetic::unary_operation(a, opcode, instruction))
    } else if (0x90 <= opcode && opcode <= 0x9a) || (0xb0 <= opcode && opcode <= 0xba) || (0xd0
        <= opcode && opcode <= 0xdf) {
        Some(arithmetic::int_arithmetic(code, a, opcode, instruction))
    } else if (0x9b <= opcode && opcode <= 0xa5) || (0xbb <= opcode && opcode <= 0xc5) {
        Some(arithmetic::long_arithmetic(code, a, opcode, instruction))
    } else if (0xa6 <= opcode && opcode <= 0xaa) || (0xc6 <= opcode && opcode <= 0xca) {
        Some(arithmetic::single_arithmetic(code, a, opcode, instruction))
    } else if (0xab <= opcode && opcode <= 0xaf) || (0xcb <= opcode && opcode <= 0xcf) {
        Some(arithmetic::double_arithmetic(code, a, opcode, instruction))
    } else {
        None
    }
}

/// Moves, constants and jumps.
pub open spec fn control_step(
    dex: &DexFile,
    words: Seq<u16>,
    a: ActivationView,
    opcode: u8,
    instruction: u16,
) -> Option<Stepped> {
    if opcode == 0x00 || opcode == 0x1d || opcode == 0x1e {
        Some(Ok(code::skip(a, 1)))
    } else if 0x01 <= opcode <= 0x09 {
        Some(moves::move_step(words, a, opcode, instruction))
    } else if 0x0a <= opcode <= 0x0d {
        Some(moves::result_step(a, opcode, instruction))
    } else if 0x12 <= opcode <= 0x19 {
        Some(moves::constant_step(words, a, opcode, instruction))
    } else if opcode == 0x1a || opcode == 0x1b {
        Some(moves::string_step(dex, words, a, opcode, instruction))
    } else if opcode == 0x1f {
        Some(check_step(words, a, opcode, instruction))
    } else if opcode == 0x27 {
        Some(Err(error::fault(a.pc, opcode, "throw is not implemented"@)))
    } else if 0x28 <= opcode <= 0x2a {
        Some(branches::goto_step(words, a, opcode, instruction))
    } else if opcode == 0x2b || opcode == 0x2c {
        Some(branches::switch_step(words, a, opcode, instruction))
    } else if 0x32 <= opcode <= 0x37 {
        Some(branches::pair_step(words, a, opcode, instruction))
    } else if 0x38 <= opcode <= 0x3d {
        Some(branches::zero_step(words, a, opcode, instruction))
    } else {
        None
    }
}

fn execute_control(
    dex: &DexFile,
    code: &CodeItem,
    a: &mut Activation,
    opcode: u8,
    instruction: u16,
) -> (r: Option<Result<(), VmError>>)
    requires
        old(a).pc < usize::MAX,
    ensures
        maybe_stepped(r, final(a)@) == control_step(
            dex,
            code.instructions@,
            old(a)@,
            opcode,
            instruction,
        ),
        r is None ==> *final(a) == *old(a),
{
    if opcode == 0x00 || opcode == 0x1d || opcode == 0x1e {
        a.skip(1);
        Some(Ok(()))
    } else if 0x01 <= opcode && opcode <= 0x09 {
        Some(moves::move_register(code, a, opcode, instruction))
    } else if 0x0a <= opcode && opcode <= 0x0d {
        Some(moves::move_result(a, opcode, instruction))
    } else if 0x12 <= opcode && opcode <= 0x19 {
        Some(moves::constant(code, a, opcode, instruction))
    } else if opcode == 0x1a || opcode == 0x1b {
        Some(moves::constant_string(dex, code, a, opcode, instruction))
    } else if opcode == 0x1f {
        Some(check_cast(code, a, opcode, instruction))
    } else if opcode == 0x27 {
        Some(Err(failure(a.pc, opcode, "throw is not implemented")))
    } else if 0x28 <= opcode && opcode <= 0x2a {
        Some(branches::goto(code, a, opcode, instruction))
    } else if opcode == 0x2b || opcode == 0x2c {
        Some(branches::switch(code, a, opcode, instruction))
    } else if 0x32 <= opcode && opcode <= 0x37 {
        Some(branches::branch_on_pair(code, a, opcode, instruction))
    } else if 0x38 <= opcode && opcode <= 0x3d {
        Some(branches::branch_on_zero(code, a, opcode, instruction))
    } else {
        None
    }
}

/// Instructions on the heap.
pub open spec fn heap_step(
    dex: &DexFile,
    words: Seq<u16>,
    w: WorldView,
    a: ActivationView,
    opcode: u8,
    instruction: u16,
) -> Worked {
    if opcode == 0x1c {
        objects::class_step(dex, words, w, a, opcode, instruction)
    } else if opcode == 0x20 {
        (w, objects::instance_of_step(dex, words, w, a, opcode, instruction))
    } else if opcode == 0x21 {
        (w, arrays::length_step(w, a, opcode, instruction))
    } else if opcode == 0x22 {
        objects::new_instance_step(dex, words, w, a, opcode, instruction)
    } else if opcode == 0x23 {
        arrays::new_array_step(dex, words, w, a, opcode, instruction)
    } else if opcode == 0x24 || opcode == 0x25 {
        arrays::filled_step(dex, words, w, a, opcode, instruction)
    } else if opcode == 0x26 {
        arrays::fill_step(words, w, a, opcode, instruction)
    } else if 0x44 <= opcode <= 0x4b {
        (w, arrays::load_step(words, w, a, opcode, instruction))
    } else if 0x4c <= opcode <= 0x51 {
        arrays::store_step(words, w, a, opcode, instruction)
    } else if 0x52 <= opcode <= 0x58 {
        objects::get_step(dex, words, w, a, opcode, instruction)
    } else if 0x59 <= opcode <= 0x5f {
        objects::put_step(dex, words, w, a, opcode, instruction)
    } else {
        (w, Err(error::fault(a.pc, opcode, "opcode is not implemented by the VM"@)))
    }
}

fn execute_heap(
    dex: &DexFile,
    code: &CodeItem,
    w: &mut World,
    a: &mut Activation,
    opcode: u8,
    instruction: u16,
) -> (r: Result<(), VmError>)
    requires
        old(a).pc < usize::MAX,
    ensures
        (final(w)@, code::stepped(r, final(a)@)) == heap_step(
            dex,
            code.instructions@,
            old(w)@,
            old(a)@,
            opcode,
            instruction,
        ),
{
    if opcode == 0x1c {
        objects::constant_class(dex, code, w, a, opcode, instruction)
    } else if opcode == 0x20 {
        objects::instance_of(dex, code, w, a, opcode, instruction)
    } else if opcode == 0x21 {
        arrays::array_length(w, a, opcode, instruction)
    } else if opcode == 0x22 {
        objects::new_instance(dex, code, w, a, opcode, instruction)
    } else if opcode == 0x23 {
        arrays::new_array(dex, code, w, a, opcode, instruction)
    } else if opcode == 0x24 || opcode == 0x25 {
        arrays::filled_array(dex, code, w, a, opcode, instruction)
    } else if opcode == 0x26 {
        arrays::fill_array(code, w, a, opcode, instruction)
    } else if 0x44 <= opcode && opcode <= 0x4b {
        arrays::load_element(code, w, a, opcode, instruction)
    } else if 0x4c <= opcode && opcode <= 0x51 {
        arrays::store_element(code, w, a, opcode, instruction)
    } else if 0x52 <= opcode && opcode <= 0x58 {
        objects::get_field(dex, code, w, a, opcode, instruction)
    } else if 0x59 <= opcode && opcode <= 0x5f {
        objects::put_field(dex, code, w, a, opcode, instruction)
    } else {
        Err(failure(a.pc, opcode, "opcode is not implemented by the VM"))
    }
}

/// An instruction that neither ends its method, nor calls one, nor touches a static field.
pub open spec fn plain_step(
    dex: &DexFile,
    words: Seq<u16>,
    w: WorldView,
    a: ActivationView,
    opcode: u8,
    instruction: u16,
) -> Worked {
    match arithmetic_step(words, a, opcode, instruction) {
        Some(done) => (w, done),
        None => match control_step(dex, words, a, opcode, instruction) {
            Some(done) => (w, done),
            None => heap_step(dex, words, w, a, opcode, instruction),
        },
    }
}

pub fn execute_plain(
    dex: &DexFile,
    code: &CodeItem,
    w: &mut World,
    a: &mut Activation,
    opcode: u8,
    instruction: u16,
) -> (r: Result<(), VmError>)
    requires
        old(a).pc < usize::MAX,
    ensures
        (final(w)@, code::stepped(r, final(a)@)) == plain_step(
            dex,
            code.instructions@,
            old(w)@,
            old(a)@,
            opcode,
            instruction,
        ),
{
    match execute_arithmetic(code, a, opcode, instruction) {
        Some(r) => {
            return r;
        },
        None => {},
    }
    match execute_control(dex, code, a, opcode, instruction) {
        Some(r) => {
            return r;
        },
        None => {},
    }
    execute_heap(dex, code, w, a, opcode, instruction)
}

} // verus!
