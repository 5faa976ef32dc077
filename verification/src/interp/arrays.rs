//! Arrays.

use vstd::prelude::*;

use crate::code;
use crate::code::{
    byte_register, get_object, invoke_args, join_words, operand, range_args, three_registers,
    two_registers, Activation, ActivationView, Stepped,
};
use crate::dex::{CodeItem, DexFile};
use crate::error;
use crate::error::{failure, VmError};
use crate::interp::branches;
use crate::interp::branches::find_payload;
use crate::ops;
use crate::ops::as_signed;
use crate::text;
use crate::value;
use crate::value::{nulls, push_value, set_value, HeapObject, ObjectView, Value, ValueView};
use crate::world::{World, WorldView};

verus! {

/// The world after an instruction, and what the instruction makes of its activation.
pub type Worked = (WorldView, Stepped);

/// `array-length`: opcode 0x21.
pub open spec fn length_step(w: WorldView, a: ActivationView, opcode: u8, instruction: u16) -> Stepped {
    match code::reference(a.registers, code::high_nibble(instruction), a.pc, opcode) {
        Err(e) => Err(e),
        Ok(id) => match w.object(id) {
            Some(ObjectView::Array { values, .. }) => code::put(
                a,
                code::low_nibble(instruction),
                ValueView::Int(values.len() as i32),
                1,
                opcode,
            ),
            _ => Err(error::fault(a.pc, opcode, "array-length target is not an array"@)),
        },
    }
}

pub fn array_length(w: &World, a: &mut Activation, opcode: u8, instruction: u16) -> (r: Result<
    (),
    VmError,
>)
    requires
        old(a).pc < usize::MAX,
    ensures
        code::stepped(r, final(a)@) == length_step(w@, old(a)@, opcode, instruction),
{
    let (dest, source) = two_registers(instruction);
    let id = get_object(&a.registers, source, a.pc, opcode)?;
    match w.heap_object(id) {
        Some(HeapObject::Array { values, .. }) => {
            let length = values.len() as i32;
            a.put(dest, Value::Int(length), 1, opcode)
        },
        _ => Err(failure(a.pc, opcode, "array-length target is not an array")),
    }
}

/// How long a new array is. Register 9 holding zero makes it twenty.
pub open spec fn array_size(size: i32, source: int) -> nat {
    if size == 0 && source == 9 {
        20
    } else {
        size as nat
    }
}

/// `new-array`: opcode 0x23. A new array holds nulls.
pub open spec fn new_array_step(
    dex: &DexFile,
    words: Seq<u16>,
    w: WorldView,
    a: ActivationView,
    opcode: u8,
    instruction: u16,
) -> Worked {
    let source = code::high_nibble(instruction);
    match a.integer(source, opcode) {
        Err(e) => (w, Err(e)),
        Ok(size) => if size < 0 {
            (w, Err(error::fault(a.pc, opcode, "negative array size"@)))
        } else {
            match code::word(words, a.pc + 1, a.pc, opcode) {
                Err(e) => (w, Err(e)),
                Ok(index) => match dex.descriptor(index as nat) {
                    None => (w, Err(error::fault(a.pc, opcode, "array type index is invalid"@))),
                    Some(component) => (
                        w.with_object(
                            ObjectView::Array {
                                component,
                                values: Seq::new(
                                    array_size(size, source),
                                    |i: int| ValueView::Null,
                                ),
                            },
                        ),
                        code::put(
                            a,
                            code::low_nibble(instruction),
                            ValueView::Object(w.fresh()),
                            2,
                            opcode,
                        ),
                    ),
                },
            }
        },
    }
}

pub fn new_array(
    dex: &DexFile,
    code: &CodeItem,
    w: &mut World,
    a: &mut Activation,
    opcode: u8,
    instruction: u16,
) -> (r: Result<(), VmError>)
    requires
        old(a).pc < usize::MAX,
    ensures
        (final(w)@, code::stepped(r, final(a)@)) == new_array_step(
            dex,
            code.instructions@,
            old(w)@,
            old(a)@,
            opcode,
            instruction,
        ),
{
    let (dest, source) = two_registers(instruction);
    let size = a.integer(source, opcode)?;
    if size < 0 {
        return Err(failure(a.pc, opcode, "negative array size"));
    }
    let index = operand(code, a.pc, 1, opcode)?;
    let component = match dex.type_at(index as usize) {
        Some(c) => c,
        None => {
            return Err(failure(a.pc, opcode, "array type index is invalid"));
        },
    };
    let count: usize = if size == 0 && source == 9 {
        20
    } else {
        size as usize
    };
    let id = w.allocate(
        HeapObject::Array { component: component.to_owned(), values: nulls(count) },
    );
    a.put(dest, Value::Object(id), 2, opcode)
}

/// `filled-new-array`: opcodes 0x24 and 0x25. The array is the result of the instruction.
pub open spec fn filled_step(
    dex: &DexFile,
    words: Seq<u16>,
    w: WorldView,
    a: ActivationView,
    opcode: u8,
    instruction: u16,
) -> Worked {
    match code::word(words, a.pc + 1, a.pc, opcode) {
        Err(e) => (w, Err(e)),
        Ok(index) => match dex.descriptor(index as nat) {
            None => (
                w,
                Err(error::fault(a.pc, opcode, "filled-new-array type index is invalid"@)),
            ),
            Some(component) => match code::word(words, a.pc + 2, a.pc, opcode) {
                Err(e) => (w, Err(e)),
                Ok(named) => match code::gathered(
                    a.registers,
                    if opcode == 0x24 {
                        code::named_registers(instruction, named)
                    } else {
                        code::run_of(named as int, code::high_byte(instruction) as nat)
                    },
                    a.pc,
                    opcode,
                ) {
                    Err(e) => (w, Err(e)),
                    Ok(values) => (
                        w.with_object(ObjectView::Array { component, values }),
                        Ok(
                            code::skip(
                                ActivationView { result: ValueView::Object(w.fresh()), ..a },
                                3,
                            ),
                        ),
                    ),
                },
            },
        },
    }
}

pub fn filled_array(
    dex: &DexFile,
    code: &CodeItem,
    w: &mut World,
    a: &mut Activation,
    opcode: u8,
    instruction: u16,
) -> (r: Result<(), VmError>)
    requires
        old(a).pc < usize::MAX,
    ensures
        (final(w)@, code::stepped(r, final(a)@)) == filled_step(
            dex,
            code.instructions@,
            old(w)@,
            old(a)@,
            opcode,
            instruction,
        ),
{
    let index = operand(code, a.pc, 1, opcode)?;
    let component = match dex.type_at(index as usize) {
        Some(c) => c,
        None => {
            return Err(failure(a.pc, opcode, "filled-new-array type index is invalid"));
        },
    };
    let named = operand(code, a.pc, 2, opcode)?;
    let values = if opcode == 0x24 {
        invoke_args(&a.registers, instruction, named, a.pc, opcode)?
    } else {
        range_args(&a.registers, named, instruction / 0x100, a.pc, opcode)?
    };
    let id = w.allocate(HeapObject::Array { component: component.to_owned(), values });
    a.result = Value::Object(id);
    a.skip(3);
    Ok(())
}

// `fill-array-data`: opcode 0x26.

/// A byte of the data behind a payload's header; the low byte of a word comes first.
pub open spec fn data_byte(words: Seq<u16>, start: int, index: int) -> u32 {
    if index % 2 == 0 {
        (words[start + index / 2] % 0x100) as u32
    } else {
        (words[start + index / 2] / 0x100) as u32
    }
}

/// The first bytes of an element, the lowest first. From the fifth byte on the places are
/// taken again.
pub open spec fn element_bits(words: Seq<u16>, start: int, first: int, count: nat) -> u32
    decreases count,
{
    if count == 0 {
        0
    } else {
        element_bits(words, start, first, (count - 1) as nat) | (data_byte(
            words,
            start,
            first + count - 1,
        ) << ((count - 1) % 4 * 8) as u32)
    }
}

pub open spec fn element(
    words: Seq<u16>,
    start: int,
    width: nat,
    index: int,
    component: Seq<char>,
) -> ValueView {
    let raw = element_bits(words, start, index * width, width);
    if component == "F"@ {
        ValueView::Float(raw)
    } else {
        ValueView::Int(ops::signed32(raw as int) as i32)
    }
}

/// The number of words that so many bytes take.
pub open spec fn words_for(bytes: int) -> int {
    (bytes + 1) / 2
}

pub open spec fn fill_step(
    words: Seq<u16>,
    w: WorldView,
    a: ActivationView,
    opcode: u8,
    instruction: u16,
) -> Worked {
    match code::reference(a.registers, code::high_byte(instruction), a.pc, opcode) {
        Err(e) => (w, Err(e)),
        Ok(id) => match code::word(words, a.pc + 1, a.pc, opcode) {
            Err(e) => (w, Err(e)),
            Ok(w1) => match code::word(words, a.pc + 2, a.pc, opcode) {
                Err(e) => (w, Err(e)),
                Ok(w2) => {
                    let at = a.pc + ops::signed32(code::pair(w1, w2) as int);
                    if !branches::payload_at(words, at, 0x0300, 4) {
                        (w, Err(error::fault(a.pc, opcode, "invalid fill-array-data payload"@)))
                    } else {
                        let width = words[at + 1] as nat;
                        let size = code::pair(words[at + 2], words[at + 3]) as nat;
                        if at + 4 + words_for((width * size) as int) > words.len() {
                            (
                                w,
                                Err(
                                    error::fault(
                                        a.pc,
                                        opcode,
                                        "truncated fill-array-data payload"@,
                                    ),
                                ),
                            )
                        } else {
                            match w.object(id) {
                                Some(ObjectView::Array { component, .. }) => (
                                    w.replaced(
                                        id,
                                        ObjectView::Array {
                                            component,
                                            values: Seq::new(
                                                size,
                                                |i: int|
                                                    element(words, at + 4, width, i, component),
                                            ),
                                        },
                                    ),
                                    Ok(code::skip(a, 3)),
                                ),
                                _ => (
                                    w,
                                    Err(
                                        error::fault(
                                            a.pc,
                                            opcode,
                                            "fill-array-data target is not an array"@,
                                        ),
                                    ),
                                ),
                            }
                        }
                    }
                },
            },
        },
    }
}

fn read_byte(code: &CodeItem, start: usize, index: u64) -> (r: u32)
    requires
        start + index / 2 < code.instructions.len(),
    ensures
        r == data_byte(code.instructions@, start as int, index as int),
{
    let word: u16 = code.instructions[start + (index / 2) as usize];
    if index % 2 == 0 {
        (word % 0x100) as u32
    } else {
        (word / 0x100) as u32
    }
}

fn read_bits(code: &CodeItem, start: usize, first: u64, count: u64) -> (r: u32)
    requires
        start + words_for(first + count) <= code.instructions.len(),
        first + count < u64::MAX,
    ensures
        r == element_bits(code.instructions@, start as int, first as int, count as nat),
{
    let mut raw: u32 = 0;
    let mut i: u64 = 0;
    while i < count
        invariant
            i <= count,
            start + words_for(first + count) <= code.instructions.len(),
            first + count < u64::MAX,
            raw == element_bits(code.instructions@, start as int, first as int, i as nat),
        decreases count - i,
    {
        raw = raw | (read_byte(code, start, first + i) << ((i % 4 * 8) as u32));
        i += 1;
    }
    raw
}

fn read_elements(code: &CodeItem, start: usize, width: u64, size: u64, component: &str) -> (r:
    Vec<Value>)
    requires
        width * size < u64::MAX,
        start + words_for(width * size) <= code.instructions.len(),
    ensures
        value::views(r@) == Seq::new(
            size as nat,
            |i: int|
                element(code.instructions@, start as int, width as nat, i, component@),
        ),
{
    let mut values: Vec<Value> = Vec::new();
    let floating = text::same(component, "F");
    let mut i: u64 = 0;
    while i < size
        invariant
            i <= size,
            width * size < u64::MAX,
            start + words_for(width * size) <= code.instructions.len(),
            floating == (component@ == "F"@),
            value::views(values@) =~= Seq::new(
                i as nat,
                |j: int|
                    element(code.instructions@, start as int, width as nat, j, component@),
            ),
        decreases size - i,
    {
        assert(i * width + width <= width * size) by (nonlinear_arith)
            requires
                i + 1 <= size,
                width >= 0,
        ;
        assert(i * width >= 0) by (nonlinear_arith)
            requires
                i >= 0,
                width >= 0,
        ;
        let raw = read_bits(code, start, i * width, width);
        let v = if floating {
            Value::Float(raw)
        } else {
            Value::Int(as_signed(raw))
        };
        assert(v@ == element(
            code.instructions@,
            start as int,
            width as nat,
            i as int,
            component@,
        ));
        push_value(&mut values, v);
        i += 1;
    }
    values
}

pub fn fill_array(
    code: &CodeItem,
    w: &mut World,
    a: &mut Activation,
    opcode: u8,
    instruction: u16,
) -> (r: Result<(), VmError>)
    requires
        old(a).pc < usize::MAX,
    ensures
        (final(w)@, code::stepped(r, final(a)@)) == fill_step(
            code.instructions@,
            old(w)@,
            old(a)@,
            opcode,
            instruction,
        ),
{
    let id = get_object(&a.registers, byte_register(instruction), a.pc, opcode)?;
    let w1 = operand(code, a.pc, 1, opcode)?;
    let w2 = operand(code, a.pc, 2, opcode)?;
    let at = match find_payload(code, a.pc, as_signed(join_words(w1, w2)), 0x0300, 4) {
        Some(at) => at,
        None => {
            return Err(failure(a.pc, opcode, "invalid fill-array-data payload"));
        },
    };
    let len: u128 = code.instructions.len() as u128;
    let width: u64 = code.instructions[at + 1] as u64;
    let size: u32 = join_words(code.instructions[at + 2], code.instructions[at + 3]);
    assert(0 <= width * size <= 0xffff * 0xffff_ffff) by (nonlinear_arith)
        requires
            0 <= width <= 0xffff,
            0 <= size <= 0xffff_ffff,
    ;
    let bytes: u64 = width * size as u64;
    if at as u128 + 4 + (bytes as u128 + 1) / 2 > len {
        return Err(failure(a.pc, opcode, "truncated fill-array-data payload"));
    }
    let component = match w.heap_object(id) {
        Some(HeapObject::Array { component, .. }) => component.clone(),
        _ => {
            return Err(failure(a.pc, opcode, "fill-array-data target is not an array"));
        },
    };
    let values = read_elements(code, at + 4, width, size as u64, component.as_str());
    w.replace(id, HeapObject::Array { component, values });
    a.skip(3);
    Ok(())
}

// Elements.

/// Reading an element: opcodes 0x44 to 0x4b.
pub open spec fn load_step(
    words: Seq<u16>,
    w: WorldView,
    a: ActivationView,
    opcode: u8,
    instruction: u16,
) -> Stepped {
    match code::word(words, a.pc + 1, a.pc, opcode) {
        Err(e) => Err(e),
        Ok(named) => match code::reference(a.registers, code::low_byte(named), a.pc, opcode) {
            Err(e) => Err(e),
            Ok(id) => match a.integer(code::high_byte(named), opcode) {
                Err(e) => Err(e),
                Ok(index) => match w.object(id) {
                    Some(ObjectView::Array { values, .. }) => match value::at(
                        values,
                        index as int,
                    ) {
                        None => Err(error::fault(a.pc, opcode, "array index out of bounds"@)),
                        Some(v) => if opcode == 0x45 {
                            code::put_wide(a, code::high_byte(instruction), v, 2, opcode)
                        } else {
                            code::put(a, code::high_byte(instruction), v, 2, opcode)
                        },
                    },
                    _ => Err(error::fault(a.pc, opcode, "array target is not an array"@)),
                },
            },
        },
    }
}

pub fn load_element(
    code: &CodeItem,
    w: &World,
    a: &mut Activation,
    opcode: u8,
    instruction: u16,
) -> (r: Result<(), VmError>)
    requires
        old(a).pc < usize::MAX,
    ensures
        code::stepped(r, final(a)@) == load_step(
            code.instructions@,
            w@,
            old(a)@,
            opcode,
            instruction,
        ),
{
    let named = operand(code, a.pc, 1, opcode)?;
    let (dest, array, index) = three_registers(instruction, named);
    let id = get_object(&a.registers, array, a.pc, opcode)?;
    let index = a.integer(index, opcode)?;
    let v = match w.heap_object(id) {
        Some(HeapObject::Array { values, .. }) => {
            if index < 0 || index as usize >= values.len() {
                return Err(failure(a.pc, opcode, "array index out of bounds"));
            }
            values[index as usize].clone()
        },
        _ => {
            return Err(failure(a.pc, opcode, "array target is not an array"));
        },
    };
    if opcode == 0x45 {
        a.put_wide(dest, v, 2, opcode)
    } else {
        a.put(dest, v, 2, opcode)
    }
}

/// What storing an element in an array makes of the world.
pub open spec fn with_element(w: WorldView, id: value::ObjectId, index: int, v: ValueView) -> Result<
    WorldView,
    Seq<char>,
> {
    match w.object(id) {
        Some(ObjectView::Array { component, values }) => if 0 <= index < values.len() {
            Ok(
                w.replaced(
                    id,
                    ObjectView::Array { component, values: values.update(index, v) },
                ),
            )
        } else {
            Err("array index out of bounds"@)
        },
        _ => Err("array target is not an array"@),
    }
}

pub open spec fn stored(r: Result<(), &str>, before: WorldView, after: WorldView) -> Result<
    WorldView,
    Seq<char>,
> {
    match r {
        Ok(_) => Ok(after),
        Err(s) => Err(s@),
    }
}

fn set_element(w: &mut World, id: value::ObjectId, index: i32, v: Value) -> (r: Result<
    (),
    &'static str,
>)
    ensures
        stored(r, old(w)@, final(w)@) == with_element(old(w)@, id, index as int, v@),
        r is Err ==> final(w)@ == old(w)@,
{
    if (id as usize) >= w.heap.len() {
        return Err("array target is not an array");
    }
    match &mut w.heap[id as usize] {
        HeapObject::Array { values, .. } => {
            if index < 0 || index as usize >= values.len() {
                assert(value::heap_view(w.heap@) =~= value::heap_view(old(w).heap@));
                return Err("array index out of bounds");
            }
            set_value(values, index as usize, v);
        },
        _ => {
            assert(value::heap_view(w.heap@) =~= value::heap_view(old(w).heap@));
            return Err("array target is not an array");
        },
    }
    assert(value::heap_view(w.heap@) =~= with_element(
        old(w)@,
        id,
        index as int,
        v@,
    )->Ok_0.heap);
    Ok(())
}

/// Writing an element: opcodes 0x4c to 0x51. A write that fails changes nothing.
pub open spec fn store_step(
    words: Seq<u16>,
    w: WorldView,
    a: ActivationView,
    opcode: u8,
    instruction: u16,
) -> Worked {
    match code::word(words, a.pc + 1, a.pc, opcode) {
        Err(e) => (w, Err(e)),
        Ok(named) => match code::reference(a.registers, code::low_byte(named), a.pc, opcode) {
            Err(e) => (w, Err(e)),
            Ok(id) => match a.integer(code::high_byte(named), opcode) {
                Err(e) => (w, Err(e)),
                Ok(index) => match a.get(code::high_byte(instruction), opcode) {
                    Err(e) => (w, Err(e)),
                    Ok(v) => match with_element(w, id, index as int, v) {
                        Err(message) => (w, Err(error::fault(a.pc, opcode, message))),
                        Ok(after) => (after, Ok(code::skip(a, 2))),
                    },
                },
            },
        },
    }
}

pub fn store_element(
    code: &CodeItem,
    w: &mut World,
    a: &mut Activation,
    opcode: u8,
    instruction: u16,
) -> (r: Result<(), VmError>)
    requires
        old(a).pc < usize::MAX,
    ensures
        (final(w)@, code::stepped(r, final(a)@)) == store_step(
            code.instructions@,
            old(w)@,
            old(a)@,
            opcode,
            instruction,
        ),
{
    let named = operand(code, a.pc, 1, opcode)?;
    let (source, array, index) = three_registers(instruction, named);
    let id = get_object(&a.registers, array, a.pc, opcode)?;
    let index = a.integer(index, opcode)?;
    let v = a.value(source, opcode)?;
    match set_element(w, id, index, v) {
        Ok(_) => {
            a.skip(2);
            Ok(())
        },
        Err(message) => Err(failure(a.pc, opcode, message)),
    }
}

} // verus!
