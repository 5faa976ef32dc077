//! What is written can be read again, and nothing else changes.

use vstd::prelude::*;

use crate::code;
use crate::code::ActivationView;
use crate::dex::DexFile;
use crate::interp::arrays;
use crate::interp::calls;
use crate::interp::objects;
use crate::table;
use crate::value;
use crate::value::{FieldsView, ObjectId, ObjectView, ValueView};
use crate::world::WorldView;

verus! {

/// A register that is written holds the value; the others stay as they are, and so does the
/// size of the frame.
pub proof fn a_register_holds_what_is_written(
    registers: Seq<ValueView>,
    index: int,
    v: ValueView,
    other: int,
    pc: usize,
    opcode: u8,
)
    requires
        0 <= index < registers.len(),
    ensures
        code::written(registers, index, v, pc, opcode) matches Ok(after) && {
            &&& after.len() == registers.len()
            &&& code::register(after, index, pc, opcode) == Ok::<_, crate::error::ErrorView>(v)
            &&& other != index ==> code::register(after, other, pc, opcode) == code::register(
                registers,
                other,
                pc,
                opcode,
            )
        },
{
}

/// A wide value is read again from the first of its registers. The second is emptied, and the
/// others stay as they are.
pub proof fn a_wide_register_holds_what_is_written(
    registers: Seq<ValueView>,
    index: int,
    v: ValueView,
    other: int,
    pc: usize,
    opcode: u8,
)
    requires
        0 <= index && index + 1 < registers.len(),
    ensures
        code::written_wide(registers, index, v, pc, opcode) matches Ok(after) && {
            &&& after.len() == registers.len()
            &&& code::wide(after, index, pc, opcode) == Ok::<_, crate::error::ErrorView>(v)
            &&& code::register(after, index + 1, pc, opcode)
                == Ok::<_, crate::error::ErrorView>(ValueView::Void)
            &&& other != index && other != index + 1 ==> code::register(after, other, pc, opcode)
                == code::register(registers, other, pc, opcode)
        },
{
}

/// A register outside the frame is an error, and so is a wide value whose second register is.
pub proof fn a_register_outside_the_frame_is_an_error(
    registers: Seq<ValueView>,
    index: int,
    v: ValueView,
    pc: usize,
    opcode: u8,
)
    ensures
        (index < 0 || registers.len() <= index) ==> {
            &&& code::register(registers, index, pc, opcode) is Err
            &&& code::written(registers, index, v, pc, opcode) is Err
        },
        (index < 0 || registers.len() <= index + 1) ==> {
            &&& code::wide(registers, index, pc, opcode) is Err
            &&& code::written_wide(registers, index, v, pc, opcode) is Err
        },
{
}

/// A new object is found under a number that no older object has, and the older objects stay
/// as they are, as long as there are numbers left.
pub proof fn a_new_object_is_apart(w: WorldView, object: ObjectView, older: ObjectId)
    requires
        w.heap.len() <= u32::MAX,
    ensures
        w.object(w.fresh()) is None,
        w.with_object(object).object(w.fresh()) == Some(object),
        older != w.fresh() ==> w.with_object(object).object(older) == w.object(older),
{
}

/// A field that is set holds the value. The other fields of the object and the other objects
/// stay as they are, and so does the class of the object.
pub proof fn a_field_holds_what_is_set(
    w: WorldView,
    id: ObjectId,
    name: Seq<char>,
    v: ValueView,
    other: Seq<char>,
    other_id: ObjectId,
)
    requires
        w.class_of(id) is Some,
    ensures
        w.with_field(id, name, v).field(id, name) == Some(v),
        other != name ==> w.with_field(id, name, v).field(id, other) == w.field(id, other),
        other_id != id ==> w.with_field(id, name, v).object(other_id) == w.object(other_id),
        w.with_field(id, name, v).class_of(id) == w.class_of(id),
{
    match w.object(id) {
        Some(ObjectView::Instance { fields, .. }) => {
            table::store_then_lookup(fields, name, v, other);
        },
        _ => {},
    }
}

/// Setting a field of what is no instance changes nothing.
pub proof fn only_instances_have_fields(w: WorldView, id: ObjectId, name: Seq<char>, v: ValueView)
    requires
        w.class_of(id) is None,
    ensures
        w.with_field(id, name, v) == w,
        w.field(id, name) is None,
{
}

/// `iget` reads what `iput` has written to the same field of the same object, and changes
/// nothing.
pub proof fn a_field_is_read_as_it_was_written(
    w: WorldView,
    id: ObjectId,
    dex: &DexFile,
    index: nat,
    v: ValueView,
    pc: usize,
    opcode: u8,
    reading: u8,
)
    requires
        objects::write_field(w, id, dex.key(index), v, pc, opcode).1 is Ok,
    ensures
        ({
            let after = objects::write_field(w, id, dex.key(index), v, pc, opcode).0;
            objects::read_field(after, id, dex.key(index), dex.field(index), pc, reading) == (
                after,
                Ok::<_, crate::error::ErrorView>(v),
            )
        }),
{
    let key = dex.key(index);
    match w.object(id) {
        Some(ObjectView::Instance { fields, .. }) => {
            table::store_then_lookup(fields, key, v, key);
        },
        Some(ObjectView::Class(class_name)) => {
            table::store_then_lookup(Seq::<(Seq<char>, ValueView)>::empty(), key, v, key);
        },
        _ => {},
    }
}

/// A field that cannot be written leaves the world as it is.
pub proof fn a_field_that_is_not_written_changes_nothing(
    w: WorldView,
    id: ObjectId,
    key: Seq<char>,
    v: ValueView,
    pc: usize,
    opcode: u8,
)
    requires
        objects::write_field(w, id, key, v, pc, opcode).1 is Err,
    ensures
        objects::write_field(w, id, key, v, pc, opcode).0 == w,
{
}

pub open spec fn elements(w: WorldView, id: ObjectId) -> Option<Seq<ValueView>> {
    match w.object(id) {
        Some(ObjectView::Array { values, .. }) => Some(values),
        _ => None,
    }
}

/// An element that is stored is the one at its index. The other elements, the length and the
/// other objects stay as they are.
pub proof fn an_element_holds_what_is_stored(
    w: WorldView,
    id: ObjectId,
    index: int,
    v: ValueView,
    other: int,
    other_id: ObjectId,
)
    requires
        elements(w, id) matches Some(values) && 0 <= index < values.len(),
    ensures
        arrays::with_element(w, id, index, v) matches Ok(after) && elements(after, id) matches Some(
            values,
        ) && {
            &&& values.len() == elements(w, id)->0.len()
            &&& value::at(values, index) == Some(v)
            &&& other != index ==> value::at(values, other) == value::at(
                elements(w, id)->0,
                other,
            )
            &&& other_id != id ==> after.object(other_id) == w.object(other_id)
        },
{
}

/// An element outside the array cannot be stored.
pub proof fn an_element_outside_is_not_stored(w: WorldView, id: ObjectId, index: int, v: ValueView)
    requires
        elements(w, id) matches Some(values) ==> !(0 <= index < values.len()),
    ensures
        arrays::with_element(w, id, index, v) is Err,
{
}

/// `sget` reads what `sput` has written to the same field; fields of other names stay as they
/// are.
pub proof fn a_static_field_is_read_as_it_was_written(
    dex: &DexFile,
    w: WorldView,
    statics: FieldsView,
    index: nat,
    v: ValueView,
    other: nat,
)
    ensures
        calls::static_value(dex, w, table::store(statics, dex.key(index), v), index) == v,
        dex.key(other) != dex.key(index) ==> calls::static_value(
            dex,
            w,
            table::store(statics, dex.key(index), v),
            other,
        ) == calls::static_value(dex, w, statics, other),
{
    table::store_then_lookup(statics, dex.key(index), v, dex.key(other));
}

/// The arguments of a method stand in its last registers, in order, and every other register
/// is null.
pub proof fn arguments_stand_in_the_last_registers(
    size: nat,
    ins: nat,
    args: Seq<ValueView>,
    index: int,
)
    requires
        ins <= size,
        args.len() <= ins,
        0 <= index < size,
    ensures
        code::entered(size, ins, args) matches Ok(registers) && {
            &&& registers.len() == size
            &&& size - ins <= index < size - ins + args.len() ==> registers[index] == args[index - (
            size - ins)]
            &&& !(size - ins <= index < size - ins + args.len()) ==> registers[index]
                == ValueView::Null
        },
{
}

/// A jump that is taken stays within the code, or ends right behind it.
pub proof fn a_jump_stays_within_the_code(
    a: ActivationView,
    offset: int,
    len: nat,
    opcode: u8,
)
    requires
        len <= usize::MAX,
    ensures
        code::jump(a, offset, len, opcode) matches Ok(after) ==> {
            &&& after.pc <= len
            &&& after.pc == a.pc + offset
            &&& after.registers == a.registers
        },
        code::jump(a, offset, len, opcode) is Ok <==> 0 <= a.pc + offset <= len,
{
}

} // verus!
