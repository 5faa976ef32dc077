//! Classes, instances and their fields.

use vstd::prelude::*;

use crate::code;
use crate::code::{
    byte_register, operand, two_registers, Activation, ActivationView, Stepped,
};
use crate::dex;
use crate::dex::{is_primitive, CodeItem, DexFile, FieldId};
use crate::error;
use crate::error::{
    failure, failure_about, failure_text, ErrorView, Message, Piece, PieceView, VmError,
};
use crate::host::{Effect, EffectView};
use crate::interp::arrays::Worked;
use crate::table;
use crate::table::get_named;
use crate::text;
use crate::value;
use crate::value::{
    copy_values, default_value_for_type, Fields, FieldsView, HeapObject, ObjectId, ObjectView,
    Value, ValueView,
};
use crate::world;
use crate::world::{World, WorldView};

verus! {

/// `const-class`: opcode 0x1c.
pub open spec fn class_step(
    dex: &DexFile,
    words: Seq<u16>,
    w: WorldView,
    a: ActivationView,
    opcode: u8,
    instruction: u16,
) -> Worked {
    match code::word(words, a.pc + 1, a.pc, opcode) {
        Err(e) => (w, Err(e)),
        Ok(index) => match dex.descriptor(index as nat) {
            None => (w, Err(error::fault(a.pc, opcode, "class index is invalid"@))),
            Some(name) => (
                w.with_object(ObjectView::Class(name)),
                code::put(
                    a,
                    code::high_byte(instruction),
                    ValueView::Object(w.fresh()),
                    2,
                    opcode,
                ),
            ),
        },
    }
}

pub fn constant_class(
    dex: &DexFile,
    code: &CodeItem,
    w: &mut World,
    a: &mut Activation,
    opcode: u8,
    instruction: u16,
) -> (r: Result<(), VmError>)
    requires
        old(a).pc < usize::MAX,
    ensures
        (final(w)@, code::stepped(r, final(a)@)) == class_step(
            dex,
            code.instructions@,
            old(w)@,
            old(a)@,
            opcode,
            instruction,
        ),
{
    let index = operand(code, a.pc, 1, opcode)?;
    let name = match dex.type_at(index as usize) {
        Some(name) => name,
        None => {
            return Err(failure(a.pc, opcode, "class index is invalid"));
        },
    };
    let id = w.allocate(HeapObject::Class(name.to_owned()));
    a.put(byte_register(instruction), Value::Object(id), 2, opcode)
}

/// Whether a value is an instance of a type. Every instance is one of a type that is not in
/// the program.
pub open spec fn is_instance(
    dex: &DexFile,
    w: WorldView,
    value: ValueView,
    expected: Option<Seq<char>>,
) -> bool {
    match value {
        ValueView::Object(id) => match w.class_of(id) {
            Some(class_name) => match expected {
                Some(e) => dex.descends(class_name, e, dex.height()),
                None => true,
            },
            None => false,
        },
        _ => false,
    }
}

/// `instance-of`: opcode 0x20. The destination is the whole upper byte.
pub open spec fn instance_of_step(
    dex: &DexFile,
    words: Seq<u16>,
    w: WorldView,
    a: ActivationView,
    opcode: u8,
    instruction: u16,
) -> Stepped {
    match code::word(words, a.pc + 1, a.pc, opcode) {
        Err(e) => Err(e),
        Ok(index) => match a.get(code::high_nibble(instruction), opcode) {
            Err(e) => Err(e),
            Ok(v) => code::put(
                a,
                code::high_byte(instruction),
                ValueView::Int(
                    if is_instance(dex, w, v, dex.descriptor(index as nat)) {
                        1
                    } else {
                        0
                    },
                ),
                1,
                opcode,
            ),
        },
    }
}

pub fn instance_of(
    dex: &DexFile,
    code: &CodeItem,
    w: &World,
    a: &mut Activation,
    opcode: u8,
    instruction: u16,
) -> (r: Result<(), VmError>)
    requires
        old(a).pc < usize::MAX,
    ensures
        code::stepped(r, final(a)@) == instance_of_step(
            dex,
            code.instructions@,
            w@,
            old(a)@,
            opcode,
            instruction,
        ),
{
    let index = operand(code, a.pc, 1, opcode)?;
    let (_, source) = two_registers(instruction);
    let v = a.value(source, opcode)?;
    let expected = dex.type_at(index as usize);
    let result = match v {
        Value::Object(id) => match w.class_name(id) {
            Some(class_name) => match expected {
                Some(e) => dex.is_assignable(class_name, e),
                None => true,
            },
            None => false,
        },
        _ => false,
    };
    let number: i32 = if result {
        1
    } else {
        0
    };
    a.put(byte_register(instruction), Value::Int(number), 1, opcode)
}

/// The classes whose instances are collections.
pub open spec fn makes_collection(class_name: Seq<char>) -> bool {
    class_name == "Ljava/util/ArrayList;"@ || class_name == "Ljava/util/LinkedList;"@
        || class_name == "Ljava/util/HashMap;"@
}

pub open spec fn is_view(class_name: Seq<char>) -> bool {
    text::starts(class_name, "Landroid/view/"@) || text::starts(class_name, "Landroid/widget/"@)
}

/// A new object of a class; views are made known to the surroundings.
pub open spec fn with_instance(w: WorldView, class_name: Seq<char>) -> WorldView {
    let object = if makes_collection(class_name) {
        ObjectView::Collection(Seq::empty())
    } else {
        world::instance_of(class_name)
    };
    let after = w.with_object(object);
    if is_view(class_name) {
        after.did(EffectView::EnsureView { view: w.fresh(), class_name })
    } else {
        after
    }
}

/// `new-instance`: opcode 0x22.
pub open spec fn new_instance_step(
    dex: &DexFile,
    words: Seq<u16>,
    w: WorldView,
    a: ActivationView,
    opcode: u8,
    instruction: u16,
) -> Worked {
    match code::word(words, a.pc + 1, a.pc, opcode) {
        Err(e) => (w, Err(e)),
        Ok(index) => match dex.descriptor(index as nat) {
            None => (w, Err(error::fault(a.pc, opcode, "new-instance type index is invalid"@))),
            Some(class_name) => (
                with_instance(w, class_name),
                code::put(
                    a,
                    code::high_byte(instruction),
                    ValueView::Object(w.fresh()),
                    2,
                    opcode,
                ),
            ),
        },
    }
}

pub fn new_instance(
    dex: &DexFile,
    code: &CodeItem,
    w: &mut World,
    a: &mut Activation,
    opcode: u8,
    instruction: u16,
) -> (r: Result<(), VmError>)
    requires
        old(a).pc < usize::MAX,
    ensures
        (final(w)@, code::stepped(r, final(a)@)) == new_instance_step(
            dex,
            code.instructions@,
            old(w)@,
            old(a)@,
            opcode,
            instruction,
        ),
{
    let index = operand(code, a.pc, 1, opcode)?;
    let class_name = match dex.type_at(index as usize) {
        Some(name) => name,
        None => {
            return Err(failure(a.pc, opcode, "new-instance type index is invalid"));
        },
    };
    let id = if text::same(class_name, "Ljava/util/ArrayList;") || text::same(
        class_name,
        "Ljava/util/LinkedList;",
    ) || text::same(class_name, "Ljava/util/HashMap;") {
        w.alloc_collection()
    } else {
        w.alloc_instance(class_name)
    };
    if text::starts_with(class_name, "Landroid/view/") || text::starts_with(
        class_name,
        "Landroid/widget/",
    ) {
        w.perform(Effect::EnsureView { view: id, class_name: class_name.to_owned() });
    }
    a.put(byte_register(instruction), Value::Object(id), 2, opcode)
}

// Fields.

/// How the name of a stored field can be like the one looked for.
pub enum Likeness {
    Starts(Seq<char>),
    Ends(Seq<char>),
    /// Has a part, and is not a certain name.
    Holds(Seq<char>, Seq<char>),
}

pub open spec fn alike(name: Seq<char>, likeness: Likeness) -> bool {
    match likeness {
        Likeness::Starts(s) => text::starts(name, s),
        Likeness::Ends(s) => text::ends(name, s),
        Likeness::Holds(s, but) => name != but && text::contains(name, s),
    }
}

/// The value of the first field whose name is alike.
pub open spec fn first_alike(fields: FieldsView, likeness: Likeness) -> Option<ValueView>
    decreases fields.len(),
{
    if fields.len() == 0 {
        None
    } else if alike(fields[0].0, likeness) {
        Some(fields[0].1)
    } else {
        first_alike(fields.skip(1), likeness)
    }
}

fn find_starting(fields: &Fields, prefix: &str) -> (r: Option<Value>)
    ensures
        value::owned(r) == first_alike(table::named(fields@), Likeness::Starts(prefix@)),
{
    let ghost all = table::named(fields@);
    let ghost likeness = Likeness::Starts(prefix@);
    let mut i: usize = 0;
    assert(all.skip(0) =~= all);
    while i < fields.len()
        invariant
            i <= fields.len(),
            all == table::named(fields@),
            likeness == Likeness::Starts(prefix@),
            first_alike(all, likeness) == first_alike(all.skip(i as int), likeness),
        decreases fields.len() - i,
    {
        assert(all.skip(i as int)[0] == all[i as int]);
        assert(all.skip(i as int).skip(1) =~= all.skip(i as int + 1));
        if text::starts_with(fields[i].0.as_str(), prefix) {
            return Some(fields[i].1.clone());
        }
        i += 1;
    }
    None
}

fn find_ending(fields: &Fields, suffix: &str) -> (r: Option<Value>)
    ensures
        value::owned(r) == first_alike(table::named(fields@), Likeness::Ends(suffix@)),
{
    let ghost all = table::named(fields@);
    let ghost likeness = Likeness::Ends(suffix@);
    let mut i: usize = 0;
    assert(all.skip(0) =~= all);
    while i < fields.len()
        invariant
            i <= fields.len(),
            all == table::named(fields@),
            likeness == Likeness::Ends(suffix@),
            first_alike(all, likeness) == first_alike(all.skip(i as int), likeness),
        decreases fields.len() - i,
    {
        assert(all.skip(i as int)[0] == all[i as int]);
        assert(all.skip(i as int).skip(1) =~= all.skip(i as int + 1));
        if text::ends_with(fields[i].0.as_str(), suffix) {
            return Some(fields[i].1.clone());
        }
        i += 1;
    }
    None
}

fn find_holding(fields: &Fields, part: &str, but: &str) -> (r: Option<Value>)
    ensures
        value::owned(r) == first_alike(
            table::named(fields@),
            Likeness::Holds(part@, but@),
        ),
{
    let ghost all = table::named(fields@);
    let ghost likeness = Likeness::Holds(part@, but@);
    let mut i: usize = 0;
    assert(all.skip(0) =~= all);
    while i < fields.len()
        invariant
            i <= fields.len(),
            all == table::named(fields@),
            likeness == Likeness::Holds(part@, but@),
            first_alike(all, likeness) == first_alike(all.skip(i as int), likeness),
        decreases fields.len() - i,
    {
        assert(all.skip(i as int)[0] == all[i as int]);
        assert(all.skip(i as int).skip(1) =~= all.skip(i as int + 1));
        if !text::same(fields[i].0.as_str(), but) && text::contains_text(
            fields[i].0.as_str(),
            part,
        ) {
            return Some(fields[i].1.clone());
        }
        i += 1;
    }
    None
}

pub open spec fn known(field: Option<&FieldId>) -> Option<FieldId> {
    match field {
        Some(f) => Some(*f),
        None => None,
    }
}

pub open spec fn is_main_layer(field: Option<FieldId>) -> bool {
    match field {
        Some(f) => f.name@ == "mMainLayer"@,
        None => false,
    }
}

/// The stored value of a field: under its own key, or else under the key that it has in
/// another class.
pub open spec fn existing(
    class_name: Seq<char>,
    fields: FieldsView,
    key: Seq<char>,
    field: Option<FieldId>,
) -> Option<ValueView> {
    match table::lookup(fields, key) {
        Some(v) => Some(v),
        None => if is_main_layer(field) {
            match first_alike(fields, Likeness::Starts(class_name + "->mMainLayer:"@)) {
                Some(v) => Some(v),
                None => first_alike(fields, Likeness::Holds("->mMainLayer:"@, key)),
            }
        } else {
            match field {
                Some(f) => first_alike(
                    fields,
                    Likeness::Ends("->"@ + f.name@ + ":"@ + f.descriptor@),
                ),
                None => None,
            }
        },
    }
}

fn find_existing(class_name: &str, fields: &Fields, key: &str, field: Option<&FieldId>) -> (r:
    Option<Value>)
    ensures
        value::owned(r) == existing(
            class_name@,
            table::named(fields@),
            key@,
            known(field),
        ),
{
    match get_named(fields, key) {
        Some(v) => {
            return Some(v.clone());
        },
        None => {},
    }
    match field {
        Some(f) => {
            if text::same(f.name.as_str(), "mMainLayer") {
                let prefix = text::join(class_name, "->mMainLayer:");
                match find_starting(fields, prefix.as_str()) {
                    Some(v) => Some(v),
                    None => find_holding(fields, "->mMainLayer:", key),
                }
            } else {
                let head = text::join3("->", f.name.as_str(), ":");
                let suffix = text::join(head.as_str(), f.descriptor.as_str());
                find_ending(fields, suffix.as_str())
            }
        },
        None => None,
    }
}

pub open spec fn null_target(
    a: ActivationView,
    key: Seq<char>,
    register: int,
    opcode: u8,
) -> ErrorView {
    ErrorView {
        pc: a.pc,
        opcode,
        message: seq![
            PieceView::Text(
                "null instance field target: field="@ + key + " v"@ + text::decimal(register)
                    + " registers="@,
            ),
            PieceView::List(a.registers),
        ],
    }
}

fn null_failure(a: &Activation, key: &str, register: usize, opcode: u8) -> (r: VmError)
    ensures
        r@ == null_target(a@, key@, register as int, opcode),
{
    let head = text::join3("null instance field target: field=", key, " v");
    let line = text::join3(
        head.as_str(),
        text::decimal_unsigned(register as u64).as_str(),
        " registers=",
    );
    let message: Message = vec![
        Piece::Text(line),
        Piece::List(copy_values(&a.registers)),
    ];
    let r = VmError { pc: a.pc, opcode, message };
    assert(r@.message =~= null_target(a@, key@, register as int, opcode).message);
    r
}

pub open spec fn lost_target(pc: usize, opcode: u8, key: Seq<char>, id: ObjectId) -> ErrorView {
    error::fault(
        pc,
        opcode,
        "instance field target object id is invalid: field="@ + key + " object="@
            + text::decimal(id as int),
    )
}

fn lost_failure(pc: usize, opcode: u8, key: &str, id: ObjectId) -> (r: VmError)
    ensures
        r@ == lost_target(pc, opcode, key@, id),
{
    let head = text::join3("instance field target object id is invalid: field=", key, " object=");
    failure_text(
        pc,
        opcode,
        text::join(head.as_str(), text::decimal_unsigned(id as u64).as_str()),
    )
}

pub open spec fn primitive_field(field: Option<FieldId>) -> bool {
    match field {
        Some(f) => dex::primitive(f.descriptor@),
        None => false,
    }
}

pub open spec fn field_blank(field: Option<FieldId>) -> ValueView {
    match field {
        Some(f) => value::blank(f.descriptor@),
        None => ValueView::Null,
    }
}

/// What reading a field that was never stored gives: a new layer or list for two kinds of
/// fields, which is stored, and a blank value for the others.
pub open spec fn missing(
    w: WorldView,
    id: ObjectId,
    key: Seq<char>,
    field: Option<FieldId>,
) -> (WorldView, ValueView) {
    let fresh = ValueView::Object(w.fresh());
    if is_main_layer(field) {
        (
            w.with_object(world::instance_of("Lcom/hyperkani/common/Layer;"@)).with_field(
                id,
                key,
                fresh,
            ),
            fresh,
        )
    } else if field is Some && field->0.descriptor@ == "Ljava/util/ArrayList;"@ {
        (
            w.with_object(ObjectView::Collection(Seq::empty())).with_field(id, key, fresh),
            fresh,
        )
    } else {
        (w, field_blank(field))
    }
}

/// What a field of an object holds, and what reading it makes of the world. Reading a field of
/// a class object makes the object an instance of the class.
pub open spec fn read_field(
    w: WorldView,
    id: ObjectId,
    key: Seq<char>,
    field: Option<FieldId>,
    pc: usize,
    opcode: u8,
) -> (WorldView, Result<ValueView, ErrorView>) {
    match w.object(id) {
        Some(ObjectView::Instance { class_name, fields }) => match existing(
            class_name,
            fields,
            key,
            field,
        ) {
            Some(v) => (w, Ok(v)),
            None => {
                let (after, v) = missing(w, id, key, field);
                (after, Ok(v))
            },
        },
        Some(ObjectView::Class(class_name)) => {
            let (after, v) = missing(
                w.replaced(id, world::instance_of(class_name)),
                id,
                key,
                field,
            );
            (after, Ok(v))
        },
        Some(_) => (w, Err(error::fault(pc, opcode, "instance field target is not an object"@))),
        None => (w, Err(lost_target(pc, opcode, key, id))),
    }
}

fn create_missing(w: &mut World, id: ObjectId, key: &str, field: Option<&FieldId>) -> (r: Value)
    ensures
        (final(w)@, r@) == missing(
            old(w)@,
            id,
            key@,
            known(field),
        ),
{
    match field {
        Some(f) => {
            if text::same(f.name.as_str(), "mMainLayer") {
                let layer = w.alloc_instance("Lcom/hyperkani/common/Layer;");
                w.set_object_field(id, key, Value::Object(layer));
                Value::Object(layer)
            } else if text::same(f.descriptor.as_str(), "Ljava/util/ArrayList;") {
                let collection = w.alloc_collection();
                w.set_object_field(id, key, Value::Object(collection));
                Value::Object(collection)
            } else {
                default_value_for_type(f.descriptor.as_str())
            }
        },
        None => Value::Null,
    }
}

fn class_as_instance(w: &mut World, id: ObjectId, class_name: String)
    ensures
        final(w)@ == old(w)@.replaced(id, world::instance_of(class_name@)),
{
    let fields: Fields = Vec::new();
    assert(table::named(fields@) =~= Seq::empty());
    w.replace(id, HeapObject::Instance { class_name, fields });
}

fn get_object_field(
    w: &mut World,
    id: ObjectId,
    key: &str,
    field: Option<&FieldId>,
    pc: usize,
    opcode: u8,
) -> (r: Result<Value, VmError>)
    ensures
        (final(w)@, error::outcome(r)) == read_field(
            old(w)@,
            id,
            key@,
            known(field),
            pc,
            opcode,
        ),
{
    let class = match w.heap_object(id) {
        Some(HeapObject::Instance { class_name, fields }) => {
            match find_existing(class_name.as_str(), fields, key, field) {
                Some(v) => {
                    return Ok(v);
                },
                None => None,
            }
        },
        Some(HeapObject::Class(class_name)) => Some(class_name.clone()),
        Some(_) => {
            return Err(failure(pc, opcode, "instance field target is not an object"));
        },
        None => {
            return Err(lost_failure(pc, opcode, key, id));
        },
    };
    match class {
        Some(class_name) => class_as_instance(w, id, class_name),
        None => {},
    }
    Ok(create_missing(w, id, key, field))
}

/// Reading a field of an object: opcodes 0x52 to 0x58. A primitive field of nothing reads as
/// blank.
pub open spec fn get_step(
    dex: &DexFile,
    words: Seq<u16>,
    w: WorldView,
    a: ActivationView,
    opcode: u8,
    instruction: u16,
) -> Worked {
    let dest = code::low_nibble(instruction);
    let target = code::high_nibble(instruction);
    match code::word(words, a.pc + 1, a.pc, opcode) {
        Err(e) => (w, Err(e)),
        Ok(index) => {
            let key = dex.key(index as nat);
            let field = dex.field(index as nat);
            match a.get(target, opcode) {
                Err(e) => (w, Err(e)),
                Ok(ValueView::Object(id)) => match read_field(w, id, key, field, a.pc, opcode) {
                    (after, Err(e)) => (after, Err(e)),
                    (after, Ok(v)) => (after, code::put(a, dest, v, 2, opcode)),
                },
                Ok(ValueView::Null) => if primitive_field(field) {
                    if opcode == 0x53 {
                        (w, code::put_wide(a, dest, field_blank(field), 2, opcode))
                    } else {
                        (w, code::put(a, dest, field_blank(field), 2, opcode))
                    }
                } else {
                    (w, Err(null_target(a, key, target, opcode)))
                },
                Ok(v) => (
                    w,
                    Err(
                        error::fault_about(
                            a.pc,
                            opcode,
                            "instance field target is not an object: field="@ + key + " v"@
                                + text::decimal(target) + " value="@,
                            v,
                        ),
                    ),
                ),
            }
        },
    }
}

fn field_is_primitive(field: Option<&FieldId>) -> (r: bool)
    ensures
        r == primitive_field(
            known(field),
        ),
{
    match field {
        Some(f) => is_primitive(f.descriptor.as_str()),
        None => false,
    }
}

pub fn get_field(
    dex: &DexFile,
    code: &CodeItem,
    w: &mut World,
    a: &mut Activation,
    opcode: u8,
    instruction: u16,
) -> (r: Result<(), VmError>)
    requires
        old(a).pc < usize::MAX,
    ensures
        (final(w)@, code::stepped(r, final(a)@)) == get_step(
            dex,
            code.instructions@,
            old(w)@,
            old(a)@,
            opcode,
            instruction,
        ),
{
    let (dest, target) = two_registers(instruction);
    let index = operand(code, a.pc, 1, opcode)?;
    let key = dex.field_key(index as usize);
    let field = dex.field_id(index as usize);
    let v = a.value(target, opcode)?;
    match v {
        Value::Object(id) => {
            let v = get_object_field(w, id, key.as_str(), field, a.pc, opcode)?;
            a.put(dest, v, 2, opcode)
        },
        Value::Null => {
            if field_is_primitive(field) {
                let blank = match field {
                    Some(f) => default_value_for_type(f.descriptor.as_str()),
                    None => Value::Null,
                };
                if opcode == 0x53 {
                    a.put_wide(dest, blank, 2, opcode)
                } else {
                    a.put(dest, blank, 2, opcode)
                }
            } else {
                Err(null_failure(a, key.as_str(), target, opcode))
            }
        },
        v => {
            let head = text::join3(
                "instance field target is not an object: field=",
                key.as_str(),
                " v",
            );
            let line = text::join3(
                head.as_str(),
                text::decimal_unsigned(target as u64).as_str(),
                " value=",
            );
            Err(failure_about(a.pc, opcode, line, &v))
        },
    }
}

/// What storing a field of an object makes of the world. A class object becomes an instance.
pub open spec fn write_field(
    w: WorldView,
    id: ObjectId,
    key: Seq<char>,
    v: ValueView,
    pc: usize,
    opcode: u8,
) -> (WorldView, Result<(), ErrorView>) {
    match w.object(id) {
        Some(ObjectView::Instance { .. }) => (w.with_field(id, key, v), Ok(())),
        Some(ObjectView::Class(class_name)) => (
            w.replaced(id, world::instance_of(class_name)).with_field(id, key, v),
            Ok(()),
        ),
        Some(_) => (w, Err(error::fault(pc, opcode, "instance field target is not an instance"@))),
        None => (w, Err(lost_target(pc, opcode, key, id))),
    }
}

pub open spec fn unit_of(r: Result<(), VmError>) -> Result<(), ErrorView> {
    match r {
        Ok(_) => Ok(()),
        Err(e) => Err(e@),
    }
}

fn put_object_field(w: &mut World, id: ObjectId, key: &str, v: Value, pc: usize, opcode: u8) -> (r:
    Result<(), VmError>)
    ensures
        (final(w)@, unit_of(r)) == write_field(old(w)@, id, key@, v@, pc, opcode),
{
    let class = match w.heap_object(id) {
        Some(HeapObject::Instance { .. }) => None,
        Some(HeapObject::Class(class_name)) => Some(class_name.clone()),
        Some(_) => {
            return Err(failure(pc, opcode, "instance field target is not an instance"));
        },
        None => {
            return Err(lost_failure(pc, opcode, key, id));
        },
    };
    match class {
        Some(class_name) => class_as_instance(w, id, class_name),
        None => {},
    }
    w.set_object_field(id, key, v);
    Ok(())
}

/// Writing a field of an object: opcodes 0x59 to 0x5f. A primitive field of nothing takes
/// nothing.
pub open spec fn put_step(
    dex: &DexFile,
    words: Seq<u16>,
    w: WorldView,
    a: ActivationView,
    opcode: u8,
    instruction: u16,
) -> Worked {
    let target = code::high_nibble(instruction);
    match code::word(words, a.pc + 1, a.pc, opcode) {
        Err(e) => (w, Err(e)),
        Ok(index) => {
            let key = dex.key(index as nat);
            let field = dex.field(index as nat);
            match a.get(target, opcode) {
                Err(e) => (w, Err(e)),
                Ok(ValueView::Object(id)) => match a.get(code::low_nibble(instruction), opcode) {
                    Err(e) => (w, Err(e)),
                    Ok(v) => match write_field(w, id, key, v, a.pc, opcode) {
                        (after, Err(e)) => (after, Err(e)),
                        (after, Ok(_)) => (after, Ok(code::skip(a, 2))),
                    },
                },
                Ok(ValueView::Null) => if primitive_field(field) {
                    (w, Ok(code::skip(a, 2)))
                } else {
                    (w, Err(null_target(a, key, target, opcode)))
                },
                Ok(v) => (
                    w,
                    Err(
                        error::fault_about(
                            a.pc,
                            opcode,
                            "instance field target is not an object: field="@ + key + " value="@,
                            v,
                        ),
                    ),
                ),
            }
        },
    }
}

pub fn put_field(
    dex: &DexFile,
    code: &CodeItem,
    w: &mut World,
    a: &mut Activation,
    opcode: u8,
    instruction: u16,
) -> (r: Result<(), VmError>)
    requires
        old(a).pc < usize::MAX,
    ensures
        (final(w)@, code::stepped(r, final(a)@)) == put_step(
            dex,
            code.instructions@,
            old(w)@,
            old(a)@,
            opcode,
            instruction,
        ),
{
    let (source, target) = two_registers(instruction);
    let index = operand(code, a.pc, 1, opcode)?;
    let key = dex.field_key(index as usize);
    let field = dex.field_id(index as usize);
    let v = a.value(target, opcode)?;
    match v {
        Value::Object(id) => {
            let v = a.value(source, opcode)?;
            put_object_field(w, id, key.as_str(), v, a.pc, opcode)?;
            a.skip(2);
            Ok(())
        },
        Value::Null => {
            if field_is_primitive(field) {
                a.skip(2);
                Ok(())
            } else {
                Err(null_failure(a, key.as_str(), target, opcode))
            }
        },
        v => {
            let line = text::join3(
                "instance field target is not an object: field=",
                key.as_str(),
                " value=",
            );
            Err(failure_about(a.pc, opcode, line, &v))
        },
    }
}

} // verus!
