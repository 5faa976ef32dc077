//! Static fields, and which method a call runs.

use vstd::prelude::*;

use crate::code;
use crate::code::{
    byte_register, invoke_args, operand, range_args, read_wide_register, Activation,
    ActivationView, Stepped,
};
use crate::dex;
use crate::dex::{find_method, CodeItem, DexFile, FieldId, Wanted};
use crate::error;
use crate::error::{failure, failure_text, ErrorView, VmError};
use crate::float;
use crate::table;
use crate::table::{get_named, put_named};
use crate::text;
use crate::value;
use crate::value::{default_value_for_type, value_at, Fields, FieldsView, ObjectId, Value, ValueView};
use crate::world::{World, WorldView};

verus! {

// Static fields.

/// The class that has to be initialised before a static field is read.
pub open spec fn static_class(
    dex: &DexFile,
    words: Seq<u16>,
    a: ActivationView,
    opcode: u8,
) -> Result<Option<Seq<char>>, ErrorView> {
    match code::word(words, a.pc + 1, a.pc, opcode) {
        Err(e) => Err(e),
        Ok(index) => match dex.field(index as nat) {
            Some(f) => Ok(Some(f.class_name@)),
            None => Ok(None),
        },
    }
}

pub open spec fn class_of(r: Result<Option<&str>, VmError>) -> Result<
    Option<Seq<char>>,
    ErrorView,
> {
    match r {
        Ok(name) => Ok(dex::some_text(name)),
        Err(e) => Err(e@),
    }
}

pub fn find_static_class<'a>(dex: &'a DexFile, code: &CodeItem, a: &Activation, opcode: u8) -> (r:
    Result<Option<&'a str>, VmError>)
    ensures
        class_of(r) == static_class(dex, code.instructions@, a@, opcode),
{
    let index = operand(code, a.pc, 1, opcode)?;
    match dex.field_id(index as usize) {
        Some(f) => Ok(Some(f.class_name.as_str())),
        None => Ok(None),
    }
}

/// What a static field holds that has not been written: the size of the screen, what the
/// device calls itself, or the blank value of the field's type.
pub open spec fn unset_static(w: WorldView, field: Option<FieldId>) -> ValueView {
    match field {
        None => ValueView::Null,
        Some(f) => if f.name@ == "width"@ {
            ValueView::Float(float::int_as_single(at_least(w.framework.surface_size.0, 320)))
        } else if f.name@ == "height"@ {
            ValueView::Float(float::int_as_single(at_least(w.framework.surface_size.1, 480)))
        } else if f.name@ == "RELEASE"@ {
            ValueView::String("1.6"@)
        } else if f.name@ == "DEVICE"@ {
            ValueView::String("donuthle"@)
        } else if f.name@ == "MODEL"@ {
            ValueView::String("DonutHLE Linux"@)
        } else {
            value::blank(f.descriptor@)
        },
    }
}

pub open spec fn at_least(n: i32, least: int) -> int {
    if n < least {
        least
    } else {
        n as int
    }
}

fn read_unset_static(w: &World, field: Option<&FieldId>) -> (r: Value)
    ensures
        r@ == unset_static(
            w@,
            match field {
                Some(f) => Some(*f),
                None => None,
            },
        ),
{
    match field {
        None => Value::Null,
        Some(f) => {
            let name = f.name.as_str();
            if text::same(name, "width") {
                let width: i32 = if w.framework.surface_size.0 < 320 {
                    320
                } else {
                    w.framework.surface_size.0
                };
                Value::Float(float::int_to_single(width as i64))
            } else if text::same(name, "height") {
                let height: i32 = if w.framework.surface_size.1 < 480 {
                    480
                } else {
                    w.framework.surface_size.1
                };
                Value::Float(float::int_to_single(height as i64))
            } else if text::same(name, "RELEASE") {
                Value::String("1.6".to_owned())
            } else if text::same(name, "DEVICE") {
                Value::String("donuthle".to_owned())
            } else if text::same(name, "MODEL") {
                Value::String("DonutHLE Linux".to_owned())
            } else {
                default_value_for_type(f.descriptor.as_str())
            }
        },
    }
}

pub open spec fn static_value(
    dex: &DexFile,
    w: WorldView,
    statics: FieldsView,
    index: nat,
) -> ValueView {
    match table::lookup(statics, dex.key(index)) {
        Some(v) => v,
        None => unset_static(w, dex.field(index)),
    }
}

/// `sget`, once the class is initialised: opcodes 0x60 to 0x66.
pub open spec fn load_static_step(
    dex: &DexFile,
    words: Seq<u16>,
    w: WorldView,
    statics: FieldsView,
    a: ActivationView,
    opcode: u8,
    instruction: u16,
) -> Stepped {
    match code::word(words, a.pc + 1, a.pc, opcode) {
        Err(e) => Err(e),
        Ok(index) => {
            let v = static_value(dex, w, statics, index as nat);
            if opcode == 0x61 || opcode == 0x65 {
                code::put_wide(a, code::high_byte(instruction), v, 2, opcode)
            } else {
                code::put(a, code::high_byte(instruction), v, 2, opcode)
            }
        },
    }
}

pub fn load_static(
    dex: &DexFile,
    code: &CodeItem,
    w: &World,
    statics: &Fields,
    a: &mut Activation,
    opcode: u8,
    instruction: u16,
) -> (r: Result<(), VmError>)
    requires
        old(a).pc < usize::MAX,
    ensures
        code::stepped(r, final(a)@) == load_static_step(
            dex,
            code.instructions@,
            w@,
            table::named(statics@),
            old(a)@,
            opcode,
            instruction,
        ),
{
    let index = operand(code, a.pc, 1, opcode)?;
    let key = dex.field_key(index as usize);
    let v = match get_named(statics, key.as_str()) {
        Some(v) => v.clone(),
        None => read_unset_static(w, dex.field_id(index as usize)),
    };
    if opcode == 0x61 || opcode == 0x65 {
        a.put_wide(byte_register(instruction), v, 2, opcode)
    } else {
        a.put(byte_register(instruction), v, 2, opcode)
    }
}

/// `sput`: opcodes 0x67 to 0x6d. The class is not initialised for it.
pub open spec fn store_static_step(
    dex: &DexFile,
    words: Seq<u16>,
    statics: FieldsView,
    a: ActivationView,
    opcode: u8,
    instruction: u16,
) -> (FieldsView, Stepped) {
    let register = code::high_byte(instruction);
    match code::word(words, a.pc + 1, a.pc, opcode) {
        Err(e) => (statics, Err(e)),
        Ok(index) => match if opcode == 0x68 || opcode == 0x6c {
            code::wide(a.registers, register, a.pc, opcode)
        } else {
            a.get(register, opcode)
        } {
            Err(e) => (statics, Err(e)),
            Ok(v) => (table::store(statics, dex.key(index as nat), v), Ok(code::skip(a, 2))),
        },
    }
}

pub fn store_static(
    dex: &DexFile,
    code: &CodeItem,
    statics: &mut Fields,
    a: &mut Activation,
    opcode: u8,
    instruction: u16,
) -> (r: Result<(), VmError>)
    requires
        old(a).pc < usize::MAX,
    ensures
        (table::named(final(statics)@), code::stepped(r, final(a)@)) == store_static_step(
            dex,
            code.instructions@,
            table::named(old(statics)@),
            old(a)@,
            opcode,
            instruction,
        ),
{
    let index = operand(code, a.pc, 1, opcode)?;
    let v = if opcode == 0x68 || opcode == 0x6c {
        read_wide_register(&a.registers, byte_register(instruction), a.pc, opcode)?.clone()
    } else {
        a.value(byte_register(instruction), opcode)?
    };
    let key = dex.field_key(index as usize);
    put_named(statics, key.as_str(), v);
    a.skip(2);
    Ok(())
}

// Calls.

/// The method that a virtual call of a method runs on an object: the first with code of that
/// name and prototype, from the object's class upwards. A sprite that is rendered as a base
/// object runs its own `render`, with code or without.
pub open spec fn virtual_method(
    dex: &DexFile,
    w: WorldView,
    object: ObjectId,
    referenced: nat,
) -> Option<nat> {
    if referenced >= dex.methods.len() {
        None
    } else {
        let method = dex.methods[referenced as int];
        match w.class_of(object) {
            None => None,
            Some(class_name) => if method.class_name@ == "Lcom/hyperkani/common/BaseObject;"@
                && method.name@ == "render"@ && class_name
                == "Lcom/hyperkani/common/GameObjectSprite;"@ {
                dex.first(
                    Wanted {
                        class_name,
                        name: "render"@,
                        prototype: Some(method.prototype@),
                        coded: false,
                    },
                )
            } else {
                dex.inherited(
                    Wanted {
                        class_name,
                        name: method.name@,
                        prototype: Some(method.prototype@),
                        coded: true,
                    },
                    dex.height(),
                )
            },
        }
    }
}

pub fn instance_method_index(dex: &DexFile, w: &World, object: ObjectId, referenced: usize) -> (r:
    Option<usize>)
    ensures
        dex::some_index(r) == virtual_method(dex, w@, object, referenced as nat),
{
    if referenced >= dex.methods.len() {
        return None;
    }
    let method = &dex.methods[referenced];
    match w.class_name(object) {
        None => None,
        Some(class_name) => if text::same(
            method.class_name.as_str(),
            "Lcom/hyperkani/common/BaseObject;",
        ) && text::same(method.name.as_str(), "render") && text::same(
            class_name,
            "Lcom/hyperkani/common/GameObjectSprite;",
        ) {
            find_method(dex, class_name, "render", Some(method.prototype.as_str()), false)
        } else {
            dex.find_inherited(
                class_name,
                method.name.as_str(),
                Some(method.prototype.as_str()),
            )
        },
    }
}

/// What a call runs, and with which arguments: opcodes 0x6e to 0x72 and 0x74 to 0x78. Of
/// these, 0x6e and 0x72 look for the method of the first argument.
pub open spec fn invocation(
    dex: &DexFile,
    words: Seq<u16>,
    w: WorldView,
    a: ActivationView,
    opcode: u8,
    instruction: u16,
) -> Result<(nat, Seq<ValueView>), ErrorView> {
    match code::word(words, a.pc + 1, a.pc, opcode) {
        Err(e) => Err(e),
        Ok(method) => match code::word(words, a.pc + 2, a.pc, opcode) {
            Err(e) => Err(e),
            Ok(third) => {
                let registers = if opcode <= 0x72 {
                    code::named_registers(instruction, third)
                } else {
                    code::run_of(third as int, code::high_byte(instruction) as nat)
                };
                match code::gathered(a.registers, registers, a.pc, opcode) {
                    Err(e) => Err(e),
                    Ok(args) => Ok((target(dex, w, opcode, method as nat, args), args)),
                }
            },
        },
    }
}

pub open spec fn target(
    dex: &DexFile,
    w: WorldView,
    opcode: u8,
    method: nat,
    args: Seq<ValueView>,
) -> nat {
    if opcode == 0x6e || opcode == 0x72 {
        match value::at(args, 0) {
            Some(ValueView::Object(object)) => match virtual_method(dex, w, object, method) {
                Some(found) => found,
                None => method,
            },
            _ => method,
        }
    } else {
        method
    }
}

pub open spec fn call_of(r: Result<(usize, Vec<Value>), VmError>) -> Result<
    (nat, Seq<ValueView>),
    ErrorView,
> {
    match r {
        Ok((method, args)) => Ok((method as nat, value::views(args@))),
        Err(e) => Err(e@),
    }
}

pub fn find_invocation(
    dex: &DexFile,
    code: &CodeItem,
    w: &World,
    a: &Activation,
    opcode: u8,
    instruction: u16,
) -> (r: Result<(usize, Vec<Value>), VmError>)
    ensures
        call_of(r) == invocation(dex, code.instructions@, w@, a@, opcode, instruction),
        r is Ok ==> a.pc + 3 <= usize::MAX,
{
    let method = operand(code, a.pc, 1, opcode)?;
    let third = operand(code, a.pc, 2, opcode)?;
    let args = if opcode <= 0x72 {
        invoke_args(&a.registers, instruction, third, a.pc, opcode)?
    } else {
        range_args(&a.registers, third, instruction / 0x100, a.pc, opcode)?
    };
    if opcode == 0x6e || opcode == 0x72 {
        match value_at(&args, 0) {
            Some(Value::Object(object)) => {
                match instance_method_index(dex, w, *object, method as usize) {
                    Some(found) => {
                        return Ok((found, args));
                    },
                    None => {},
                }
            },
            _ => {},
        }
    }
    Ok((method as usize, args))
}

/// The method of a name that is called on an object: with code, from its class upwards, or
/// else the class's own.
pub open spec fn method_of_object(
    dex: &DexFile,
    w: WorldView,
    object: ObjectId,
    name: Seq<char>,
    upwards: bool,
) -> Result<nat, ErrorView> {
    match w.class_of(object) {
        None => Err(error::fault(0, 0, "listener is not an object instance"@)),
        Some(class_name) => {
            let wanted = Wanted { class_name, name, prototype: None, coded: true };
            let coded = if upwards {
                dex.inherited(wanted, dex.height())
            } else {
                dex.first(wanted)
            };
            match coded {
                Some(i) => Ok(i),
                None => match dex.first(Wanted { coded: false, ..wanted }) {
                    Some(i) => Ok(i),
                    None => Err(not_found(class_name, name)),
                },
            }
        },
    }
}

pub open spec fn not_found(class_name: Seq<char>, name: Seq<char>) -> ErrorView {
    error::fault(0, 0, "method "@ + class_name + "->"@ + name + " not found"@)
}

pub fn missing_method(class_name: &str, name: &str) -> (r: VmError)
    ensures
        r@ == not_found(class_name@, name@),
{
    let start = text::join3("method ", class_name, "->");
    failure_text(0, 0, text::join3(start.as_str(), name, " not found"))
}

pub open spec fn index_of(r: Result<usize, VmError>) -> Result<nat, ErrorView> {
    match r {
        Ok(i) => Ok(i as nat),
        Err(e) => Err(e@),
    }
}

pub fn find_object_method(
    dex: &DexFile,
    w: &World,
    object: ObjectId,
    name: &str,
    upwards: bool,
) -> (r: Result<usize, VmError>)
    ensures
        index_of(r) == method_of_object(dex, w@, object, name@, upwards),
{
    match w.class_name(object) {
        None => Err(failure(0, 0, "listener is not an object instance")),
        Some(class_name) => {
            let coded = if upwards {
                dex.find_inherited(class_name, name, None)
            } else {
                find_method(dex, class_name, name, None, true)
            };
            match coded {
                Some(i) => Ok(i),
                None => match find_method(dex, class_name, name, None, false) {
                    Some(i) => Ok(i),
                    None => Err(missing_method(class_name, name)),
                },
            }
        },
    }
}

} // verus!
