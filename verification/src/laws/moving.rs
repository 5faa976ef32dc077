//! Moves, constants, arrays and fields, as instructions.

use vstd::prelude::*;

use crate::code::ActivationView;
use crate::dex::DexFile;
use crate::host::EffectView;
use crate::interp::arrays;
use crate::interp::calls;
use crate::interp::execute;
use crate::laws::steps;
use crate::laws::steps::{
    bits, within, keeps_but, keeps_but_pair, signed_wide_word, signed_word, whole, wide_word,
};
use crate::laws::texts::stands_at;
use crate::table;
use crate::value::{FieldsView, ObjectId, ObjectView, ValueView};
use crate::world::WorldView;

verus! {

// Registers.

/// A move copies one register to another; a wide one empties the register behind it.
pub proof fn a_move_copies(
    dex: &DexFile,
    words: Seq<u16>,
    w: WorldView,
    a: ActivationView,
    opcode: u8,
    instruction: u16,
)
    requires
        0x01 <= opcode <= 0x09,
        whole(words, a, (opcode - 1) % 3 + 1),
    ensures
        ({
            let size = (opcode - 1) % 3 + 1;
            let (dest, source) = if size == 1 {
                (bits(instruction, 8, 0xf), bits(instruction, 12, 0xf))
            } else if size == 2 {
                (bits(instruction, 8, 0xff), words[a.pc + 1] as int)
            } else {
                (words[a.pc + 1] as int, words[a.pc + 2] as int)
            };
            let (world, stepped) = execute::plain_step(dex, words, w, a, opcode, instruction);
            let wide = 4 <= opcode <= 6;
            &&& world == w
            &&& if !within(a, source) || !within(a, if wide {
                dest + 1
            } else {
                dest
            }) {
                stepped is Err
            } else {
                stepped matches Ok(after) && after.registers[dest] == a.registers[source] && if wide {
                    keeps_but_pair(a, after, dest, size)
                } else {
                    keeps_but(a, after, dest, size)
                }
            }
        }),
{
    steps::the_parts_of_a_word(instruction);
}

/// What a call gave is moved to a register, or to the first of a pair.
pub proof fn a_result_is_moved(
    dex: &DexFile,
    words: Seq<u16>,
    w: WorldView,
    a: ActivationView,
    opcode: u8,
    instruction: u16,
)
    requires
        0x0a <= opcode <= 0x0c,
        whole(words, a, 1),
        within(a, bits(instruction, 8, 0xff) + 1),
    ensures
        ({
            let dest = bits(instruction, 8, 0xff);
            let (world, stepped) = execute::plain_step(dex, words, w, a, opcode, instruction);
            &&& world == w
            &&& stepped matches Ok(after) && after.registers[dest] == a.result && if opcode
                == 0x0b {
                keeps_but_pair(a, after, dest, 1)
            } else {
                keeps_but(a, after, dest, 1)
            }
        }),
{
    steps::the_parts_of_a_word(instruction);
}

/// A method returns what a register holds; `return-void` returns nothing.
pub proof fn a_method_returns_what_a_register_holds(
    a: ActivationView,
    opcode: u8,
    instruction: u16,
)
    requires
        0x0e <= opcode <= 0x11,
    ensures
        execute::ends_method(opcode),
        opcode == 0x0e ==> crate::interp::moves::returned(a, opcode, instruction) == Ok::<
            ValueView,
            crate::error::ErrorView,
        >(ValueView::Void),
        opcode != 0x0e && within(a, bits(instruction, 8, 0xff) + 1)
            ==> crate::interp::moves::returned(a, opcode, instruction) == Ok::<
            ValueView,
            crate::error::ErrorView,
        >(a.registers[bits(instruction, 8, 0xff)]),
        opcode != 0x0e && !within(a, bits(instruction, 8, 0xff))
            ==> crate::interp::moves::returned(a, opcode, instruction) is Err,
{
    steps::the_parts_of_a_word(instruction);
}

/// How many words a constant takes.
pub open spec fn constant_size(opcode: u8) -> int {
    if opcode == 0x12 {
        1
    } else if opcode == 0x14 || opcode == 0x17 {
        3
    } else if opcode == 0x18 {
        5
    } else {
        2
    }
}

/// What a constant is: the upper nibble, a signed word, two words, or the upper word of a number.
pub open spec fn constant_value(words: Seq<u16>, at: int, opcode: u8, instruction: u16) -> int {
    if opcode == 0x12 {
        bits(instruction, 12, 0xf)
    } else if opcode == 0x13 || opcode == 0x16 {
        signed_word(words[at])
    } else if opcode == 0x14 {
        signed_wide_word(words, at)
    } else if opcode == 0x15 {
        signed_word(words[at]) * 0x1_0000
    } else if opcode == 0x17 {
        wide_word(words, at)
    } else if opcode == 0x18 {
        wide_word(words, at) + signed_wide_word(words, at + 2) * 0x1_0000_0000
    } else {
        signed_word(words[at]) * 0x1_0000_0000_0000
    }
}

/// A constant is put into a register, or into a pair of them from the fifth opcode on.
pub proof fn a_constant_is_put_into_a_register(
    dex: &DexFile,
    words: Seq<u16>,
    w: WorldView,
    a: ActivationView,
    opcode: u8,
    instruction: u16,
)
    requires
        0x12 <= opcode <= 0x19,
        whole(words, a, constant_size(opcode)),
        within(
            a,
            if opcode == 0x12 {
                bits(instruction, 8, 0xf) + 1
            } else {
                bits(instruction, 8, 0xff) + 1
            },
        ),
    ensures
        ({
            let dest = if opcode == 0x12 {
                bits(instruction, 8, 0xf)
            } else {
                bits(instruction, 8, 0xff)
            };
            let n = constant_value(words, a.pc + 1, opcode, instruction);
            let size = constant_size(opcode);
            let (world, stepped) = execute::plain_step(dex, words, w, a, opcode, instruction);
            &&& world == w
            &&& stepped matches Ok(after) && if opcode <= 0x15 {
                keeps_but(a, after, dest, size) && (after.registers[dest] matches ValueView::Int(v)
                    && v == n)
            } else {
                keeps_but_pair(a, after, dest, size)
                    && (after.registers[dest] matches ValueView::Long(v) && v == n)
            }
        }),
{
    steps::the_parts_of_a_word(instruction);
}

/// A string constant is the string of its number in the program.
pub proof fn a_string_constant_is_the_string_of_its_number(
    dex: &DexFile,
    words: Seq<u16>,
    w: WorldView,
    a: ActivationView,
    opcode: u8,
    instruction: u16,
)
    requires
        opcode == 0x1a || opcode == 0x1b,
        whole(words, a, opcode - 0x18),
        within(a, bits(instruction, 8, 0xff)),
    ensures
        ({
            let dest = bits(instruction, 8, 0xff);
            let index = if opcode == 0x1a {
                words[a.pc + 1] as int
            } else {
                wide_word(words, a.pc + 1)
            };
            let (world, stepped) = execute::plain_step(dex, words, w, a, opcode, instruction);
            &&& world == w
            &&& if index < dex.strings.len() {
                stepped matches Ok(after) && keeps_but(a, after, dest, opcode - 0x18)
                    && after.registers[dest] == ValueView::String(dex.strings[index]@)
            } else {
                stepped is Err
            }
        }),
{
    steps::the_parts_of_a_word(instruction);
}

// Objects.

/// Whether a world has one object more than another, behind those that there were.
pub open spec fn adds(before: WorldView, after: WorldView, object: ObjectView) -> bool {
    &&& after.heap.len() == before.heap.len() + 1
    &&& after.heap.last() == object
    &&& forall|i: int|
        0 <= i < before.heap.len() ==> #[trigger] after.heap[i] == before.heap[i]
    &&& after.framework == before.framework
}

/// A class constant and a new instance are objects that were not there before, of the class that
/// the type index names.
pub proof fn a_new_object_is_of_its_class(
    dex: &DexFile,
    words: Seq<u16>,
    w: WorldView,
    a: ActivationView,
    opcode: u8,
    instruction: u16,
)
    requires
        opcode == 0x1c || opcode == 0x22,
        whole(words, a, 2),
        within(a, bits(instruction, 8, 0xff)),
        w.heap.len() <= u32::MAX,
    ensures
        ({
            let dest = bits(instruction, 8, 0xff);
            let index = words[a.pc + 1] as int;
            let (world, stepped) = execute::plain_step(dex, words, w, a, opcode, instruction);
            if index >= dex.types.len() {
                stepped is Err && world == w
            } else {
                let name = dex.types[index]@;
                let listed = name == "Ljava/util/ArrayList;"@ || name == "Ljava/util/LinkedList;"@
                    || name == "Ljava/util/HashMap;"@;
                &&& stepped matches Ok(after) && keeps_but(a, after, dest, 2) && (
                after.registers[dest] matches ValueView::Object(id) && id == w.heap.len())
                &&& adds(
                    w,
                    world,
                    if opcode == 0x1c {
                        ObjectView::Class(name)
                    } else if listed {
                        ObjectView::Collection(Seq::empty())
                    } else {
                        ObjectView::Instance { class_name: name, fields: Seq::empty() }
                    },
                )
                &&& world.effects == if opcode == 0x22 && (stands_at(name, "Landroid/view/"@, 0)
                    || stands_at(name, "Landroid/widget/"@, 0)) {
                    w.effects.push(
                        EffectView::EnsureView { view: w.heap.len() as ObjectId, class_name: name },
                    )
                } else {
                    w.effects
                }
            }
        }),
{
    steps::the_parts_of_a_word(instruction);
    if words[a.pc + 1] < dex.types.len() {
        let name = dex.types[words[a.pc + 1] as int]@;
        crate::laws::texts::a_text_is_found_where_it_stands(name, "Landroid/view/"@);
        crate::laws::texts::a_text_is_found_where_it_stands(name, "Landroid/widget/"@);
    }
}

/// `instance-of` tells whether an object's class is the type or descends from it; `check-cast`
/// changes nothing.
pub proof fn an_instance_is_told_by_its_class(
    dex: &DexFile,
    words: Seq<u16>,
    w: WorldView,
    a: ActivationView,
    instruction: u16,
)
    requires
        whole(words, a, 2),
        within(a, bits(instruction, 8, 0xff)),
        within(a, bits(instruction, 12, 0xf)),
        words[a.pc + 1] < dex.types.len(),
    ensures
        ({
            let dest = bits(instruction, 8, 0xff);
            let expected = dex.types[words[a.pc + 1] as int]@;
            let (world, stepped) = execute::plain_step(dex, words, w, a, 0x20, instruction);
            let v = a.registers[bits(instruction, 12, 0xf)];
            let class_name = match v {
                ValueView::Object(id) => w.class_of(id),
                _ => None,
            };
            &&& world == w
            &&& stepped matches Ok(after) && keeps_but(a, after, dest, 1) && (
            after.registers[dest] == ValueView::Int(1) <==> class_name is Some && dex.descends(
                class_name->0,
                expected,
                dex.height(),
            )) && (after.registers[dest] == ValueView::Int(1) || after.registers[dest]
                == ValueView::Int(0)) && (class_name == Some(expected) ==> after.registers[dest]
                == ValueView::Int(1)) && (class_name is None ==> after.registers[dest]
                == ValueView::Int(0))
        }),
        ({
            let (world, stepped) = execute::plain_step(dex, words, w, a, 0x1f, instruction);
            world == w && (stepped matches Ok(after) && steps::goes_to(a, after, a.pc + 2))
        }),
{
    steps::the_parts_of_a_word(instruction);
}

// Arrays.

/// Whether a world differs from another in one object alone.
pub open spec fn changes_only(
    before: WorldView,
    after: WorldView,
    id: ObjectId,
    object: ObjectView,
) -> bool {
    &&& after.heap.len() == before.heap.len()
    &&& id < after.heap.len()
    &&& after.heap[id as int] == object
    &&& forall|i: int|
        0 <= i < before.heap.len() && i != id ==> #[trigger] after.heap[i] == before.heap[i]
    &&& after.framework == before.framework
    &&& after.effects == before.effects
}

/// A new array is as long as its register says, of the type that the index names, and holds
/// nothing. A negative length is an error.
pub proof fn a_new_array_is_as_long_as_asked(
    dex: &DexFile,
    words: Seq<u16>,
    w: WorldView,
    a: ActivationView,
    instruction: u16,
    size: i32,
)
    requires
        whole(words, a, 2),
        within(a, bits(instruction, 8, 0xf)),
        within(a, bits(instruction, 12, 0xf)),
        a.registers[bits(instruction, 12, 0xf)] == ValueView::Int(size),
        words[a.pc + 1] < dex.types.len(),
        w.heap.len() <= u32::MAX,
    ensures
        ({
            let dest = bits(instruction, 8, 0xf);
            let (world, stepped) = execute::plain_step(dex, words, w, a, 0x23, instruction);
            if size < 0 {
                stepped is Err && world == w
            } else {
                let count = if size == 0 && bits(instruction, 12, 0xf) == 9 {
                    20
                } else {
                    size as nat
                };
                &&& stepped matches Ok(after) && keeps_but(a, after, dest, 2) && (
                after.registers[dest] matches ValueView::Object(id) && id == w.heap.len())
                &&& adds(
                    w,
                    world,
                    ObjectView::Array {
                        component: dex.types[words[a.pc + 1] as int]@,
                        values: Seq::new(count, |i: int| ValueView::Null),
                    },
                )
            }
        }),
{
    steps::the_parts_of_a_word(instruction);
}

/// An array's length is that of its elements; an element is read from its index and stored
/// there, and nowhere else. An index outside the array is an error that changes nothing.
pub proof fn an_array_is_read_and_written_by_index(
    dex: &DexFile,
    words: Seq<u16>,
    w: WorldView,
    a: ActivationView,
    opcode: u8,
    instruction: u16,
    id: ObjectId,
    component: Seq<char>,
    values: Seq<ValueView>,
    index: i32,
)
    requires
        0x44 <= opcode <= 0x51,
        whole(words, a, 2),
        within(a, bits(instruction, 8, 0xff) + 1),
        within(a, bits(words[a.pc + 1], 0, 0xff)),
        within(a, bits(words[a.pc + 1], 8, 0xff)),
        a.registers[bits(words[a.pc + 1], 0, 0xff)] == ValueView::Object(id),
        a.registers[bits(words[a.pc + 1], 8, 0xff)] == ValueView::Int(index),
        id < w.heap.len(),
        w.heap[id as int] == (ObjectView::Array { component, values }),
    ensures
        ({
            let register = bits(instruction, 8, 0xff);
            let (world, stepped) = execute::plain_step(dex, words, w, a, opcode, instruction);
            if !(0 <= index < values.len()) {
                stepped is Err && world == w
            } else if opcode <= 0x4b {
                &&& world == w
                &&& stepped matches Ok(after) && after.registers[register] == values[index as int]
                    && if opcode == 0x45 {
                    keeps_but_pair(a, after, register, 2)
                } else {
                    keeps_but(a, after, register, 2)
                }
            } else {
                &&& stepped matches Ok(after) && steps::goes_to(a, after, a.pc + 2)
                &&& changes_only(
                    w,
                    world,
                    id,
                    ObjectView::Array {
                        component,
                        values: values.update(index as int, a.registers[register]),
                    },
                )
            }
        }),
{
    steps::the_parts_of_a_word(instruction);
    steps::the_parts_of_a_word(words[a.pc + 1]);
}

/// The length of an array is the number of its elements.
pub proof fn the_length_of_an_array_is_read(
    dex: &DexFile,
    words: Seq<u16>,
    w: WorldView,
    a: ActivationView,
    instruction: u16,
    id: ObjectId,
    component: Seq<char>,
    values: Seq<ValueView>,
)
    requires
        whole(words, a, 1),
        within(a, bits(instruction, 8, 0xf)),
        within(a, bits(instruction, 12, 0xf)),
        a.registers[bits(instruction, 12, 0xf)] == ValueView::Object(id),
        id < w.heap.len(),
        w.heap[id as int] == (ObjectView::Array { component, values }),
        values.len() <= i32::MAX,
    ensures
        ({
            let dest = bits(instruction, 8, 0xf);
            let (world, stepped) = execute::plain_step(dex, words, w, a, 0x21, instruction);
            &&& world == w
            &&& stepped matches Ok(after) && keeps_but(a, after, dest, 1) && (
            after.registers[dest] matches ValueView::Int(n) && n == values.len())
        }),
{
    steps::the_parts_of_a_word(instruction);
}

/// The bytes of code from a word on, the low byte of each word first.
pub open spec fn byte_of(words: Seq<u16>, start: int, index: int) -> int {
    if index % 2 == 0 {
        bits(words[start + index / 2], 0, 0xff)
    } else {
        bits(words[start + index / 2], 8, 0xff)
    }
}

/// So many bytes as a number, the lowest first.
pub open spec fn little_endian(words: Seq<u16>, start: int, first: int, count: nat) -> int
    decreases count,
{
    if count == 0 {
        0
    } else {
        byte_of(words, start, first) + 0x100 * little_endian(
            words,
            start,
            first + 1,
            (count - 1) as nat,
        )
    }
}

proof fn lemma_or_byte(low: u32, byte: u32)
    requires
        byte < 0x100,
    ensures
        low < 0x100 ==> low | (byte << 8) == low + byte * 0x100,
        low < 0x1_0000 ==> low | (byte << 16) == low + byte * 0x1_0000,
        low < 0x100_0000 ==> low | (byte << 24) == low + byte * 0x100_0000,
        0u32 | (byte << 0) == byte,
{
    assert(byte < 0x100u32 && low < 0x100u32 ==> low | (byte << 8u32) == low + byte * 0x100u32)
        by (bit_vector);
    assert(byte < 0x100u32 && low < 0x1_0000u32 ==> low | (byte << 16u32) == low + byte
        * 0x1_0000u32) by (bit_vector);
    assert(byte < 0x100u32 && low < 0x100_0000u32 ==> low | (byte << 24u32) == low + byte
        * 0x100_0000u32) by (bit_vector);
    assert(0u32 | (byte << 0u32) == byte) by (bit_vector);
}

proof fn lemma_element(words: Seq<u16>, start: int, first: int, count: nat)
    requires
        count <= 4,
    ensures
        arrays::element_bits(words, start, first, count) == little_endian(
            words,
            start,
            first,
            count,
        ),
        count < 4 ==> 0 <= little_endian(words, start, first, count) < (if count == 0 {
            1
        } else if count == 1 {
            0x100
        } else if count == 2 {
            0x1_0000
        } else {
            0x100_0000int
        }),
        0 <= little_endian(words, start, first, count) < 0x1_0000_0000,
{
    reveal_with_fuel(arrays::element_bits, 5);
    reveal_with_fuel(little_endian, 5);
    assert forall|i: int| 0 <= #[trigger] byte_of(words, start, i) < 0x100 && arrays::data_byte(
        words,
        start,
        i,
    ) == byte_of(words, start, i) by {
        steps::the_parts_of_a_word(words[start + i / 2]);
    }
    let b0 = arrays::data_byte(words, start, first);
    let b1 = arrays::data_byte(words, start, first + 1);
    let b2 = arrays::data_byte(words, start, first + 2);
    let b3 = arrays::data_byte(words, start, first + 3);
    assert(byte_of(words, start, first) == b0 && byte_of(words, start, first + 1) == b1);
    assert(byte_of(words, start, first + 2) == b2 && byte_of(words, start, first + 3) == b3);
    lemma_or_byte(0, b0);
    lemma_or_byte(b0, b1);
    if count >= 2 {
        let two = (b0 + b1 * 0x100) as u32;
        lemma_or_byte(two, b2);
        if count >= 3 {
            let three = (two + b2 * 0x1_0000) as u32;
            lemma_or_byte(three, b3);
        }
    }
}

/// `fill-array-data` replaces the elements of an array by those that lie in the code, each of up
/// to four bytes, the lowest first. In an array of floats they are the bits of singles.
pub proof fn an_array_is_filled_from_the_code(
    dex: &DexFile,
    words: Seq<u16>,
    w: WorldView,
    a: ActivationView,
    instruction: u16,
    id: ObjectId,
    component: Seq<char>,
    values: Seq<ValueView>,
    index: int,
)
    requires
        whole(words, a, 3),
        within(a, bits(instruction, 8, 0xff)),
        a.registers[bits(instruction, 8, 0xff)] == ValueView::Object(id),
        id < w.heap.len(),
        w.heap[id as int] == (ObjectView::Array { component, values }),
        ({
            let at = a.pc + signed_wide_word(words, a.pc + 1);
            &&& 0 <= at
            &&& at + 4 <= words.len()
            &&& words[at] == 0x0300
            &&& words[at + 1] <= 4
            &&& at + 4 + (words[at + 1] * wide_word(words, at + 2) + 1) / 2 <= words.len()
            &&& 0 <= index < wide_word(words, at + 2)
        }),
    ensures
        ({
            let at = a.pc + signed_wide_word(words, a.pc + 1);
            let width = words[at + 1] as nat;
            let n = little_endian(words, at + 4, index * width, width);
            let (world, stepped) = execute::plain_step(dex, words, w, a, 0x26, instruction);
            &&& stepped matches Ok(after) && steps::goes_to(a, after, a.pc + 3)
            &&& world.heap.len() == w.heap.len()
            &&& world.heap[id as int] matches ObjectView::Array { component: c, values: filled }
                && c == component && filled.len() == wide_word(words, at + 2) && if component
                == "F"@ {
                filled[index] matches ValueView::Float(b) && b == n
            } else {
                filled[index] matches ValueView::Int(v) && (v == n || v == n - 0x1_0000_0000)
            }
        }),
{
    steps::the_parts_of_a_word(instruction);
    let at = a.pc + signed_wide_word(words, a.pc + 1);
    let width = words[at + 1] as nat;
    lemma_element(words, at + 4, index * width, width);
}

// Fields.

/// A field of an instance is read under the key of the field that the instruction names.
pub proof fn a_field_is_read_by_its_key(
    dex: &DexFile,
    words: Seq<u16>,
    w: WorldView,
    a: ActivationView,
    opcode: u8,
    instruction: u16,
    id: ObjectId,
    v: ValueView,
)
    requires
        0x52 <= opcode <= 0x58,
        whole(words, a, 2),
        within(a, bits(instruction, 8, 0xf)),
        within(a, bits(instruction, 12, 0xf)),
        a.registers[bits(instruction, 12, 0xf)] == ValueView::Object(id),
        w.field(id, dex.key(words[a.pc + 1] as nat)) == Some(v),
    ensures
        ({
            let dest = bits(instruction, 8, 0xf);
            let (world, stepped) = execute::plain_step(dex, words, w, a, opcode, instruction);
            &&& world == w
            &&& stepped matches Ok(after) && keeps_but(a, after, dest, 2) && after.registers[dest]
                == v
        }),
{
    steps::the_parts_of_a_word(instruction);
}

/// A field that an instance does not have, under any class, is read as blank for its type: zero
/// for numbers and null for objects. Reading it changes nothing.
pub proof fn a_missing_field_is_blank(
    dex: &DexFile,
    words: Seq<u16>,
    w: WorldView,
    a: ActivationView,
    opcode: u8,
    instruction: u16,
    id: ObjectId,
    class_name: Seq<char>,
)
    requires
        0x52 <= opcode <= 0x58,
        whole(words, a, 2),
        within(a, bits(instruction, 8, 0xf)),
        within(a, bits(instruction, 12, 0xf)),
        a.registers[bits(instruction, 12, 0xf)] == ValueView::Object(id),
        w.object(id) == Some(ObjectView::Instance { class_name, fields: Seq::empty() }),
        words[a.pc + 1] < dex.fields.len(),
        dex.fields[words[a.pc + 1] as int].name@ != "mMainLayer"@,
        dex.fields[words[a.pc + 1] as int].descriptor@ != "Ljava/util/ArrayList;"@,
    ensures
        ({
            let dest = bits(instruction, 8, 0xf);
            let kind = dex.fields[words[a.pc + 1] as int].descriptor@;
            let (world, stepped) = execute::plain_step(dex, words, w, a, opcode, instruction);
            &&& world == w
            &&& stepped matches Ok(after) && keeps_but(a, after, dest, 2) && after.registers[dest]
                == if kind == "I"@ || kind == "Z"@ || kind == "B"@ || kind == "S"@ || kind == "C"@ {
                ValueView::Int(0)
            } else if kind == "F"@ {
                ValueView::Float(0)
            } else if kind == "J"@ {
                ValueView::Long(0)
            } else if kind == "D"@ {
                ValueView::Double(0)
            } else {
                ValueView::Null
            }
        }),
{
    steps::the_parts_of_a_word(instruction);
}

/// A field of an instance is written under the key of the field that the instruction names. The
/// other fields of the instance and the other objects stay as they are.
pub proof fn a_field_is_written_by_its_key(
    dex: &DexFile,
    words: Seq<u16>,
    w: WorldView,
    a: ActivationView,
    opcode: u8,
    instruction: u16,
    id: ObjectId,
    other: Seq<char>,
    other_id: ObjectId,
)
    requires
        0x59 <= opcode <= 0x5f,
        whole(words, a, 2),
        within(a, bits(instruction, 8, 0xf)),
        within(a, bits(instruction, 12, 0xf)),
        a.registers[bits(instruction, 12, 0xf)] == ValueView::Object(id),
        w.class_of(id) is Some,
    ensures
        ({
            let key = dex.key(words[a.pc + 1] as nat);
            let (world, stepped) = execute::plain_step(dex, words, w, a, opcode, instruction);
            &&& stepped matches Ok(after) && steps::goes_to(a, after, a.pc + 2)
            &&& world.field(id, key) == Some(a.registers[bits(instruction, 8, 0xf)])
            &&& other != key ==> world.field(id, other) == w.field(id, other)
            &&& world.class_of(id) == w.class_of(id)
            &&& other_id != id ==> world.object(other_id) == w.object(other_id)
        }),
{
    steps::the_parts_of_a_word(instruction);
    let key = dex.key(words[a.pc + 1] as nat);
    let v = a.registers[bits(instruction, 8, 0xf)];
    crate::laws::memory::a_field_holds_what_is_set(w, id, key, v, other, other_id);
}

/// The key of a field is made of its class, its name and its type.
pub proof fn a_key_names_its_field(dex: &DexFile, index: nat)
    requires
        index < dex.fields.len(),
    ensures
        ({
            let f = dex.fields[index as int];
            dex.key(index) == f.class_name@ + "->"@ + f.name@ + ":"@ + f.descriptor@
        }),
{
}

/// A static field is read as it was written, whichever registers the two instructions name.
pub proof fn a_static_field_is_kept(
    dex: &DexFile,
    words: Seq<u16>,
    w: WorldView,
    statics: FieldsView,
    a: ActivationView,
    opcode: u8,
    instruction: u16,
    reader: ActivationView,
    reading: u8,
    reading_instruction: u16,
)
    requires
        0x67 <= opcode <= 0x6d,
        0x60 <= reading <= 0x66,
        whole(words, a, 2),
        whole(words, reader, 2),
        within(a, bits(instruction, 8, 0xff) + 1),
        within(reader, bits(reading_instruction, 8, 0xff) + 1),
        words[a.pc + 1] == words[reader.pc + 1],
    ensures
        ({
            let (after, stepped) = calls::store_static_step(
                dex,
                words,
                statics,
                a,
                opcode,
                instruction,
            );
            let dest = bits(reading_instruction, 8, 0xff);
            let loaded = calls::load_static_step(
                dex,
                words,
                w,
                after,
                reader,
                reading,
                reading_instruction,
            );
            &&& stepped matches Ok(b) && steps::goes_to(a, b, a.pc + 2)
            &&& loaded matches Ok(b) && b.registers[dest] == a.registers[bits(
                instruction,
                8,
                0xff,
            )] && if reading == 0x61 || reading == 0x65 {
                keeps_but_pair(reader, b, dest, 2)
            } else {
                keeps_but(reader, b, dest, 2)
            }
        }),
{
    steps::the_parts_of_a_word(instruction);
    steps::the_parts_of_a_word(reading_instruction);
    let key = dex.key(words[a.pc + 1] as nat);
    table::store_then_lookup(statics, key, a.registers[bits(instruction, 8, 0xff)], key);
}

} // verus!
