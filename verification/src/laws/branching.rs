//! Where a method goes on: tests, jumps and switches.

use vstd::prelude::*;

use crate::code::ActivationView;
use crate::dex::DexFile;
use crate::float;
use crate::interp::branches;
use crate::interp::execute;
use crate::laws::steps;
use crate::laws::steps::{
    bits, goes_to, within, signed_wide_word, signed_word, whole, wide_word,
};
use crate::value::ValueView;
use crate::world::WorldView;

verus! {

/// Whether two numbers stand in the relation that a test names: equal, not equal, less, at
/// least, greater, at most.
pub open spec fn related(opcode: u8, first: u8, x: int, y: int) -> bool {
    &&& opcode == first ==> x == y
    &&& opcode == first + 1 ==> x != y
    &&& opcode == first + 2 ==> x < y
    &&& opcode == first + 3 ==> x >= y
    &&& opcode == first + 4 ==> x > y
    &&& opcode == first + 5 ==> x <= y
}

/// Whether a step of a branch goes to where the branch goes, exactly if it is taken, and behind
/// the instruction otherwise. A branch out of the code is an error.
pub open spec fn branches_if(
    words: Seq<u16>,
    a: ActivationView,
    stepped: Result<ActivationView, crate::error::ErrorView>,
    taken: bool,
    offset: int,
    size: int,
) -> bool {
    if !taken {
        stepped matches Ok(after) && goes_to(a, after, a.pc + size)
    } else if 0 <= a.pc + offset <= words.len() {
        stepped matches Ok(after) && goes_to(a, after, a.pc + offset)
    } else {
        stepped is Err
    }
}

/// A test of two registers branches exactly if the first stands in its relation to the second, as
/// integers, longs or floating-point numbers. A NaN is equal to nothing, and neither less nor
/// greater. Values of other kinds are equal only if they are the same.
pub proof fn a_test_of_two_registers(
    dex: &DexFile,
    words: Seq<u16>,
    w: WorldView,
    a: ActivationView,
    opcode: u8,
    instruction: u16,
)
    requires
        0x32 <= opcode <= 0x37,
        whole(words, a, 2),
        within(a, bits(instruction, 8, 0xf)),
        within(a, bits(instruction, 12, 0xf)),
    ensures
        ({
            let left = a.registers[bits(instruction, 8, 0xf)];
            let right = a.registers[bits(instruction, 12, 0xf)];
            let offset = signed_word(words[a.pc + 1]);
            let (world, stepped) = execute::plain_step(dex, words, w, a, opcode, instruction);
            &&& world == w
            &&& match (left, right) {
                (ValueView::Int(x), ValueView::Int(y)) => branches_if(
                    words,
                    a,
                    stepped,
                    related(opcode, 0x32, x as int, y as int),
                    offset,
                    2,
                ),
                (ValueView::Long(x), ValueView::Long(y)) => branches_if(
                    words,
                    a,
                    stepped,
                    related(opcode, 0x32, x as int, y as int),
                    offset,
                    2,
                ),
                (ValueView::Float(x), ValueView::Float(y)) => branches_if(
                    words,
                    a,
                    stepped,
                    if float::single_nan(x) || float::single_nan(y) {
                        opcode == 0x33 || opcode == 0x35 || opcode == 0x37
                    } else {
                        related(opcode, 0x32, float::single_worth(x), float::single_worth(y))
                    },
                    offset,
                    2,
                ),
                (ValueView::Double(x), ValueView::Double(y)) => branches_if(
                    words,
                    a,
                    stepped,
                    if float::double_nan(x) || float::double_nan(y) {
                        opcode == 0x33 || opcode == 0x35 || opcode == 0x37
                    } else {
                        related(opcode, 0x32, float::double_worth(x), float::double_worth(y))
                    },
                    offset,
                    2,
                ),
                _ => if opcode == 0x32 {
                    branches_if(words, a, stepped, left == right, offset, 2)
                } else if opcode == 0x33 {
                    branches_if(words, a, stepped, left != right, offset, 2)
                } else if (left is Null || left is Void) && (right is Null || right is Void) {
                    branches_if(
                        words,
                        a,
                        stepped,
                        opcode == 0x35 || opcode == 0x37,
                        offset,
                        2,
                    )
                } else {
                    stepped is Err
                },
            }
        }),
{
    steps::the_parts_of_a_word(instruction);
}

/// A test against zero branches exactly if what the register holds stands in its relation to
/// zero. Nothing counts as zero, and no object and no text does.
pub proof fn a_test_against_zero(
    dex: &DexFile,
    words: Seq<u16>,
    w: WorldView,
    a: ActivationView,
    opcode: u8,
    instruction: u16,
)
    requires
        0x38 <= opcode <= 0x3d,
        whole(words, a, 2),
        within(a, bits(instruction, 8, 0xff)),
    ensures
        ({
            let v = a.registers[bits(instruction, 8, 0xff)];
            let offset = signed_word(words[a.pc + 1]);
            let (world, stepped) = execute::plain_step(dex, words, w, a, opcode, instruction);
            let equality = opcode == 0x38 || opcode == 0x39;
            let known = match v {
                ValueView::Int(x) => Some(x as int),
                ValueView::Null => Some(0),
                ValueView::Void => Some(0),
                ValueView::Long(x) if equality => Some(x as int),
                ValueView::Float(x) if equality => Some(
                    if float::single_nan(x) {
                        1
                    } else {
                        float::single_worth(x)
                    },
                ),
                ValueView::Double(x) if equality => Some(
                    if float::double_nan(x) {
                        1
                    } else {
                        float::double_worth(x)
                    },
                ),
                ValueView::Object(_) if equality => Some(1),
                ValueView::String(_) if equality => Some(1),
                _ => None,
            };
            &&& world == w
            &&& match known {
                Some(x) => branches_if(words, a, stepped, related(opcode, 0x38, x, 0), offset, 2),
                None => stepped is Err,
            }
        }),
{
    steps::the_parts_of_a_word(instruction);
    match a.registers[bits(instruction, 8, 0xff)] {
        ValueView::Float(x) => crate::laws::rounding::lemma_worthless(
            float::single_magnitude(x),
            23,
        ),
        ValueView::Double(x) => crate::laws::rounding::lemma_worthless(
            float::double_magnitude(x),
            52,
        ),
        _ => {},
    }
}

/// A jump goes as far as the signed byte of its word, or its second word, says.
pub proof fn a_jump_goes_as_far_as_it_says(
    dex: &DexFile,
    words: Seq<u16>,
    w: WorldView,
    a: ActivationView,
    opcode: u8,
    instruction: u16,
)
    requires
        0x28 <= opcode <= 0x2a,
        whole(words, a, 2),
    ensures
        ({
            let byte = bits(instruction, 8, 0xff);
            let offset = if opcode != 0x28 {
                signed_word(words[a.pc + 1])
            } else if byte < 0x80 {
                byte
            } else {
                byte - 0x100
            };
            let (world, stepped) = execute::plain_step(dex, words, w, a, opcode, instruction);
            world == w && branches_if(words, a, stepped, true, offset, 0)
        }),
{
    steps::the_parts_of_a_word(instruction);
}

proof fn lemma_wide_words(words: Seq<u16>, at: int)
    ensures
        branches::long_word(words, at) == signed_wide_word(words, at),
        crate::code::pair(words[at], words[at + 1]) == wide_word(words, at),
{
}

/// A packed switch goes to the target of its key among consecutive keys, and on behind itself
/// where the key is not among them.
pub proof fn a_packed_switch_goes_by_its_key(
    dex: &DexFile,
    words: Seq<u16>,
    w: WorldView,
    a: ActivationView,
    instruction: u16,
    key: i32,
)
    requires
        whole(words, a, 3),
        within(a, bits(instruction, 8, 0xff)),
        a.registers[bits(instruction, 8, 0xff)] == ValueView::Int(key),
        ({
            let at = a.pc + signed_wide_word(words, a.pc + 1);
            &&& 0 <= at
            &&& at + 4 <= words.len()
            &&& words[at] == 0x0100
            &&& at + 4 + 2 * words[at + 1] <= words.len()
        }),
    ensures
        ({
            let at = a.pc + signed_wide_word(words, a.pc + 1);
            let first = wide_word(words, at + 2);
            let (world, stepped) = execute::plain_step(dex, words, w, a, 0x2b, instruction);
            &&& world == w
            &&& branches_if(
                words,
                a,
                stepped,
                first <= key < first + words[at + 1],
                signed_wide_word(words, at + 4 + 2 * (key - first)),
                3,
            )
        }),
{
    steps::the_parts_of_a_word(instruction);
    lemma_wide_words(words, a.pc + 1);
    let at = a.pc + signed_wide_word(words, a.pc + 1);
    let first = wide_word(words, at + 2);
    lemma_wide_words(words, at + 2);
    lemma_wide_words(words, at + 4 + 2 * (key - first));
}

proof fn lemma_sparse(words: Seq<u16>, at: int, entry: int, found: int, key: i32)
    requires
        0 <= at,
        0 <= entry <= found <= words[at + 1],
        at + 2 + 4 * words[at + 1] <= words.len(),
        forall|j: int|
            entry <= j < found ==> signed_wide_word(words, #[trigger] (at + 2 + 4 * j)) != key,
        found < words[at + 1] ==> signed_wide_word(words, at + 2 + 4 * found) == key,
    ensures
        branches::sparse_target(words, at, entry, key) == Ok::<Option<int>, Seq<char>>(
            if found < words[at + 1] {
                Some(signed_wide_word(words, at + 4 + 4 * found))
            } else {
                None
            },
        ),
    decreases found - entry,
{
    lemma_wide_words(words, at + 2 + 4 * entry);
    lemma_wide_words(words, at + 4 + 4 * found);
    if entry < found {
        assert(signed_wide_word(words, at + 2 + 4 * entry) != key);
        assert forall|j: int| entry + 1 <= j < found implies signed_wide_word(
            words,
            #[trigger] (at + 2 + 4 * j),
        ) != key by {
            assert(entry <= j < found);
        }
        lemma_sparse(words, at, entry + 1, found, key);
    }
}

/// A sparse switch goes to the target of the first entry with its key, and on behind itself
/// where no entry has it.
pub proof fn a_sparse_switch_goes_by_its_key(
    dex: &DexFile,
    words: Seq<u16>,
    w: WorldView,
    a: ActivationView,
    instruction: u16,
    key: i32,
    found: int,
)
    requires
        whole(words, a, 3),
        within(a, bits(instruction, 8, 0xff)),
        a.registers[bits(instruction, 8, 0xff)] == ValueView::Int(key),
        ({
            let at = a.pc + signed_wide_word(words, a.pc + 1);
            &&& 0 <= at
            &&& at + 2 <= words.len()
            &&& words[at] == 0x0200
            &&& at + 2 + 4 * words[at + 1] <= words.len()
            &&& 0 <= found <= words[at + 1]
            &&& forall|j: int|
                0 <= j < found ==> signed_wide_word(words, #[trigger] (at + 2 + 4 * j)) != key
            &&& found < words[at + 1] ==> signed_wide_word(words, at + 2 + 4 * found) == key
        }),
    ensures
        ({
            let at = a.pc + signed_wide_word(words, a.pc + 1);
            let (world, stepped) = execute::plain_step(dex, words, w, a, 0x2c, instruction);
            &&& world == w
            &&& branches_if(
                words,
                a,
                stepped,
                found < words[at + 1],
                signed_wide_word(words, at + 4 + 4 * found),
                3,
            )
        }),
{
    steps::the_parts_of_a_word(instruction);
    lemma_wide_words(words, a.pc + 1);
    let at = a.pc + signed_wide_word(words, a.pc + 1);
    lemma_sparse(words, at, 0, found, key);
}

} // verus!
