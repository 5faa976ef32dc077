//! The words of an instruction, and what an instruction leaves as it is.

use vstd::prelude::*;

use crate::code;
use crate::code::ActivationView;
use crate::value::ValueView;

verus! {

/// Some bits of a word, from one up.
pub open spec fn bits(word: u16, low: u16, mask: u16) -> int {
    ((word >> low) & mask) as int
}

/// The parts of a word are its bits.
pub proof fn the_parts_of_a_word(w: u16)
    ensures
        code::low_nibble(w) == bits(w, 8, 0xf),
        code::high_nibble(w) == bits(w, 12, 0xf),
        code::high_byte(w) == bits(w, 8, 0xff),
        code::low_byte(w) == bits(w, 0, 0xff),
        w as int % 0x10 == bits(w, 0, 0xf),
        w as int / 0x10 % 0x10 == bits(w, 4, 0xf),
        w as int / 0x100 % 0x10 == bits(w, 8, 0xf),
        w as int / 0x1000 == bits(w, 12, 0xf),
        0 <= bits(w, 8, 0xf) < 16,
        0 <= bits(w, 12, 0xf) < 16,
        0 <= bits(w, 8, 0xff) < 256,
        0 <= bits(w, 0, 0xff) < 256,
        0 <= bits(w, 0, 0xf) < 16,
        0 <= bits(w, 4, 0xf) < 16,
{
    assert(w / 0x100u16 % 0x10u16 == (w >> 8u16) & 0xfu16) by (bit_vector);
    assert(w / 0x1000u16 == (w >> 12u16) & 0xfu16) by (bit_vector);
    assert(w / 0x100u16 == (w >> 8u16) & 0xffu16) by (bit_vector);
    assert(w % 0x100u16 == (w >> 0u16) & 0xffu16) by (bit_vector);
    assert(w % 0x10u16 == (w >> 0u16) & 0xfu16) by (bit_vector);
    assert(w / 0x10u16 % 0x10u16 == (w >> 4u16) & 0xfu16) by (bit_vector);
}

/// A word as a number from -32768 to 32767.
pub open spec fn signed_word(w: u16) -> int {
    if w < 0x8000 {
        w as int
    } else {
        w - 0x1_0000
    }
}

/// Two words as a number, the low one first.
pub open spec fn wide_word(words: Seq<u16>, at: int) -> int {
    words[at] + words[at + 1] * 0x1_0000
}

/// The same from -2147483648 to 2147483647.
pub open spec fn signed_wide_word(words: Seq<u16>, at: int) -> int {
    if words[at + 1] < 0x8000 {
        wide_word(words, at)
    } else {
        wide_word(words, at) - 0x1_0000_0000
    }
}

/// Whether the code holds so many words of an instruction.
pub open spec fn whole(words: Seq<u16>, a: ActivationView, size: int) -> bool {
    a.pc + size <= words.len() <= usize::MAX
}

pub open spec fn within(a: ActivationView, register: int) -> bool {
    0 <= register < a.registers.len()
}

/// Whether an instruction of so many words changes nothing but one register.
pub open spec fn keeps_but(
    before: ActivationView,
    after: ActivationView,
    register: int,
    size: int,
) -> bool {
    &&& after.pc == before.pc + size
    &&& after.result == before.result
    &&& after.registers.len() == before.registers.len()
    &&& forall|i: int|
        0 <= i < before.registers.len() && i != register ==> #[trigger] after.registers[i]
            == before.registers[i]
}

/// Whether it changes nothing but a pair of registers, the second of which holds nothing then.
pub open spec fn keeps_but_pair(
    before: ActivationView,
    after: ActivationView,
    register: int,
    size: int,
) -> bool {
    &&& after.pc == before.pc + size
    &&& after.result == before.result
    &&& after.registers.len() == before.registers.len()
    &&& after.registers[register + 1] == ValueView::Void
    &&& forall|i: int|
        0 <= i < before.registers.len() && i != register && i != register + 1
            ==> #[trigger] after.registers[i] == before.registers[i]
}

/// Whether it changes nothing but where the method goes on.
pub open spec fn goes_to(before: ActivationView, after: ActivationView, pc: int) -> bool {
    after == ActivationView { pc: pc as usize, ..before } && 0 <= pc <= usize::MAX
}

} // verus!
