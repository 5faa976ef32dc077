//! A method stays within its code, and its frame keeps its size.

use vstd::prelude::*;

use crate::code::{ActivationView, Stepped};
use crate::dex::{DexFile, Method};
use crate::frames;
use crate::frames::{CodeView, FrameView, Phase, StatusView};
use crate::interp::branches;
use crate::interp::calls;
use crate::interp::execute;
use crate::interp::moves;
use crate::machine::VmView;
use crate::run;
use crate::value::{FieldsView, ValueView};
use crate::world::WorldView;

verus! {

/// Whether an instruction leaves the activation within the code, and the frame as large as it
/// was.
pub open spec fn stays(words: Seq<u16>, a: ActivationView, stepped: Stepped) -> bool {
    stepped matches Ok(b) ==> b.pc <= words.len() && b.registers.len() == a.registers.len()
}

/// Whether an activation is at an instruction of code that fits into memory.
pub open spec fn at_instruction(words: Seq<u16>, a: ActivationView) -> bool {
    a.pc < words.len() <= usize::MAX
}

proof fn lemma_moves(words: Seq<u16>, a: ActivationView, opcode: u8, instruction: u16)
    requires
        at_instruction(words, a),
    ensures
        stays(words, a, moves::move_step(words, a, opcode, instruction)),
        stays(words, a, moves::result_step(a, opcode, instruction)),
        stays(words, a, moves::constant_step(words, a, opcode, instruction)),
{
}

proof fn lemma_strings(
    dex: &DexFile,
    words: Seq<u16>,
    a: ActivationView,
    opcode: u8,
    instruction: u16,
)
    requires
        at_instruction(words, a),
    ensures
        stays(words, a, moves::string_step(dex, words, a, opcode, instruction)),
{
}

proof fn lemma_jumps(words: Seq<u16>, a: ActivationView, opcode: u8, instruction: u16)
    requires
        at_instruction(words, a),
    ensures
        stays(words, a, branches::goto_step(words, a, opcode, instruction)),
        stays(words, a, branches::pair_step(words, a, opcode, instruction)),
        stays(words, a, branches::zero_step(words, a, opcode, instruction)),
{
}

proof fn lemma_switch(words: Seq<u16>, a: ActivationView, opcode: u8, instruction: u16)
    requires
        at_instruction(words, a),
    ensures
        stays(words, a, branches::switch_step(words, a, opcode, instruction)),
{
}

proof fn lemma_arithmetic(words: Seq<u16>, a: ActivationView, opcode: u8, instruction: u16)
    requires
        at_instruction(words, a),
    ensures
        execute::arithmetic_step(words, a, opcode, instruction) matches Some(stepped) ==> stays(
            words,
            a,
            stepped,
        ),
{
}

proof fn lemma_heap(
    dex: &DexFile,
    words: Seq<u16>,
    w: WorldView,
    a: ActivationView,
    opcode: u8,
    instruction: u16,
)
    requires
        at_instruction(words, a),
    ensures
        stays(words, a, execute::heap_step(dex, words, w, a, opcode, instruction).1),
{
}

/// No instruction leaves the code of its method, but for its end, or changes the number of
/// registers.
pub proof fn an_instruction_stays_within_the_code(
    dex: &DexFile,
    words: Seq<u16>,
    w: WorldView,
    a: ActivationView,
    opcode: u8,
    instruction: u16,
)
    requires
        at_instruction(words, a),
    ensures
        stays(words, a, execute::plain_step(dex, words, w, a, opcode, instruction).1),
{
    lemma_arithmetic(words, a, opcode, instruction);
    lemma_moves(words, a, opcode, instruction);
    lemma_strings(dex, words, a, opcode, instruction);
    lemma_jumps(words, a, opcode, instruction);
    lemma_switch(words, a, opcode, instruction);
    lemma_heap(dex, words, w, a, opcode, instruction);
}

/// Reading and writing a static field do neither, too, and a call leaves the three words of its
/// instruction behind.
pub proof fn static_fields_and_calls_stay_within_the_code(
    dex: &DexFile,
    words: Seq<u16>,
    w: WorldView,
    statics: FieldsView,
    a: ActivationView,
    opcode: u8,
    instruction: u16,
)
    requires
        at_instruction(words, a),
    ensures
        stays(
            words,
            a,
            calls::load_static_step(dex, words, w, statics, a, opcode, instruction),
        ),
        stays(
            words,
            a,
            calls::store_static_step(dex, words, statics, a, opcode, instruction).1,
        ),
        calls::invocation(dex, words, w, a, opcode, instruction) is Ok ==> a.pc + 3 <= words.len(),
{
}

// The machine.

/// Whether a method with code is within it.
pub open spec fn inside(f: CodeView) -> bool {
    f.activation.pc <= f.words.len() <= usize::MAX
}

/// Whether all methods on a stack are within their code.
pub open spec fn all_inside(stack: Seq<FrameView>) -> bool {
    forall|i: int|
        0 <= i < stack.len() ==> (#[trigger] stack[i] matches FrameView::Code(f) ==> inside(f))
}

proof fn lemma_begun(vm: VmView, m: Method, args: Seq<ValueView>)
    requires
        all_inside(vm.stack),
    ensures
        all_inside(vm.begun(m, args).stack),
{
    reveal(VmView::begun);
    reveal(VmView::entered);
    if m.code is Some {
        assert(m.code->0.instructions.len() == m.code->0.instructions@.len());
    }
}

proof fn lemma_called(vm: VmView, index: nat, args: Seq<ValueView>)
    requires
        all_inside(vm.stack),
    ensures
        all_inside(vm.called(index, args).stack),
{
    reveal(VmView::called);
    if frames::depth(vm.stack) < vm.config.max_call_depth && index < vm.dex.methods.len() {
        let m = vm.dex.methods[index as int];
        let traced = vm.traced_call(m, args);
        lemma_begun(traced, m, args);
        lemma_begun(traced.marked(m.class_name@), m, args);
    }
}

proof fn lemma_continued(vm: VmView, f: CodeView, stepped: Stepped)
    requires
        all_inside(vm.stack),
        f.words.len() <= usize::MAX,
        stays(f.words, f.activation, stepped),
    ensures
        all_inside(vm.continued(f, stepped).stack),
{
}

proof fn lemma_executed(vm: VmView, f: CodeView, opcode: u8, instruction: u16)
    requires
        all_inside(vm.stack),
        at_instruction(f.words, f.activation),
    ensures
        all_inside(vm.executed(f, opcode, instruction).stack),
{
    reveal(VmView::executed);
    an_instruction_stays_within_the_code(
        &vm.dex,
        f.words,
        vm.world,
        f.activation,
        opcode,
        instruction,
    );
    static_fields_and_calls_stay_within_the_code(
        &vm.dex,
        f.words,
        vm.world,
        vm.statics,
        f.activation,
        opcode,
        instruction,
    );
    if execute::ends_method(opcode) {
    } else if execute::loads_static(opcode) {
        reveal(VmView::fetched);
        reveal(VmView::loaded);
    } else if execute::invokes(opcode) {
        reveal(VmView::invoked);
    }
}

proof fn lemma_code_step(vm: VmView, f: CodeView)
    requires
        all_inside(vm.stack),
        inside(f),
    ensures
        all_inside(vm.code_step(f).stack),
{
    reveal(VmView::code_step);
    let pc = f.activation.pc;
    if pc < f.words.len() {
        let instruction = f.words[pc as int];
        let opcode = (instruction % 0x100) as u8;
        if f.phase == Phase::Loading {
            reveal(VmView::loaded);
            static_fields_and_calls_stay_within_the_code(
                &vm.dex,
                f.words,
                vm.world,
                vm.statics,
                f.activation,
                opcode,
                instruction,
            );
        } else if !vm.exhausted() {
            lemma_executed(
                vm.counted().traced_instruction(f, opcode),
                f,
                opcode,
                instruction,
            );
        }
    }
}

/// A step keeps every method within its code.
pub proof fn a_step_stays_within_the_code(vm: VmView)
    requires
        all_inside(vm.stack),
    ensures
        all_inside(vm.next().stack),
{
    if vm.stack.len() > 0 {
        let below = vm.popped();
        assert(vm.stack[vm.stack.len() - 1] == vm.stack.last());
        assert forall|i: int| 0 <= i < below.stack.len() implies (
        #[trigger] below.stack[i] matches FrameView::Code(f) ==> inside(f)) by {
            assert(below.stack[i] == vm.stack[i]);
        }
        match vm.status {
            StatusView::Running => match vm.stack.last() {
                FrameView::Call { index, args } => lemma_called(below, index, args),
                FrameView::Prepared { method, args } => lemma_begun(below, method, args),
                FrameView::Code(f) => lemma_code_step(below, f),
                FrameView::Host(h) => {
                    reveal(VmView::host_step);
                },
                _ => {},
            },
            StatusView::Returning(r) => {
                reveal(VmView::received);
                match vm.stack.last() {
                    FrameView::Prepared { method, args } => lemma_begun(below, method, args),
                    _ => {},
                }
            },
            _ => {},
        }
    }
}

/// However long a machine runs, every method is within its code.
pub proof fn a_run_stays_within_the_code(vm: VmView)
    requires
        all_inside(vm.stack),
    ensures
        all_inside(vm.ran().stack),
    decreases run::budget(vm), run::weight(vm),
{
    if vm.active() {
        run::a_step_makes_progress(vm);
        a_step_stays_within_the_code(vm);
        a_run_stays_within_the_code(vm.next());
    }
}

} // verus!
