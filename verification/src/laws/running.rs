//! What a machine keeps while it runs: objects, classes, the trace, and the mode of rendering.

use vstd::prelude::*;

use crate::dex::Method;
use crate::error;
use crate::error::Outcome;
use crate::frames;
use crate::frames::{CodeView, FrameView, HostView, Phase, StatusView};
use crate::laws::growth;
use crate::laws::modes;
use crate::machine::VmView;
use crate::run;
use crate::value::ValueView;

verus! {

// What goes from one state to a later one.

/// Whether a machine can come after another: no object is lost and nothing that was done is
/// taken back, every class that was initialised still is, and no class counts twice. The
/// trace goes on behind what it was, and it stays as it was where it is switched off.
pub open spec fn comes_after(before: VmView, after: VmView) -> bool {
    &&& before.world.heap.len() <= after.world.heap.len()
    &&& before.world.effects.len() <= after.world.effects.len()
    &&& forall|i: int|
        0 <= i < before.world.effects.len() ==> #[trigger] after.world.effects[i]
            == before.world.effects[i]
    &&& before.initialized.len() <= after.initialized.len()
    &&& forall|i: int|
        0 <= i < before.initialized.len() ==> #[trigger] after.initialized[i]
            == before.initialized[i]
    &&& before.initialized.no_duplicates() ==> after.initialized.no_duplicates()
    &&& before.trace.len() <= after.trace.len()
    &&& forall|i: int|
        0 <= i < before.trace.len() ==> #[trigger] after.trace[i] == before.trace[i]
    &&& !before.config.trace_registers ==> after.trace == before.trace
    &&& after.config == before.config
    &&& after.dex == before.dex
}

/// Whether a machine is back where it was: it has the same calls, renders or does not as before,
/// and has the same configuration.
pub open spec fn restored(before: VmView, after: VmView) -> bool {
    &&& after.stack == before.stack
    &&& frames::depth(after.stack) == frames::depth(before.stack)
    &&& modes::mode(after) == modes::mode(before)
    &&& after.config == before.config
}

proof fn lemma_marked(vm: VmView, class_name: Seq<char>)
    ensures
        comes_after(vm, vm.marked(class_name)),
        vm.marked(class_name).initialized.contains(class_name),
{
    let after = vm.marked(class_name);
    if !vm.initialized.contains(class_name) {
        assert(after.initialized[vm.initialized.len() as int] == class_name);
        assert forall|i: int, j: int|
            vm.initialized.no_duplicates() && 0 <= i < after.initialized.len() && 0 <= j
                < after.initialized.len() && i != j implies after.initialized[i]
            != after.initialized[j] by {
            if i < vm.initialized.len() {
                assert(vm.initialized.contains(vm.initialized[i]));
            }
            if j < vm.initialized.len() {
                assert(vm.initialized.contains(vm.initialized[j]));
            }
        }
    }
}

proof fn lemma_begun(vm: VmView, m: Method, args: Seq<ValueView>)
    ensures
        comes_after(vm, vm.begun(m, args)),
{
    reveal(VmView::begun);
    reveal(VmView::entered);
}

proof fn lemma_called(vm: VmView, index: nat, args: Seq<ValueView>)
    ensures
        comes_after(vm, vm.called(index, args)),
{
    reveal(VmView::called);
    if frames::depth(vm.stack) < vm.config.max_call_depth && index < vm.dex.methods.len() {
        let m = vm.dex.methods[index as int];
        let traced = vm.traced_call(m, args);
        assert(comes_after(vm, traced));
        if m.name@ == "<clinit>"@ {
            lemma_begun(traced, m, args);
        } else {
            lemma_marked(traced, m.class_name@);
            lemma_begun(traced.marked(m.class_name@), m, args);
        }
    }
}

proof fn lemma_executed(vm: VmView, f: CodeView, opcode: u8, instruction: u16)
    ensures
        comes_after(vm, vm.executed(f, opcode, instruction)),
{
    reveal(VmView::executed);
    reveal(VmView::fetched);
    reveal(VmView::loaded);
    reveal(VmView::invoked);
    growth::an_instruction_loses_nothing(
        &vm.dex,
        f.words,
        vm.world,
        f.activation,
        opcode,
        instruction,
    );
    match crate::interp::calls::static_class(&vm.dex, f.words, f.activation, opcode) {
        Ok(Some(class_name)) => lemma_marked(vm, class_name),
        _ => {},
    }
}

proof fn lemma_code_step(vm: VmView, f: CodeView)
    ensures
        comes_after(vm, vm.code_step(f)),
{
    reveal(VmView::code_step);
    reveal(VmView::loaded);
    let pc = f.activation.pc;
    if pc < f.words.len() && f.phase != Phase::Loading && !vm.exhausted() {
        let instruction = f.words[pc as int];
        let opcode = (instruction % 0x100) as u8;
        let traced = vm.counted().traced_instruction(f, opcode);
        assert(comes_after(vm, traced));
        lemma_executed(traced, f, opcode, instruction);
    }
}

proof fn lemma_host_step(vm: VmView, h: HostView)
    ensures
        comes_after(vm, vm.host_step(h)),
{
    reveal(VmView::host_step);
    growth::the_framework_loses_nothing(vm.world, h.class_name, h.method, h.args, h.answers);
    growth::the_game_library_loses_nothing(
        vm.world,
        vm.executed_steps,
        h.class_name,
        h.method,
        h.args,
        h.answers,
    );
}

proof fn lemma_received(vm: VmView, frame: FrameView, r: Outcome)
    ensures
        comes_after(vm, vm.received(frame, r)),
{
    reveal(VmView::received);
    match frame {
        FrameView::Prepared { method, args } => lemma_begun(vm, method, args),
        _ => {},
    }
}

/// A step loses no object and takes nothing back that was done. No class is initialised
/// twice, and the trace only grows.
pub proof fn a_step_loses_nothing(vm: VmView)
    ensures
        comes_after(vm, vm.next()),
{
    if vm.stack.len() > 0 {
        let below = vm.popped();
        match vm.status {
            StatusView::Running => match vm.stack.last() {
                FrameView::Call { index, args } => lemma_called(below, index, args),
                FrameView::Prepared { method, args } => lemma_begun(below, method, args),
                FrameView::Code(f) => lemma_code_step(below, f),
                FrameView::Host(h) => lemma_host_step(below, h),
                _ => {},
            },
            StatusView::Returning(r) => lemma_received(below, vm.stack.last(), r),
            _ => {},
        }
    }
}

/// However long a machine runs, no object is lost and nothing is taken back, no class is
/// initialised twice, and the trace only grows.
pub proof fn a_run_loses_nothing(vm: VmView)
    ensures
        comes_after(vm, vm.ran()),
    decreases run::budget(vm), run::weight(vm),
{
    if vm.active() {
        run::a_step_makes_progress(vm);
        a_step_loses_nothing(vm);
        a_run_loses_nothing(vm.next());
    }
}

/// The initialiser of a class is called for no class that counts as initialised.
pub proof fn an_initialized_class_is_not_initialized_again(vm: VmView, class_name: Seq<char>)
    ensures
        vm.marked(class_name).initialized.contains(class_name),
        vm.marked(class_name).initializer(class_name) is None,
        vm.initialized.contains(class_name) ==> vm.initializer(class_name) is None
            && vm.marked(class_name) == vm,
{
    lemma_marked(vm, class_name);
}

// The limit on instructions.

/// Outside of rendering, an instruction beyond the limit is not executed: its method ends with
/// an error, and nothing else has changed but the count.
pub proof fn the_instruction_limit_is_kept(vm: VmView, f: CodeView)
    requires
        f.activation.pc < f.words.len(),
        f.phase == Phase::Ready,
        !vm.world.frame_mode,
        vm.executed_steps >= vm.config.max_steps,
    ensures
        vm.code_step(f) == vm.counted().ended(
            f,
            Err(error::fault(f.activation.pc, 0, "instruction limit exceeded"@)),
        ),
        vm.code_step(f).status matches StatusView::Returning(r) && r is Err,
        vm.counted().world == vm.world,
{
    reveal(VmView::code_step);
}

/// While a frame is rendered, the limit ends the frame's methods without an error.
pub proof fn a_frame_ends_at_the_limit(vm: VmView, f: CodeView)
    requires
        f.activation.pc < f.words.len(),
        f.phase == Phase::Ready,
        vm.world.frame_mode,
        vm.frame_steps >= vm.config.max_steps,
    ensures
        vm.code_step(f).status == StatusView::Returning(Ok(ValueView::Void)),
        vm.code_step(f).stack == vm.stack,
{
    reveal(VmView::code_step);
}

} // verus!
