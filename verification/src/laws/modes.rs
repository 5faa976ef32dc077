//! The mode of rendering is restored.

use vstd::prelude::*;

use crate::code;
use crate::code::Stepped;
use crate::dex::Method;
use crate::error::Outcome;
use crate::frames;
use crate::frames::{CodeView, FrameView, HostView, Phase, StatusView};
use crate::host::AnswerView;
use crate::interp::calls;
use crate::interp::execute;
use crate::laws::growth;
use crate::machine::VmView;
use crate::run;
use crate::value::{ObjectId, ValueView};
use crate::vm;
use crate::world::WorldView;

verus! {

/// Whether frames are rendered, and whether a frame was given up.
pub type Mode = (bool, bool);

pub open spec fn mode(vm: VmView) -> Mode {
    (vm.world.frame_mode, vm.frame_aborted)
}

pub open spec fn behind(frame: FrameView, before: Mode) -> Mode {
    match frame {
        FrameView::Code(f) => match f.restore {
            Some(restored) => restored,
            None => before,
        },
        FrameView::Render => (false, before.1),
        _ => before,
    }
}

/// The mode once every frame of a stack has ended, but for so many lowest ones.
pub open spec fn unwound(stack: Seq<FrameView>, base: nat, before: Mode) -> Mode
    decreases stack.len(),
{
    if stack.len() <= base {
        before
    } else {
        unwound(stack.drop_last(), base, behind(stack.last(), before))
    }
}

/// The mode that a machine comes back to once it has so many frames.
pub open spec fn mode_at(vm: VmView, base: nat) -> Mode {
    unwound(vm.stack, base, mode(vm))
}

pub open spec fn final_mode(vm: VmView) -> Mode {
    mode_at(vm, 0)
}

proof fn lemma_pushed(vm: VmView, frame: FrameView, base: nat)
    requires
        base <= vm.stack.len(),
    ensures
        mode_at(vm.pushed(frame), base) == unwound(vm.stack, base, behind(frame, mode(vm))),
{
    assert(vm.stack.push(frame).drop_last() =~= vm.stack);
}

proof fn lemma_begun(vm: VmView, m: Method, args: Seq<ValueView>, base: nat)
    requires
        base <= vm.stack.len(),
    ensures
        mode_at(vm.begun(m, args), base) == mode_at(vm, base),
{
    reveal(VmView::begun);
    reveal(VmView::entered);
    let after = vm.begun(m, args);
    if after.stack.len() > vm.stack.len() {
        assert(after.stack =~= vm.stack.push(after.stack.last()));
        assert(after.stack.drop_last() =~= vm.stack);
    }
}

proof fn lemma_called(vm: VmView, index: nat, args: Seq<ValueView>, base: nat)
    requires
        base <= vm.stack.len(),
    ensures
        mode_at(vm.called(index, args), base) == mode_at(vm, base),
{
    reveal(VmView::called);
    if frames::depth(vm.stack) < vm.config.max_call_depth && index < vm.dex.methods.len() {
        let m = vm.dex.methods[index as int];
        let traced = vm.traced_call(m, args);
        if m.name@ == "<clinit>"@ {
            lemma_begun(traced, m, args, base);
        } else {
            let marked = traced.marked(m.class_name@);
            match traced.initializer(m.class_name@) {
                Some(initializer) => {
                    let prepared = FrameView::Prepared { method: m, args };
                    lemma_pushed(marked, prepared, base);
                    lemma_pushed(
                        marked.pushed(prepared),
                        FrameView::Call { index: initializer, args: Seq::empty() },
                        base,
                    );
                },
                None => lemma_begun(marked, m, args, base),
            }
        }
    }
}

/// The mode behind a method with code.
pub open spec fn behind_code(vm: VmView, f: CodeView, base: nat) -> Mode {
    unwound(vm.stack, base, behind(FrameView::Code(f), mode(vm)))
}

proof fn lemma_ended(vm: VmView, f: CodeView, r: Outcome, base: nat)
    requires
        base <= vm.stack.len(),
    ensures
        mode_at(vm.ended(f, r), base) == behind_code(vm, f, base),
{
}

proof fn lemma_continued(vm: VmView, f: CodeView, stepped: Stepped, base: nat)
    requires
        base <= vm.stack.len(),
    ensures
        mode_at(vm.continued(f, stepped), base) == behind_code(vm, f, base),
{
    match stepped {
        Ok(activation) => lemma_pushed(
            vm,
            FrameView::Code(CodeView { activation, phase: Phase::Ready, ..f }),
            base,
        ),
        Err(e) => lemma_ended(vm, f, Err(e), base),
    }
}

proof fn lemma_loaded(vm: VmView, f: CodeView, opcode: u8, instruction: u16, base: nat)
    requires
        base <= vm.stack.len(),
    ensures
        mode_at(vm.loaded(f, opcode, instruction), base) == behind_code(vm, f, base),
{
    reveal(VmView::loaded);
    lemma_continued(
        vm,
        f,
        calls::load_static_step(
            &vm.dex,
            f.words,
            vm.world,
            vm.statics,
            f.activation,
            opcode,
            instruction,
        ),
        base,
    );
}

proof fn lemma_waiting(vm: VmView, f: CodeView, waiting: CodeView, call: FrameView, base: nat)
    requires
        base <= vm.stack.len(),
        waiting.restore == f.restore,
        call is Call,
    ensures
        mode_at(vm.pushed(FrameView::Code(waiting)).pushed(call), base) == behind_code(vm, f, base),
{
    lemma_pushed(vm, FrameView::Code(waiting), base);
    lemma_pushed(vm.pushed(FrameView::Code(waiting)), call, base);
}

proof fn lemma_executed(vm: VmView, f: CodeView, opcode: u8, instruction: u16, base: nat)
    requires
        base <= vm.stack.len(),
    ensures
        mode_at(vm.executed(f, opcode, instruction), base) == behind_code(vm, f, base),
{
    reveal(VmView::executed);
    if execute::ends_method(opcode) {
    } else if execute::loads_static(opcode) {
        reveal(VmView::fetched);
        match calls::static_class(&vm.dex, f.words, f.activation, opcode) {
            Err(_) => {},
            Ok(None) => lemma_loaded(vm, f, opcode, instruction, base),
            Ok(Some(class_name)) => {
                let marked = vm.marked(class_name);
                lemma_loaded(marked, f, opcode, instruction, base);
                match vm.initializer(class_name) {
                    Some(index) => lemma_waiting(
                        marked,
                        f,
                        CodeView { phase: Phase::AwaitingClass, ..f },
                        FrameView::Call { index, args: Seq::empty() },
                        base,
                    ),
                    None => {},
                }
            },
        }
    } else if execute::stores_static(opcode) {
        let (statics, stepped) = calls::store_static_step(
            &vm.dex,
            f.words,
            vm.statics,
            f.activation,
            opcode,
            instruction,
        );
        lemma_continued(VmView { statics, ..vm }, f, stepped, base);
    } else if execute::invokes(opcode) {
        reveal(VmView::invoked);
        match calls::invocation(
            &vm.dex,
            f.words,
            vm.world,
            f.activation,
            opcode,
            instruction,
        ) {
            Err(_) => {},
            Ok((index, args)) => lemma_waiting(
                vm,
                f,
                CodeView {
                    activation: code::skip(f.activation, 3),
                    phase: Phase::AwaitingResult,
                    ..f
                },
                FrameView::Call { index, args },
                base,
            ),
        }
    } else {
        growth::an_instruction_loses_nothing(
            &vm.dex,
            f.words,
            vm.world,
            f.activation,
            opcode,
            instruction,
        );
        let (world, stepped) = execute::plain_step(
            &vm.dex,
            f.words,
            vm.world,
            f.activation,
            opcode,
            instruction,
        );
        lemma_continued(VmView { world, ..vm }, f, stepped, base);
    }
}

proof fn lemma_code_step(vm: VmView, f: CodeView, base: nat)
    requires
        base <= vm.stack.len(),
    ensures
        mode_at(vm.code_step(f), base) == behind_code(vm, f, base),
{
    reveal(VmView::code_step);
    let pc = f.activation.pc;
    if pc < f.words.len() {
        let instruction = f.words[pc as int];
        let opcode = (instruction % 0x100) as u8;
        if f.phase == Phase::Loading {
            lemma_loaded(vm, f, opcode, instruction, base);
        } else if !vm.exhausted() {
            lemma_executed(
                vm.counted().traced_instruction(f, opcode),
                f,
                opcode,
                instruction,
                base,
            );
        }
    }
}

proof fn lemma_host_step(vm: VmView, h: HostView, base: nat)
    requires
        base <= vm.stack.len(),
    ensures
        mode_at(vm.host_step(h), base) == mode_at(vm, base),
{
    reveal(VmView::host_step);
    growth::the_framework_loses_nothing(vm.world, h.class_name, h.method, h.args, h.answers);
    growth::the_game_library_loses_nothing(
        vm.world,
        vm.executed_steps,
        h.class_name,
        h.method,
        h.args,
        h.answers,
    );
    match vm.callback(h) {
        Some(c) => match calls::method_of_object(&vm.dex, vm.world, c.object, c.method, true) {
            Err(_) => {},
            Ok(index) => {
                let waiting = FrameView::Callback { value: c.value, place: h.place };
                lemma_pushed(vm, waiting, base);
                lemma_pushed(
                    vm.pushed(waiting),
                    FrameView::Call { index, args: seq![ValueView::Object(c.object)] + c.args },
                    base,
                );
            },
        },
        None => {
            lemma_pushed(vm, FrameView::Host(h), base);
        },
    }
}

proof fn lemma_received(vm: VmView, frame: FrameView, r: Outcome, base: nat)
    requires
        base <= vm.stack.len(),
    ensures
        mode_at(vm.received(frame, r), base) == unwound(vm.stack, base, behind(frame, mode(vm))),
{
    reveal(VmView::received);
    match frame {
        FrameView::Prepared { method, args } => lemma_begun(vm, method, args, base),
        FrameView::Code(f) => {
            let after = vm.received(frame, r);
            if after.stack.len() > vm.stack.len() {
                assert(after.stack.drop_last() =~= vm.stack);
            }
        },
        _ => {},
    }
}

/// No step changes the mode that a machine comes back to once the frames above some lowest ones
/// have ended.
pub proof fn a_step_keeps_the_mode_at(vm: VmView, base: nat)
    requires
        base < vm.stack.len(),
    ensures
        mode_at(vm.next(), base) == mode_at(vm, base),
{
    let below = vm.popped();
    match vm.status {
        StatusView::Running => match vm.stack.last() {
            FrameView::Call { index, args } => lemma_called(below, index, args, base),
            FrameView::Prepared { method, args } => lemma_begun(below, method, args, base),
            FrameView::Code(f) => lemma_code_step(below, f, base),
            FrameView::Host(h) => lemma_host_step(below, h, base),
            _ => {},
        },
        StatusView::Returning(r) => lemma_received(below, vm.stack.last(), r, base),
        _ => {},
    }
}

/// No step changes the mode that a machine comes back to.
pub proof fn a_step_keeps_the_final_mode(vm: VmView)
    ensures
        final_mode(vm.next()) == final_mode(vm),
{
    if vm.stack.len() > 0 {
        a_step_keeps_the_mode_at(vm, 0);
    }
}

/// Nor does a run.
pub proof fn a_run_keeps_the_final_mode(vm: VmView)
    ensures
        final_mode(vm.ran()) == final_mode(vm),
    decreases run::budget(vm), run::weight(vm),
{
    if vm.active() {
        run::a_step_makes_progress(vm);
        a_step_keeps_the_final_mode(vm);
        a_run_keeps_the_final_mode(vm.next());
    }
}

/// A call changes nothing of the mode that a machine comes back to, whatever it renders. Once it
/// is done on an empty stack, the mode is as it was.
pub proof fn a_call_restores_the_mode(vm: VmView, index: nat, args: Seq<ValueView>)
    ensures
        final_mode(vm.requested(index, args).0) == final_mode(vm),
        vm.stack.len() == 0 && vm.requested(index, args).1 is Some ==> mode(
            vm.requested(index, args).0,
        ) == mode(vm),
{
    let start = vm.pushed(FrameView::Call { index, args });
    lemma_pushed(vm, FrameView::Call { index, args }, 0);
    a_run_keeps_the_final_mode(start);
    vm::a_machine_that_is_done_is_empty(start);
}

/// An answer changes nothing of the mode that a machine comes back to, nor does what follows it.
pub proof fn an_answer_keeps_the_final_mode(vm: VmView, answer: AnswerView)
    ensures
        vm.answered(answer) matches Some(after) ==> final_mode(after) == final_mode(vm)
            && final_mode(after.settled().0) == final_mode(vm),
{
    match vm.answered(answer) {
        None => {},
        Some(after) => {
            assert(after.stack.drop_last() =~= vm.stack.drop_last());
            a_run_keeps_the_final_mode(after);
        },
    }
}

/// Once a frame is rendered, frames are rendered no more.
pub proof fn a_rendered_frame_ends_the_rendering(vm: VmView, object: ObjectId, name: Seq<char>)
    requires
        vm.idle(),
        calls::method_of_object(&vm.dex, vm.world, object, name, false) is Ok,
    ensures
        vm.rendered(object, name).1 is Some ==> !vm.rendered(object, name).0.world.frame_mode,
{
    let on_canvas = name == "onDraw"@;
    let drawn = if on_canvas {
        vm.world.with_object(crate::world::instance_of("Landroid/graphics/Canvas;"@))
    } else {
        vm.world
    };
    let args = if on_canvas {
        seq![ValueView::Object(object), ValueView::Object(vm.world.fresh())]
    } else {
        seq![ValueView::Object(object)]
    };
    let prepared = VmView {
        world: WorldView {
            frame_mode: true,
            canvas_stack: Seq::empty(),
            canvas_state: crate::world::plain_canvas(),
            ..drawn
        },
        frame_steps: 0,
        frame_aborted: false,
        ..vm
    };
    let index = calls::method_of_object(&vm.dex, vm.world, object, name, false)->Ok_0;
    let rendering = prepared.pushed(FrameView::Render);
    let start = rendering.pushed(FrameView::Call { index, args });
    lemma_pushed(prepared, FrameView::Render, 0);
    lemma_pushed(rendering, FrameView::Call { index, args }, 0);
    a_run_keeps_the_final_mode(start);
    vm::a_machine_that_is_done_is_empty(start);
}

} // verus!
