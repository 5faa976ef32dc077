//! Running a machine until it is done or asks: why it always comes to that.

use vstd::prelude::*;

use crate::code::Stepped;
use crate::dex;
use crate::dex::{DexFile, Method, Wanted};
use crate::error::{Outcome, VmError};
use crate::frames;
use crate::frames::{CodeView, FrameView, HostView, Phase, Status, StatusView};
use crate::framework;
use crate::interp::calls;
use crate::machine::{Vm, VmView};
use crate::value::{Value, ValueView};
use crate::world::WorldView;

verus! {

// The measure. An instruction uses up some of the budget. Everything else makes the stack
// lighter.

/// How many instructions may still be executed.
pub open spec fn budget(vm: VmView) -> nat {
    left(vm.config.max_steps, vm.frame_steps) + left(vm.config.max_steps, vm.executed_steps)
}

pub open spec fn left(limit: usize, used: usize) -> nat {
    if used < limit {
        (limit - used) as nat
    } else {
        0
    }
}

/// The methods of the framework that call a method of an object.
pub open spec fn calls_back(method: Seq<char>) -> bool {
    method == "schedule"@ || method == "scheduleAtFixedRate"@ || method == "sendMessage"@
}

pub open spec fn host_weight(method: Seq<char>) -> nat {
    if calls_back(method) {
        20
    } else {
        2
    }
}

pub open spec fn call_weight(dex: DexFile, index: nat) -> nat {
    if index >= dex.methods.len() {
        4
    } else if dex.methods[index as int].name@ == "<clinit>"@ {
        4
    } else if calls_back(dex.methods[index as int].name@) {
        30
    } else {
        10
    }
}

pub open spec fn frame_weight(dex: DexFile, frame: FrameView) -> nat {
    match frame {
        FrameView::Call { index, .. } => call_weight(dex, index),
        FrameView::Prepared { method, .. } => host_weight(method.name@) + 3,
        FrameView::Code(f) => match f.phase {
            Phase::Ready => 1,
            Phase::Loading => 2,
            Phase::AwaitingResult => 4,
            Phase::AwaitingClass => 4,
        },
        FrameView::Host(h) => host_weight(h.method),
        FrameView::Callback { .. } => 2,
        FrameView::Render => 1,
    }
}

pub open spec fn stack_weight(dex: DexFile, stack: Seq<FrameView>) -> nat
    decreases stack.len(),
{
    if stack.len() == 0 {
        0
    } else {
        stack_weight(dex, stack.drop_last()) + frame_weight(dex, stack.last())
    }
}

pub open spec fn weight(vm: VmView) -> nat {
    stack_weight(vm.dex, vm.stack) + match vm.status {
        StatusView::Running => 2nat,
        StatusView::Returning(_) => 1,
        _ => 0,
    }
}

pub open spec fn same_limits(a: VmView, b: VmView) -> bool {
    &&& a.dex == b.dex
    &&& a.config == b.config
    &&& a.executed_steps == b.executed_steps
    &&& a.frame_steps == b.frame_steps
}

proof fn lemma_pushed(vm: VmView, frame: FrameView)
    ensures
        same_limits(vm, vm.pushed(frame)),
        weight(vm.pushed(frame)) == stack_weight(vm.dex, vm.stack) + frame_weight(vm.dex, frame)
            + 2,
{
    assert(vm.stack.push(frame).drop_last() =~= vm.stack);
}

proof fn lemma_first(dex: &DexFile, from: nat, wanted: Wanted)
    ensures
        dex::first_from(dex.methods@, from, wanted) matches Some(i) ==> i < dex.methods.len()
            && dex::fits(dex.methods[i as int], wanted),
    decreases dex.methods.len() - from,
{
    if from < dex.methods.len() && !dex::fits(dex.methods[from as int], wanted) {
        lemma_first(dex, from + 1, wanted);
    }
}

proof fn lemma_inherited(dex: &DexFile, wanted: Wanted, fuel: nat)
    ensures
        dex.inherited(wanted, fuel) matches Some(i) ==> i < dex.methods.len()
            && dex.methods[i as int].name@ == wanted.name,
    decreases fuel,
{
    if fuel > 0 {
        lemma_first(dex, 0, wanted);
        match dex.parent(wanted.class_name) {
            Some(parent) => lemma_inherited(
                dex,
                Wanted { class_name: parent, ..wanted },
                (fuel - 1) as nat,
            ),
            None => {},
        }
    }
}

proof fn lemma_called_back(dex: &DexFile, w: WorldView, h: HostView)
    ensures
        framework::dispatch::callback(h.class_name, h.method, h.args) matches Some(c) ==> {
            &&& calls_back(h.method)
            &&& calls::method_of_object(dex, w, c.object, c.method, true) matches Ok(i) ==> i
                < dex.methods.len() && !calls_back(dex.methods[i as int].name@)
        },
{
    match framework::dispatch::callback(h.class_name, h.method, h.args) {
        None => {},
        Some(c) => {
            match w.class_of(c.object) {
                None => {},
                Some(class_name) => {
                    let wanted = Wanted {
                        class_name,
                        name: c.method,
                        prototype: None,
                        coded: true,
                    };
                    lemma_inherited(dex, wanted, dex.height());
                    lemma_first(dex, 0, Wanted { coded: false, ..wanted });
                },
            }
            reveal_strlit("run");
            reveal_strlit("handleMessage");
            reveal_strlit("schedule");
            reveal_strlit("scheduleAtFixedRate");
            reveal_strlit("sendMessage");
            assert("run"@.len() == 3 && "handleMessage"@.len() == 13);
            assert("schedule"@.len() == 8 && "scheduleAtFixedRate"@.len() == 19
                && "sendMessage"@.len() == 11);
        },
    }
}

proof fn lemma_ended(vm: VmView, f: CodeView, r: Outcome)
    ensures
        same_limits(vm, vm.ended(f, r)),
        weight(vm.ended(f, r)) == stack_weight(vm.dex, vm.stack) + 1,
{
}

proof fn lemma_continued(vm: VmView, f: CodeView, stepped: Stepped)
    ensures
        same_limits(vm, vm.continued(f, stepped)),
        weight(vm.continued(f, stepped)) <= stack_weight(vm.dex, vm.stack) + 3,
{
    match stepped {
        Ok(activation) => lemma_pushed(
            vm,
            FrameView::Code(CodeView { activation, phase: Phase::Ready, ..f }),
        ),
        Err(e) => lemma_ended(vm, f, Err(e)),
    }
}

proof fn lemma_entered(vm: VmView, m: Method, args: Seq<ValueView>, placed: bool)
    ensures
        same_limits(vm, vm.entered(m, args, placed)),
        weight(vm.entered(m, args, placed)) <= stack_weight(vm.dex, vm.stack) + 3,
{
    reveal(VmView::entered);
    let after = vm.entered(m, args, placed);
    if after.stack.len() > vm.stack.len() {
        assert(after.stack.drop_last() =~= vm.stack);
    }
}

proof fn lemma_begun(vm: VmView, m: Method, args: Seq<ValueView>)
    ensures
        same_limits(vm, vm.begun(m, args)),
        weight(vm.begun(m, args)) <= stack_weight(vm.dex, vm.stack) + host_weight(m.name@) + 2,
{
    reveal(VmView::begun);
    lemma_entered(vm, m, args, true);
    lemma_entered(vm, m, args, false);
    let after = vm.begun(m, args);
    if after.stack.len() > vm.stack.len() {
        if after.stack.last() is Host {
            lemma_pushed(vm, after.stack.last());
        }
    }
}

proof fn lemma_initializer(vm: VmView, class_name: Seq<char>)
    ensures
        vm.initializer(class_name) matches Some(i) ==> call_weight(vm.dex, i) == 4,
{
    lemma_first(
        &vm.dex,
        0,
        Wanted { class_name, name: "<clinit>"@, prototype: None, coded: false },
    );
}

proof fn lemma_called(vm: VmView, index: nat, args: Seq<ValueView>)
    ensures
        same_limits(vm, vm.called(index, args)),
        weight(vm.called(index, args)) < stack_weight(vm.dex, vm.stack) + call_weight(
            vm.dex,
            index,
        ) + 2,
{
    reveal(VmView::called);
    if frames::depth(vm.stack) < vm.config.max_call_depth && index < vm.dex.methods.len() {
        let m = vm.dex.methods[index as int];
        let traced = vm.traced_call(m, args);
        if m.name@ == "<clinit>"@ {
            lemma_begun(traced, m, args);
            reveal_strlit("<clinit>");
            reveal_strlit("schedule");
            reveal_strlit("scheduleAtFixedRate");
            reveal_strlit("sendMessage");
            assert("<clinit>"@[0] == '<' && "schedule"@[0] == 's');
            assert("<clinit>"@.len() == 8 && "scheduleAtFixedRate"@.len() == 19
                && "sendMessage"@.len() == 11);
        } else {
            let marked = traced.marked(m.class_name@);
            match traced.initializer(m.class_name@) {
                Some(initializer) => {
                    lemma_initializer(traced, m.class_name@);
                    let prepared = FrameView::Prepared { method: m, args };
                    lemma_pushed(marked, prepared);
                    lemma_pushed(
                        marked.pushed(prepared),
                        FrameView::Call { index: initializer, args: Seq::empty() },
                    );
                },
                None => lemma_begun(marked, m, args),
            }
        }
    }
}

proof fn lemma_loaded(vm: VmView, f: CodeView, opcode: u8, instruction: u16)
    ensures
        same_limits(vm, vm.loaded(f, opcode, instruction)),
        weight(vm.loaded(f, opcode, instruction)) <= stack_weight(vm.dex, vm.stack) + 3,
{
    reveal(VmView::loaded);
    let stepped = calls::load_static_step(
        &vm.dex,
        f.words,
        vm.world,
        vm.statics,
        f.activation,
        opcode,
        instruction,
    );
    lemma_continued(vm, f, stepped);
}

proof fn lemma_executed(vm: VmView, f: CodeView, opcode: u8, instruction: u16)
    ensures
        same_limits(vm, vm.executed(f, opcode, instruction)),
{
    reveal(VmView::executed);
    reveal(VmView::fetched);
    reveal(VmView::loaded);
    reveal(VmView::invoked);
}

proof fn lemma_code_step(vm: VmView, f: CodeView)
    ensures
        budget(vm.code_step(f)) <= budget(vm),
        budget(vm.code_step(f)) < budget(vm) || weight(vm.code_step(f)) < stack_weight(
            vm.dex,
            vm.stack,
        ) + frame_weight(vm.dex, FrameView::Code(f)) + 2,
        vm.code_step(f).dex == vm.dex,
        vm.code_step(f).config == vm.config,
{
    reveal(VmView::code_step);
    let pc = f.activation.pc;
    if pc >= f.words.len() {
    } else {
        let instruction = f.words[pc as int];
        let opcode = (instruction % 0x100) as u8;
        if f.phase == Phase::Loading {
            lemma_loaded(vm, f, opcode, instruction);
        } else if !vm.exhausted() {
            lemma_executed(
                vm.counted().traced_instruction(f, opcode),
                f,
                opcode,
                instruction,
            );
        }
    }
}

proof fn lemma_host_step(vm: VmView, h: HostView)
    ensures
        same_limits(vm, vm.host_step(h)),
        weight(vm.host_step(h)) < stack_weight(vm.dex, vm.stack) + host_weight(h.method) + 2,
{
    reveal(VmView::host_step);
    lemma_called_back(&vm.dex, vm.world, h);
    match vm.callback(h) {
        Some(c) => match calls::method_of_object(&vm.dex, vm.world, c.object, c.method, true) {
            Err(_) => {},
            Ok(index) => {
                let waiting = FrameView::Callback { value: c.value, place: h.place };
                lemma_pushed(vm, waiting);
                lemma_pushed(
                    vm.pushed(waiting),
                    FrameView::Call { index, args: seq![ValueView::Object(c.object)] + c.args },
                );
            },
        },
        None => {
            lemma_pushed(vm, FrameView::Host(h));
        },
    }
}

proof fn lemma_received(vm: VmView, frame: FrameView, r: Outcome)
    ensures
        same_limits(vm, vm.received(frame, r)),
        weight(vm.received(frame, r)) < stack_weight(vm.dex, vm.stack) + frame_weight(
            vm.dex,
            frame,
        ) + 1,
{
    reveal(VmView::received);
    match frame {
        FrameView::Prepared { method, args } => {
            lemma_begun(vm, method, args);
        },
        FrameView::Code(f) => {
            let after = vm.received(frame, r);
            if after.stack.len() > vm.stack.len() {
                lemma_pushed(vm, after.stack.last());
            }
        },
        _ => {},
    }
}

/// Every step of an active machine uses up some of the budget, or makes the stack lighter.
pub proof fn a_step_makes_progress(vm: VmView)
    requires
        vm.active(),
    ensures
        budget(vm.next()) <= budget(vm),
        budget(vm.next()) < budget(vm) || weight(vm.next()) < weight(vm),
        vm.next().dex == vm.dex,
        vm.next().config == vm.config,
{
    if vm.stack.len() > 0 {
        let below = vm.popped();
        match vm.status {
            StatusView::Running => match vm.stack.last() {
                FrameView::Call { index, args } => lemma_called(below, index, args),
                FrameView::Prepared { method, args } => lemma_begun(below, method, args),
                FrameView::Code(f) => lemma_code_step(below, f),
                FrameView::Host(h) => lemma_host_step(below, h),
                _ => {},
            },
            StatusView::Returning(r) => lemma_received(below, vm.stack.last(), r),
            _ => {},
        }
    }
}

impl VmView {
    /// The machine when it is done or asks.
    pub open spec fn ran(self) -> VmView
        decreases budget(self), weight(self),
    {
        if self.active() {
            proof {
                a_step_makes_progress(self);
            }
            self.next().ran()
        } else {
            self
        }
    }

    /// Running hands out the result, where there is one.
    pub open spec fn settled(self) -> (VmView, Option<Outcome>) {
        match self.ran().status {
            StatusView::Done(r) => (
                VmView { status: StatusView::Idle, ..self.ran() },
                Some(r),
            ),
            _ => (self.ran(), None),
        }
    }
}

pub open spec fn given(r: Option<Result<Value, VmError>>) -> Option<Outcome> {
    match r {
        Some(r) => Some(crate::error::outcome(r)),
        None => None,
    }
}

impl<'a> Vm<'a> {
    /// Runs until the machine is done, and gives the result, or until it asks.
    pub fn run(&mut self) -> (r: Option<Result<Value, VmError>>)
        ensures
            (final(self)@, given(r)) == old(self)@.settled(),
    {
        let ghost start = self@;
        loop
            invariant
                start.ran() == self@.ran(),
                start == old(self)@,
            ensures
                start.ran() == self@,
                !self@.active(),
                start == old(self)@,
            decreases budget(self@), weight(self@),
        {
            match self.status {
                Status::Running => {},
                Status::Returning(_) => {},
                _ => {
                    break ;
                },
            }
            proof {
                a_step_makes_progress(self@);
            }
            self.step();
        }
        let mut status = Status::Idle;
        std::mem::swap(&mut self.status, &mut status);
        match status {
            Status::Done(r) => Some(r),
            other => {
                self.status = other;
                None
            },
        }
    }
}

} // verus!
