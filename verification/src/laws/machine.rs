//! What every step of a machine keeps.

use vstd::prelude::*;

use crate::code::ActivationView;
use crate::dex::Method;
use crate::error;
use crate::error::{ErrorView, Outcome};
use crate::frames;
use crate::frames::{CodeView, FrameView, HostView, Phase, StatusView};
use crate::host;
use crate::host::AnswerView;
use crate::machine::VmView;
use crate::run;
use crate::value::ValueView;

verus! {

// The stack.

/// Whether a stack has kept the frames below the uppermost one of another.
pub open spec fn rests_on(below: Seq<FrameView>, stack: Seq<FrameView>) -> bool {
    &&& below.len() <= stack.len()
    &&& stack.take(below.len() as int) == below
}

proof fn lemma_pushed_rests(below: Seq<FrameView>, vm: VmView, frame: FrameView)
    requires
        rests_on(below, vm.stack),
    ensures
        rests_on(below, vm.pushed(frame).stack),
{
    assert(vm.pushed(frame).stack.take(below.len() as int) =~= vm.stack.take(below.len() as int));
}

proof fn lemma_itself(vm: VmView)
    ensures
        rests_on(vm.stack, vm.stack),
{
    assert(vm.stack.take(vm.stack.len() as int) =~= vm.stack);
}

proof fn lemma_begun_rests(vm: VmView, m: Method, args: Seq<ValueView>)
    ensures
        rests_on(vm.stack, vm.begun(m, args).stack),
{
    reveal(VmView::begun);
    reveal(VmView::entered);
    lemma_itself(vm);
    let after = vm.begun(m, args);
    if after.stack.len() > vm.stack.len() {
        assert(after.stack =~= vm.stack.push(after.stack.last()));
        lemma_pushed_rests(vm.stack, vm, after.stack.last());
    }
}

proof fn lemma_called_rests(vm: VmView, index: nat, args: Seq<ValueView>)
    ensures
        rests_on(vm.stack, vm.called(index, args).stack),
{
    reveal(VmView::called);
    lemma_itself(vm);
    if frames::depth(vm.stack) < vm.config.max_call_depth && index < vm.dex.methods.len() {
        let m = vm.dex.methods[index as int];
        let traced = vm.traced_call(m, args);
        if m.name@ == "<clinit>"@ {
            lemma_begun_rests(traced, m, args);
        } else {
            let marked = traced.marked(m.class_name@);
            match traced.initializer(m.class_name@) {
                Some(initializer) => {
                    let prepared = FrameView::Prepared { method: m, args };
                    lemma_pushed_rests(vm.stack, marked, prepared);
                    lemma_pushed_rests(
                        vm.stack,
                        marked.pushed(prepared),
                        FrameView::Call { index: initializer, args: Seq::empty() },
                    );
                },
                None => lemma_begun_rests(marked, m, args),
            }
        }
    }
}

proof fn lemma_code_rests(vm: VmView, f: CodeView)
    ensures
        rests_on(vm.stack, vm.code_step(f).stack),
{
    reveal(VmView::code_step);
    reveal(VmView::executed);
    reveal(VmView::fetched);
    reveal(VmView::loaded);
    reveal(VmView::invoked);
    lemma_itself(vm);
    let after = vm.code_step(f).stack;
    let n = vm.stack.len() as int;
    if after.len() == n + 1 {
        assert(after =~= vm.stack.push(after[n]));
        assert(after.take(n) =~= vm.stack);
    } else if after.len() == n + 2 {
        assert(after =~= vm.stack.push(after[n]).push(after[n + 1]));
        assert(after.take(n) =~= vm.stack);
    }
}

proof fn lemma_host_rests(vm: VmView, h: HostView)
    ensures
        rests_on(vm.stack, vm.host_step(h).stack),
{
    reveal(VmView::host_step);
    lemma_itself(vm);
    let after = vm.host_step(h).stack;
    let n = vm.stack.len() as int;
    if after.len() == n + 1 {
        assert(after =~= vm.stack.push(after[n]));
        assert(after.take(n) =~= vm.stack);
    } else if after.len() == n + 2 {
        assert(after =~= vm.stack.push(after[n]).push(after[n + 1]));
        assert(after.take(n) =~= vm.stack);
    }
}

proof fn lemma_received_rests(vm: VmView, frame: FrameView, r: Outcome)
    ensures
        rests_on(vm.stack, vm.received(frame, r).stack),
{
    reveal(VmView::received);
    lemma_itself(vm);
    match frame {
        FrameView::Prepared { method, args } => lemma_begun_rests(vm, method, args),
        FrameView::Code(f) => {
            let after = vm.received(frame, r);
            if after.stack.len() > vm.stack.len() {
                assert(after.stack =~= vm.stack.push(after.stack.last()));
                lemma_pushed_rests(vm.stack, vm, after.stack.last());
            }
        },
        _ => {},
    }
}

/// A step touches the uppermost frame alone: the frames below it stay as they are.
pub proof fn a_step_keeps_the_frames_below(vm: VmView)
    requires
        vm.stack.len() > 0,
    ensures
        rests_on(vm.stack.drop_last(), vm.next().stack),
{
    let below = vm.popped();
    assert(vm.stack.take(vm.stack.len() - 1) =~= vm.stack.drop_last());
    match vm.status {
        StatusView::Running => match vm.stack.last() {
            FrameView::Call { index, args } => lemma_called_rests(below, index, args),
            FrameView::Prepared { method, args } => lemma_begun_rests(below, method, args),
            FrameView::Code(f) => lemma_code_rests(below, f),
            FrameView::Host(h) => lemma_host_rests(below, h),
            _ => {},
        },
        StatusView::Returning(r) => lemma_received_rests(below, vm.stack.last(), r),
        _ => {},
    }
}

// The depth of calls.

/// Whether methods with code are nested no deeper than a limit, those included that begin once
/// their class is initialised.
pub open spec fn nested(stack: Seq<FrameView>, limit: nat) -> bool
    decreases stack.len(),
{
    stack.len() == 0 || {
        &&& nested(stack.drop_last(), limit)
        &&& stack.last() is Code ==> frames::depth(stack) <= limit
        &&& stack.last() is Prepared ==> frames::depth(stack) < limit
    }
}

proof fn lemma_nested_pushed(stack: Seq<FrameView>, frame: FrameView, limit: nat)
    requires
        nested(stack, limit),
        frame is Code || frame is Prepared ==> frames::depth(stack) < limit,
    ensures
        nested(stack.push(frame), limit),
        frames::depth(stack.push(frame)) == frames::depth(stack) + (if frame is Code {
            1nat
        } else {
            0
        }),
{
    assert(stack.push(frame).drop_last() =~= stack);
}

proof fn lemma_nested_begun(vm: VmView, m: Method, args: Seq<ValueView>)
    requires
        nested(vm.stack, vm.config.max_call_depth as nat),
        frames::depth(vm.stack) < vm.config.max_call_depth,
    ensures
        nested(vm.begun(m, args).stack, vm.config.max_call_depth as nat),
{
    reveal(VmView::begun);
    reveal(VmView::entered);
    let after = vm.begun(m, args).stack;
    if after.len() > vm.stack.len() {
        assert(after =~= vm.stack.push(after.last()));
        lemma_nested_pushed(vm.stack, after.last(), vm.config.max_call_depth as nat);
    }
}

proof fn lemma_nested_called(vm: VmView, index: nat, args: Seq<ValueView>)
    requires
        nested(vm.stack, vm.config.max_call_depth as nat),
    ensures
        nested(vm.called(index, args).stack, vm.config.max_call_depth as nat),
{
    reveal(VmView::called);
    if frames::depth(vm.stack) < vm.config.max_call_depth && index < vm.dex.methods.len() {
        let limit = vm.config.max_call_depth as nat;
        let m = vm.dex.methods[index as int];
        let traced = vm.traced_call(m, args);
        if m.name@ == "<clinit>"@ {
            lemma_nested_begun(traced, m, args);
        } else {
            let marked = traced.marked(m.class_name@);
            match traced.initializer(m.class_name@) {
                Some(initializer) => {
                    let prepared = FrameView::Prepared { method: m, args };
                    lemma_nested_pushed(vm.stack, prepared, limit);
                    lemma_nested_pushed(
                        vm.stack.push(prepared),
                        FrameView::Call { index: initializer, args: Seq::empty() },
                        limit,
                    );
                },
                None => lemma_nested_begun(marked, m, args),
            }
        }
    }
}

proof fn lemma_nested_code(vm: VmView, f: CodeView)
    requires
        nested(vm.stack, vm.config.max_call_depth as nat),
        frames::depth(vm.stack) < vm.config.max_call_depth,
    ensures
        nested(vm.code_step(f).stack, vm.config.max_call_depth as nat),
{
    reveal(VmView::code_step);
    reveal(VmView::executed);
    reveal(VmView::fetched);
    reveal(VmView::loaded);
    reveal(VmView::invoked);
    let limit = vm.config.max_call_depth as nat;
    let after = vm.code_step(f).stack;
    let n = vm.stack.len() as int;
    if after.len() == n + 1 {
        assert(after =~= vm.stack.push(after[n]));
        lemma_nested_pushed(vm.stack, after[n], limit);
    } else if after.len() == n + 2 {
        assert(after =~= vm.stack.push(after[n]).push(after[n + 1]));
        lemma_nested_pushed(vm.stack, after[n], limit);
        assert(after[n + 1] is Call);
        lemma_nested_pushed(vm.stack.push(after[n]), after[n + 1], limit);
    }
}

proof fn lemma_nested_host(vm: VmView, h: HostView)
    requires
        nested(vm.stack, vm.config.max_call_depth as nat),
    ensures
        nested(vm.host_step(h).stack, vm.config.max_call_depth as nat),
{
    reveal(VmView::host_step);
    let limit = vm.config.max_call_depth as nat;
    let after = vm.host_step(h).stack;
    let n = vm.stack.len() as int;
    if after.len() == n + 1 {
        assert(after =~= vm.stack.push(after[n]));
        lemma_nested_pushed(vm.stack, after[n], limit);
    } else if after.len() == n + 2 {
        assert(after =~= vm.stack.push(after[n]).push(after[n + 1]));
        lemma_nested_pushed(vm.stack, after[n], limit);
        lemma_nested_pushed(vm.stack.push(after[n]), after[n + 1], limit);
    }
}

proof fn lemma_nested_received(vm: VmView, frame: FrameView, r: Outcome)
    requires
        nested(vm.stack, vm.config.max_call_depth as nat),
        frame is Code || frame is Prepared ==> frames::depth(vm.stack) < vm.config.max_call_depth,
    ensures
        nested(vm.received(frame, r).stack, vm.config.max_call_depth as nat),
{
    reveal(VmView::received);
    match frame {
        FrameView::Prepared { method, args } => lemma_nested_begun(vm, method, args),
        FrameView::Code(f) => {
            let after = vm.received(frame, r).stack;
            if after.len() > vm.stack.len() {
                assert(after =~= vm.stack.push(after.last()));
                lemma_nested_pushed(vm.stack, after.last(), vm.config.max_call_depth as nat);
            }
        },
        _ => {},
    }
}

/// A step keeps to the limit on the depth of calls.
pub proof fn a_step_keeps_to_the_call_depth(vm: VmView)
    requires
        nested(vm.stack, vm.config.max_call_depth as nat),
    ensures
        nested(vm.next().stack, vm.config.max_call_depth as nat),
{
    if vm.stack.len() > 0 {
        let below = vm.popped();
        match vm.status {
            StatusView::Running => match vm.stack.last() {
                FrameView::Call { index, args } => lemma_nested_called(below, index, args),
                FrameView::Prepared { method, args } => lemma_nested_begun(below, method, args),
                FrameView::Code(f) => lemma_nested_code(below, f),
                FrameView::Host(h) => lemma_nested_host(below, h),
                _ => {},
            },
            StatusView::Returning(r) => lemma_nested_received(below, vm.stack.last(), r),
            _ => {},
        }
    }
}

/// Methods with code are never nested deeper than is allowed, however long a machine runs.
pub proof fn a_run_keeps_to_the_call_depth(vm: VmView)
    requires
        nested(vm.stack, vm.config.max_call_depth as nat),
    ensures
        nested(vm.ran().stack, vm.config.max_call_depth as nat),
        frames::depth(vm.ran().stack) <= vm.config.max_call_depth,
    decreases run::budget(vm), run::weight(vm),
{
    if vm.active() {
        run::a_step_makes_progress(vm);
        a_step_keeps_to_the_call_depth(vm);
        a_run_keeps_to_the_call_depth(vm.next());
    } else {
        lemma_nested_is_bounded(vm.stack, vm.config.max_call_depth as nat);
    }
}

proof fn lemma_nested_is_bounded(stack: Seq<FrameView>, limit: nat)
    requires
        nested(stack, limit),
    ensures
        frames::depth(stack) <= limit,
    decreases stack.len(),
{
    if stack.len() > 0 {
        lemma_nested_is_bounded(stack.drop_last(), limit);
    }
}

// Calls.

/// A call leaves its caller as it was, behind the call's instruction, until it returns. Then
/// the caller goes on with the result.
pub proof fn a_caller_gets_the_result(vm: VmView, f: CodeView, v: ValueView)
    requires
        vm.stack.len() > 0,
        vm.stack.last() == FrameView::Code(f),
        f.phase == Phase::AwaitingResult,
        vm.status == StatusView::Returning(Ok(v)),
    ensures
        vm.next() == vm.popped().pushed(
            FrameView::Code(
                CodeView {
                    activation: ActivationView { result: v, ..f.activation },
                    phase: Phase::Ready,
                    ..f
                },
            ),
        ),
{
    reveal(VmView::received);
}

/// A call that fails ends its caller with the same error, which then names the caller too.
pub proof fn a_caller_fails_with_its_call(vm: VmView, f: CodeView, e: ErrorView)
    requires
        vm.stack.len() > 0,
        vm.stack.last() == FrameView::Code(f),
        vm.status == StatusView::Returning(Err(e)),
    ensures
        vm.next().stack == vm.stack.drop_last(),
        vm.next().status == StatusView::Returning(
            match f.place {
                Some((class_name, method)) => Err(
                    error::noted(e, " in "@ + class_name + "->"@ + method),
                ),
                None => Err(e),
            },
        ),
{
    reveal(VmView::received);
}

// Questions.

/// A machine that asks has done nothing yet: it is as it was, but for asking.
pub proof fn asking_changes_nothing(vm: VmView)
    requires
        vm.active(),
        vm.next().status is Asking,
    ensures
        vm.next() == (VmView { status: vm.next().status, ..vm }),
        vm.stack.len() > 0,
        vm.stack.last() matches FrameView::Host(h) && vm.question(h) matches Some(q) && vm.next().status
            == StatusView::Asking(q),
{
    if vm.stack.len() > 0 {
        let below = vm.popped();
        match vm.status {
            StatusView::Running => match vm.stack.last() {
                FrameView::Call { index, args } => {
                    reveal(VmView::called);
                    reveal(VmView::begun);
                    reveal(VmView::entered);
                },
                FrameView::Prepared { method, args } => {
                    reveal(VmView::begun);
                    reveal(VmView::entered);
                },
                FrameView::Code(f) => {
                    reveal(VmView::code_step);
                    reveal(VmView::executed);
                    reveal(VmView::fetched);
                    reveal(VmView::loaded);
                    reveal(VmView::invoked);
                },
                FrameView::Host(h) => {
                    reveal(VmView::host_step);
                    assert(vm.next().stack =~= vm.stack);
                    assert(below.question(h) == vm.question(h));
                },
                _ => {},
            },
            StatusView::Returning(r) => {
                reveal(VmView::received);
                reveal(VmView::begun);
                reveal(VmView::entered);
            },
            _ => {},
        }
    }
}

/// An answer is added to those that the asking method has; nothing else changes.
pub proof fn an_answer_is_added(vm: VmView, answer: AnswerView)
    requires
        vm.answered(answer) is Some,
    ensures
        vm.status matches StatusView::Asking(q) && host::answers(q, answer),
        vm.stack.len() > 0,
        vm.stack.last() matches FrameView::Host(h) && vm.answered(answer) == Some(
            VmView {
                stack: vm.stack.drop_last().push(
                    FrameView::Host(HostView { answers: h.answers.push(answer), ..h }),
                ),
                status: StatusView::Running,
                ..vm
            },
        ),
{
}

} // verus!
