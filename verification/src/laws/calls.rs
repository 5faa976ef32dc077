//! What a call leaves behind once it has returned, on an idle machine and within another call.

use vstd::prelude::*;

use crate::frames::{CodeView, FrameView, StatusView};
use crate::host::AnswerView;
use crate::laws::machine;
use crate::laws::modes;
use crate::laws::running;
use crate::laws::running::{comes_after, restored};
use crate::machine::VmView;
use crate::value::ValueView;

verus! {

// How a machine goes on.

/// Whether a machine goes on as another: by a step, or with an answer to what it asks.
pub open spec fn goes_on(before: VmView, after: VmView) -> bool {
    after == before.next() || exists|answer: AnswerView| #[trigger]
        before.answered(answer) == Some(after)
}

/// Whether a machine goes on from each state of a history to the next one.
pub open spec fn lived(history: Seq<VmView>) -> bool {
    forall|i: int, j: int|
        #![trigger history[i], history[j]]
        0 <= i < history.len() && 0 <= j < history.len() && j == i + 1 ==> goes_on(
            history[i],
            history[j],
        )
}

/// Whether a history is that of one call: it starts where the call is put on the stack, and the
/// call has not returned in any state but perhaps the last.
pub open spec fn calls_once(
    vm: VmView,
    index: nat,
    args: Seq<ValueView>,
    history: Seq<VmView>,
) -> bool {
    &&& history.len() > 0
    &&& history[0] == vm.pushed(FrameView::Call { index, args })
    &&& lived(history)
    &&& forall|i: int|
        0 <= i < history.len() - 1 ==> (#[trigger] history[i]).stack.len() > vm.stack.len()
}

proof fn lemma_after_itself(a: VmView, b: VmView, c: VmView)
    requires
        comes_after(a, b),
        comes_after(b, c),
    ensures
        comes_after(a, c),
{
    assert forall|i: int| 0 <= i < a.world.effects.len() implies #[trigger] c.world.effects[i]
        == a.world.effects[i] by {
        assert(b.world.effects[i] == a.world.effects[i]);
    }
    assert forall|i: int| 0 <= i < a.initialized.len() implies #[trigger] c.initialized[i]
        == a.initialized[i] by {
        assert(b.initialized[i] == a.initialized[i]);
    }
    assert forall|i: int| 0 <= i < a.trace.len() implies #[trigger] c.trace[i] == a.trace[i] by {
        assert(b.trace[i] == a.trace[i]);
    }
}

/// Whatever a machine goes on as, nothing is lost.
proof fn lemma_goes_on(before: VmView, after: VmView)
    requires
        goes_on(before, after),
    ensures
        comes_after(before, after),
{
    if after == before.next() {
        running::a_step_loses_nothing(before);
    }
}

/// A machine that goes on keeps the frames below the uppermost one, and the mode that it comes
/// back to. A frame that is gone has returned.
proof fn lemma_goes_on_above(before: VmView, after: VmView, base: Seq<FrameView>)
    requires
        goes_on(before, after),
        base.len() < before.stack.len(),
        machine::rests_on(base, before.stack),
    ensures
        machine::rests_on(base, after.stack),
        modes::mode_at(after, base.len()) == modes::mode_at(before, base.len()),
        after.stack.len() < before.stack.len() ==> after.status is Returning,
{
    let below = before.stack.drop_last();
    assert(below.take(base.len() as int) =~= base);
    if after == before.next() {
        machine::a_step_keeps_the_frames_below(before);
        modes::a_step_keeps_the_mode_at(before, base.len());
        assert(after.stack.take(base.len() as int) =~= after.stack.take(
            below.len() as int,
        ).take(base.len() as int));
        if after.stack.len() < before.stack.len() {
            lemma_only_a_return_shrinks(before);
        }
    } else {
        let answer = choose|answer: AnswerView| #[trigger] before.answered(answer) == Some(after);
        machine::an_answer_is_added(before, answer);
        assert(after.stack.drop_last() =~= below);
        assert(after.stack.take(base.len() as int) =~= base);
    }
}

proof fn lemma_code_shrinks(vm: VmView, f: CodeView)
    ensures
        vm.code_step(f).stack.len() <= vm.stack.len() ==> vm.code_step(f).status is Returning,
{
    reveal(VmView::code_step);
    reveal(VmView::executed);
    reveal(VmView::fetched);
    reveal(VmView::loaded);
    reveal(VmView::invoked);
}

proof fn lemma_only_a_return_shrinks(vm: VmView)
    requires
        vm.next().stack.len() < vm.stack.len(),
    ensures
        vm.next().status is Returning,
{
    let below = vm.popped();
    match vm.status {
        StatusView::Running => match vm.stack.last() {
            FrameView::Call { .. } => {
                reveal(VmView::called);
                reveal(VmView::begun);
                reveal(VmView::entered);
            },
            FrameView::Prepared { .. } => {
                reveal(VmView::begun);
                reveal(VmView::entered);
            },
            FrameView::Code(f) => lemma_code_shrinks(below, f),
            FrameView::Host(_) => reveal(VmView::host_step),
            _ => {},
        },
        StatusView::Returning(_) => {
            reveal(VmView::received);
            reveal(VmView::begun);
            reveal(VmView::entered);
        },
        _ => {},
    }
}

proof fn lemma_earlier(history: Seq<VmView>)
    requires
        history.len() > 0,
        lived(history),
    ensures
        lived(history.drop_last()),
{
    let earlier = history.drop_last();
    assert forall|i: int, j: int|
        #![trigger earlier[i], earlier[j]]
        0 <= i < earlier.len() && 0 <= j < earlier.len() && j == i + 1 implies goes_on(
        earlier[i],
        earlier[j],
    ) by {
        assert(earlier[i] == history[i] && earlier[j] == history[j]);
    }
}

proof fn lemma_history(vm: VmView, index: nat, args: Seq<ValueView>, history: Seq<VmView>)
    requires
        calls_once(vm, index, args, history),
    ensures
        comes_after(vm, history.last()),
        machine::rests_on(vm.stack, history.last().stack),
        modes::mode_at(history.last(), vm.stack.len()) == modes::mode(vm),
        history.last().stack.len() == vm.stack.len() ==> history.last().status is Returning,
    decreases history.len(),
{
    let n = history.len() as int;
    let base = vm.stack;
    if n == 1 {
        let start = vm.pushed(FrameView::Call { index, args });
        assert(start.stack.take(base.len() as int) =~= base);
        assert(start.stack.drop_last() =~= base);
        assert(modes::unwound(base, base.len(), modes::mode(vm)) == modes::mode(vm));
    } else {
        let earlier = history.drop_last();
        lemma_earlier(history);
        lemma_history(vm, index, args, earlier);
        let before = history[n - 2];
        let after = history[n - 1];
        assert(goes_on(before, after));
        lemma_goes_on(before, after);
        lemma_after_itself(vm, before, after);
        lemma_goes_on_above(before, after, base);
    }
}

/// Once a call has returned, with a value or with an error, the machine is back where the call
/// was made, however deep that was: the frames below are as they were, and so are the depth of
/// calls, the mode of rendering and the configuration. Nothing is lost, and the trace is as it
/// was where it is switched off.
pub proof fn a_call_restores_its_caller(
    vm: VmView,
    index: nat,
    args: Seq<ValueView>,
    history: Seq<VmView>,
)
    requires
        calls_once(vm, index, args, history),
        history.last().stack.len() <= vm.stack.len(),
    ensures
        history.last().status is Returning,
        restored(vm, history.last()),
        comes_after(vm, history.last()),
{
    lemma_history(vm, index, args, history);
    let last = history.last().stack;
    assert(last.take(vm.stack.len() as int) =~= last);
}

/// While a call goes on, what lies below it on the stack is not touched.
pub proof fn a_call_rests_on_its_caller(
    vm: VmView,
    index: nat,
    args: Seq<ValueView>,
    history: Seq<VmView>,
)
    requires
        calls_once(vm, index, args, history),
    ensures
        machine::rests_on(vm.stack, history.last().stack),
        history.last().config == vm.config,
        comes_after(vm, history.last()),
{
    lemma_history(vm, index, args, history);
}

/// Where tracing is off, nothing adds to the trace: no step, no answer and no call, however many
/// there are of them.
pub proof fn nothing_is_traced_where_tracing_is_off(history: Seq<VmView>)
    requires
        history.len() > 0,
        lived(history),
        !history[0].config.trace_registers,
    ensures
        history.last().trace == history[0].trace,
        !history.last().config.trace_registers,
{
    a_history_loses_nothing(history);
}

/// However a machine goes on, no object is lost and nothing is taken back, no class is
/// initialised twice, and the trace only grows.
pub proof fn a_history_loses_nothing(history: Seq<VmView>)
    requires
        history.len() > 0,
        lived(history),
    ensures
        comes_after(history[0], history.last()),
    decreases history.len(),
{
    let n = history.len() as int;
    if n > 1 {
        let earlier = history.drop_last();
        lemma_earlier(history);
        a_history_loses_nothing(earlier);
        assert(goes_on(history[n - 2], history[n - 1]));
        lemma_goes_on(history[n - 2], history[n - 1]);
        lemma_after_itself(history[0], history[n - 2], history[n - 1]);
    }
}

/// A class is initialised once. After the first demand for it, whatever the machine did since
/// and however its initialiser ended, a second demand calls nothing and changes nothing.
pub proof fn a_class_is_initialized_once(
    vm: VmView,
    class_name: Seq<char>,
    history: Seq<VmView>,
)
    requires
        history.len() > 0,
        lived(history),
        comes_after(vm.marked(class_name), history[0]),
    ensures
        history.last().initializer(class_name) is None,
        history.last().marked(class_name) == history.last(),
{
    a_history_loses_nothing(history);
    lemma_after_itself(vm.marked(class_name), history[0], history.last());
    running::an_initialized_class_is_not_initialized_again(vm, class_name);
    let first = vm.marked(class_name).initialized;
    let i = choose|i: int| 0 <= i < first.len() && first[i] == class_name;
    assert(history.last().initialized[i] == class_name);
    running::an_initialized_class_is_not_initialized_again(history.last(), class_name);
}

} // verus!
