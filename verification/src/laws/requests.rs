//! What holds of a machine from its beginning, over every request and every answer.

use vstd::prelude::*;

use crate::dex::{DexFile, Wanted};
use crate::frames::FrameView;
use crate::host::AnswerView;
use crate::interp::calls;
use crate::laws::bounds;
use crate::laws::bounds::all_inside;
use crate::laws::machine;
use crate::laws::machine::nested;
use crate::laws::modes;
use crate::laws::modes::final_mode;
use crate::laws::running;
use crate::laws::running::comes_after;
use crate::laws::tables;
use crate::laws::tables::tidy_machine;
use crate::machine::{VmConfig, VmView};
use crate::table;
use crate::value::{ObjectId, ValueView};
use crate::vm;
use crate::world;
use crate::world::{FrameworkView, WorldView};

verus! {

/// Whether a machine is sound: every method is within its code, methods are nested no deeper
/// than allowed, no class counts as initialised twice, no table has a key twice, and no frame is
/// rendered once all methods have ended.
pub open spec fn sound(vm: VmView) -> bool {
    &&& tidy_machine(vm)
    &&& all_inside(vm.stack)
    &&& nested(vm.stack, vm.config.max_call_depth as nat)
    &&& vm.initialized.no_duplicates()
    &&& !final_mode(vm).0
}

/// A machine is sound before it has run, if no table that it is given has a key twice.
pub proof fn a_new_machine_is_sound(dex: &DexFile, framework: FrameworkView, config: VmConfig)
    requires
        tables::tidy_framework(framework),
    ensures
        sound(vm::fresh(dex, framework, config)),
        vm::fresh(dex, framework, config).idle(),
{
    reveal(tables::tidy_heap);
}

/// A step keeps a machine sound.
pub proof fn a_step_keeps_a_machine_sound(vm: VmView)
    requires
        sound(vm),
    ensures
        sound(vm.next()),
{
    tables::a_step_keeps_tables_tidy(vm);
    bounds::a_step_stays_within_the_code(vm);
    machine::a_step_keeps_to_the_call_depth(vm);
    running::a_step_loses_nothing(vm);
    modes::a_step_keeps_the_final_mode(vm);
}

/// A run keeps a machine sound.
pub proof fn a_run_keeps_a_machine_sound(vm: VmView)
    requires
        sound(vm),
    ensures
        sound(vm.ran()),
{
    tables::a_run_keeps_tables_tidy(vm);
    bounds::a_run_stays_within_the_code(vm);
    machine::a_run_keeps_to_the_call_depth(vm);
    running::a_run_loses_nothing(vm);
    modes::a_run_keeps_the_final_mode(vm);
}

proof fn lemma_requested(vm: VmView, index: nat, args: Seq<ValueView>)
    requires
        sound(vm),
    ensures
        sound(vm.requested(index, args).0),
        comes_after(vm, vm.requested(index, args).0),
{
    let start = vm.pushed(FrameView::Call { index, args });
    assert(start.stack.drop_last() =~= vm.stack);
    assert(start.stack.last() == FrameView::Call { index, args });
    a_run_keeps_a_machine_sound(start);
    running::a_run_loses_nothing(start);
}

/// A call of a method, by its number, its name or on an object, keeps an idle machine sound and
/// loses nothing of it, whether it is done then or asks.
pub proof fn a_call_keeps_a_machine_sound(
    vm: VmView,
    index: nat,
    class_name: Seq<char>,
    name: Seq<char>,
    prototype: Option<Seq<char>>,
    object: ObjectId,
    args: Seq<ValueView>,
)
    requires
        vm.idle(),
        sound(vm),
    ensures
        sound(vm.requested(index, args).0),
        comes_after(vm, vm.requested(index, args).0),
        sound(vm.requested_named(class_name, name, prototype, args).0),
        comes_after(vm, vm.requested_named(class_name, name, prototype, args).0),
        sound(vm.requested_on(object, name, args).0),
        comes_after(vm, vm.requested_on(object, name, args).0),
{
    lemma_requested(vm, index, args);
    match vm.dex.first(Wanted { class_name, name, prototype, coded: false }) {
        Some(i) => lemma_requested(vm, i, args),
        None => {},
    }
    lemma_requested_on(vm, object, name, args);
}

proof fn lemma_requested_on(vm: VmView, object: ObjectId, name: Seq<char>, args: Seq<ValueView>)
    requires
        sound(vm),
    ensures
        sound(vm.requested_on(object, name, args).0),
        comes_after(vm, vm.requested_on(object, name, args).0),
{
    match calls::method_of_object(&vm.dex, vm.world, object, name, true) {
        Ok(i) => lemma_requested(vm, i, seq![ValueView::Object(object)] + args),
        Err(_) => {},
    }
}

/// So do a touch and a click.
pub proof fn a_touch_keeps_a_machine_sound(
    vm: VmView,
    view: ObjectId,
    action: i32,
    x: u32,
    y: u32,
)
    requires
        vm.idle(),
        sound(vm),
    ensures
        sound(vm.touched(view, action, x, y).0),
        comes_after(vm, vm.touched(view, action, x, y).0),
        sound(vm.clicked(view).0),
        comes_after(vm, vm.clicked(view).0),
{
    let on_view = seq![ValueView::Object(view)];
    match table::lookup(vm.world.click_listeners, view) {
        Some(listener) => lemma_requested_on(vm, listener, "onClick"@, on_view),
        None => {},
    }
    match table::lookup(vm.world.touch_listeners, view) {
        Some(listener) => {
            let event = vm.world.fresh();
            let made = vm.world.with_object(world::instance_of("Landroid/view/MotionEvent;"@));
            let once = made.with_field(event, "action"@, ValueView::Int(action));
            let twice = once.with_field(event, "x"@, ValueView::Float(x));
            let with_event = VmView {
                world: twice.with_field(event, "y"@, ValueView::Float(y)),
                ..vm
            };
            let class_name = "Landroid/view/MotionEvent;"@;
            let what = ValueView::Int(action);
            let across = ValueView::Float(x);
            let down = ValueView::Float(y);
            tables::objects_are_kept_tidy(vm.world, event, "action"@, what, class_name);
            tables::objects_are_kept_tidy(made, event, "action"@, what, class_name);
            tables::objects_are_kept_tidy(once, event, "x"@, across, class_name);
            tables::objects_are_kept_tidy(twice, event, "y"@, down, class_name);
            lemma_requested_on(
                with_event,
                listener,
                "onTouch"@,
                seq![ValueView::Object(view), ValueView::Object(event)],
            );
        },
        None => {},
    }
}

/// So does the rendering of a frame.
pub proof fn a_frame_keeps_a_machine_sound(vm: VmView, object: ObjectId, name: Seq<char>)
    requires
        vm.idle(),
        sound(vm),
    ensures
        sound(vm.rendered(object, name).0),
        comes_after(vm, vm.rendered(object, name).0),
{
    match calls::method_of_object(&vm.dex, vm.world, object, name, false) {
        Err(_) => {},
        Ok(index) => {
            let on_canvas = name == "onDraw"@;
            let drawn = if on_canvas {
                vm.world.with_object(world::instance_of("Landroid/graphics/Canvas;"@))
            } else {
                vm.world
            };
            let args = if on_canvas {
                seq![ValueView::Object(object), ValueView::Object(vm.world.fresh())]
            } else {
                seq![ValueView::Object(object)]
            };
            let start = VmView {
                world: WorldView {
                    frame_mode: true,
                    canvas_stack: Seq::empty(),
                    canvas_state: world::plain_canvas(),
                    ..drawn
                },
                frame_steps: 0,
                frame_aborted: false,
                ..vm
            }.pushed(FrameView::Render);
            assert(start.stack.drop_last() =~= vm.stack);
            assert(start.stack.last() == FrameView::Render);
            assert(modes::unwound(vm.stack, 0, (false, false)) == (false, false));
            let class_name = "Landroid/graphics/Canvas;"@;
            tables::objects_are_kept_tidy(vm.world, 0, name, ValueView::Void, class_name);
            lemma_requested(start, index, args);
        },
    }
}

/// An answer keeps a machine sound and loses nothing of it.
pub proof fn an_answer_keeps_a_machine_sound(vm: VmView, answer: AnswerView)
    requires
        sound(vm),
    ensures
        vm.answered(answer) matches Some(after) ==> sound(after) && comes_after(vm, after)
            && sound(after.settled().0) && comes_after(vm, after.settled().0),
{
    match vm.answered(answer) {
        None => {},
        Some(after) => {
            let below = vm.stack.drop_last();
            assert(vm.stack =~= below.push(vm.stack.last()));
            assert(after.stack =~= below.push(after.stack.last()));
            assert(after.stack.drop_last() =~= below);
            assert forall|i: int| 0 <= i < after.stack.len() implies (
            #[trigger] after.stack[i] matches FrameView::Code(f) ==> bounds::inside(f)) by {
                if i < below.len() {
                    assert(after.stack[i] == vm.stack[i]);
                }
            }
            a_run_keeps_a_machine_sound(after);
            running::a_run_loses_nothing(after);
        },
    }
}

} // verus!
