//! What is asked of a machine: which method it starts with, and how a frame begins.

use vstd::prelude::*;

use crate::dex::{DexFile, FieldId, Wanted};
use crate::error;
use crate::error::ErrorView;
use crate::frames::{CodeView, FrameView, HostView, Phase, StatusView};
use crate::interp::calls;
use crate::laws::invoking;
use crate::laws::invoking::answers_to;
use crate::laws::rounding::closest_single;
use crate::machine::VmView;
use crate::table;
use crate::value::{ObjectId, ObjectView, ValueView};
use crate::vm;
use crate::world;
use crate::world::WorldView;

verus! {

// Methods by name.

/// Whether a number is that of the first method that answers to a class, a name and a prototype.
pub open spec fn is_named(
    dex: &DexFile,
    index: nat,
    class_name: Seq<char>,
    name: Seq<char>,
    prototype: Option<Seq<char>>,
    coded: bool,
) -> bool {
    &&& index < dex.methods.len()
    &&& answers_to(dex.methods[index as int], class_name, name, prototype, coded)
    &&& forall|j: int|
        0 <= j < index ==> !answers_to(
            #[trigger] dex.methods[j],
            class_name,
            name,
            prototype,
            coded,
        )
}

proof fn lemma_named(
    dex: &DexFile,
    index: nat,
    class_name: Seq<char>,
    name: Seq<char>,
    prototype: Option<Seq<char>>,
    coded: bool,
)
    requires
        is_named(dex, index, class_name, name, prototype, coded),
    ensures
        dex.first(Wanted { class_name, name, prototype, coded }) == Some(index),
{
    invoking::the_first_method_that_answers_is_found(dex, class_name, name, prototype, coded);
    match dex.first(Wanted { class_name, name, prototype, coded }) {
        None => {
            assert(!answers_to(dex.methods[index as int], class_name, name, prototype, coded));
        },
        Some(i) => {
            if i < index {
                assert(!answers_to(dex.methods[i as int], class_name, name, prototype, coded));
            } else if index < i {
                assert(!answers_to(dex.methods[index as int], class_name, name, prototype, coded));
            }
        },
    }
}

/// A request by name calls the first method that answers to the name, with the arguments given.
/// Where none does, it is refused, and nothing changes.
pub proof fn a_method_is_called_by_its_name(
    vm: VmView,
    class_name: Seq<char>,
    name: Seq<char>,
    prototype: Option<Seq<char>>,
    args: Seq<ValueView>,
    index: nat,
)
    ensures
        is_named(&vm.dex, index, class_name, name, prototype, false) ==> vm.requested_named(
            class_name,
            name,
            prototype,
            args,
        ) == vm.requested(index, args),
        (forall|j: int|
            0 <= j < vm.dex.methods.len() ==> !answers_to(
                #[trigger] vm.dex.methods[j],
                class_name,
                name,
                prototype,
                false,
            )) ==> vm.requested_named(class_name, name, prototype, args).0 == vm && (
        vm.requested_named(class_name, name, prototype, args).1 matches Some(r) && r is Err),
{
    if is_named(&vm.dex, index, class_name, name, prototype, false) {
        lemma_named(&vm.dex, index, class_name, name, prototype, false);
    }
    invoking::the_first_method_that_answers_is_found(
        &vm.dex,
        class_name,
        name,
        prototype,
        false,
    );
}

/// A request on an object calls the method with code that its class has, with the object before
/// the other arguments. What is no instance refuses every request.
pub proof fn a_method_is_called_on_its_object(
    vm: VmView,
    object: ObjectId,
    class_name: Seq<char>,
    name: Seq<char>,
    args: Seq<ValueView>,
    index: nat,
)
    ensures
        vm.world.class_of(object) == Some(class_name) && is_named(
            &vm.dex,
            index,
            class_name,
            name,
            None,
            true,
        ) ==> vm.requested_on(object, name, args) == vm.requested(
            index,
            seq![ValueView::Object(object)] + args,
        ),
        vm.world.class_of(object) is None ==> vm.requested_on(object, name, args).0 == vm && (
        vm.requested_on(object, name, args).1 matches Some(r) && r is Err),
{
    if vm.world.class_of(object) == Some(class_name) && is_named(
        &vm.dex,
        index,
        class_name,
        name,
        None,
        true,
    ) {
        lemma_named(&vm.dex, index, class_name, name, None, true);
        assert(vm.dex.height() > 0);
    }
}

// Frames.

/// Whether a machine is about to render: everything is as it was but the canvas, which is at its
/// origin and not scaled, the instructions of the frame, of which there are none yet, and the
/// stack, which remembers the rendering.
pub open spec fn begins_a_frame(before: VmView, start: VmView) -> bool {
    &&& start.world.frame_mode
    &&& !start.frame_aborted
    &&& start.frame_steps == 0
    &&& start.world.canvas_stack.len() == 0
    &&& start.world.canvas_state.x == 0
    &&& start.world.canvas_state.y == 0
    &&& start.world.canvas_state.scale_x == 0x3f80_0000
    &&& start.world.canvas_state.scale_y == 0x3f80_0000
    &&& start.stack == before.stack.push(FrameView::Render)
    &&& start.executed_steps == before.executed_steps
    &&& start.world.effects == before.world.effects
    &&& start.initialized == before.initialized
    &&& start.statics == before.statics
}

/// A frame begins on a plain canvas with the view's own method. `onDraw` gets a new canvas behind
/// the view; every other method gets the view alone.
pub proof fn a_frame_begins_on_a_plain_canvas(
    vm: VmView,
    object: ObjectId,
    class_name: Seq<char>,
    name: Seq<char>,
    index: nat,
)
    requires
        vm.world.class_of(object) == Some(class_name),
        is_named(&vm.dex, index, class_name, name, None, true),
    ensures
        exists|start: VmView, args: Seq<ValueView>|
            begins_a_frame(vm, start) && vm.rendered(object, name) == #[trigger] start.requested(
                index,
                args,
            ) && args.len() > 0 && args[0] == ValueView::Object(object) && if name == "onDraw"@ {
                &&& args.len() == 2
                &&& args[1] == ValueView::Object(vm.world.heap.len() as ObjectId)
                &&& start.world.heap == vm.world.heap.push(
                    ObjectView::Instance {
                        class_name: "Landroid/graphics/Canvas;"@,
                        fields: Seq::empty(),
                    },
                )
            } else {
                args.len() == 1 && start.world.heap == vm.world.heap
            },
{
    lemma_named(&vm.dex, index, class_name, name, None, true);
    let on_canvas = name == "onDraw"@;
    let drawn = if on_canvas {
        vm.world.with_object(world::instance_of("Landroid/graphics/Canvas;"@))
    } else {
        vm.world
    };
    let args = if on_canvas {
        seq![ValueView::Object(object), ValueView::Object(vm.world.fresh())]
    } else {
        seq![ValueView::Object(object)]
    };
    let start = VmView {
        world: WorldView {
            frame_mode: true,
            canvas_stack: Seq::empty(),
            canvas_state: world::plain_canvas(),
            ..drawn
        },
        frame_steps: 0,
        frame_aborted: false,
        ..vm
    }.pushed(FrameView::Render);
    assert(vm.rendered(object, name) == start.requested(index, args));
    assert(begins_a_frame(vm, start));
}

// Static fields.

/// A static field that was never written is the width or height of the surface, at least 320 and
/// 480, for fields of these names, and otherwise blank for its type, but for three names of the
/// device.
pub proof fn an_unwritten_static_field(w: WorldView, f: FieldId)
    ensures
        f.name@ == "width"@ ==> (calls::unset_static(w, Some(f)) matches ValueView::Float(n)
            && closest_single(
            n,
            (if w.framework.surface_size.0 < 320 {
                320
            } else {
                w.framework.surface_size.0 as int
            }) * vstd::arithmetic::power2::pow2(149),
            1,
        )),
        f.name@ == "height"@ ==> (calls::unset_static(w, Some(f)) matches ValueView::Float(n)
            && closest_single(
            n,
            (if w.framework.surface_size.1 < 480 {
                480
            } else {
                w.framework.surface_size.1 as int
            }) * vstd::arithmetic::power2::pow2(149),
            1,
        )),
        f.name@ != "width"@ && f.name@ != "height"@ && f.name@ != "RELEASE"@ && f.name@
            != "DEVICE"@ && f.name@ != "MODEL"@ ==> {
            let v = calls::unset_static(w, Some(f));
            &&& f.descriptor@ == "I"@ ==> v == ValueView::Int(0)
            &&& f.descriptor@ == "F"@ ==> v == ValueView::Float(0)
            &&& f.descriptor@ == "J"@ ==> v == ValueView::Long(0)
            &&& f.descriptor@ == "D"@ ==> v == ValueView::Double(0)
            &&& f.descriptor@.len() > 1 ==> v == ValueView::Null
        },
        calls::unset_static(w, None) == ValueView::Null,
{
    reveal_strlit("width");
    reveal_strlit("height");
    assert("width"@.len() == 5 && "height"@.len() == 6);
    reveal_strlit("I");
    reveal_strlit("Z");
    reveal_strlit("B");
    reveal_strlit("S");
    reveal_strlit("C");
    reveal_strlit("F");
    reveal_strlit("J");
    reveal_strlit("D");
    assert("I"@[0] == 'I' && "Z"@[0] == 'Z' && "B"@[0] == 'B' && "S"@[0] == 'S');
    assert("C"@[0] == 'C' && "F"@[0] == 'F' && "J"@[0] == 'J' && "D"@[0] == 'D');
    assert("I"@.len() == 1 && "Z"@.len() == 1 && "B"@.len() == 1 && "S"@.len() == 1);
    assert("C"@.len() == 1 && "F"@.len() == 1 && "J"@.len() == 1 && "D"@.len() == 1);
    crate::laws::conversions::an_integer_becomes_the_nearest_number(
        calls::at_least(w.framework.surface_size.0, 320),
    );
    crate::laws::conversions::an_integer_becomes_the_nearest_number(
        calls::at_least(w.framework.surface_size.1, 480),
    );
}

/// Reading a static field of a class that still needs its initialiser calls the initialiser first;
/// the frame that reads waits, at the same instruction.
pub proof fn a_class_is_initialized_before_its_fields_are_read(
    vm: VmView,
    f: CodeView,
    initializer: nat,
)
    requires
        invoking::about_to_execute(vm, f),
        f.activation.pc + 1 < f.words.len(),
        0x60 <= f.words[f.activation.pc as int] % 0x100 <= 0x66,
        f.words[f.activation.pc + 1] < vm.dex.fields.len(),
        ({
            let owner = vm.dex.fields[f.words[f.activation.pc + 1] as int].class_name@;
            &&& !vm.initialized.contains(owner)
            &&& is_named(&vm.dex, initializer, owner, "<clinit>"@, None, false)
        }),
    ensures
        ({
            let owner = vm.dex.fields[f.words[f.activation.pc + 1] as int].class_name@;
            let stack = vm.next().stack;
            &&& vm.next().initialized == vm.initialized.push(owner)
            &&& vm.next().world == vm.world
            &&& stack.len() == vm.stack.len() + 1
            &&& stack.last() == (FrameView::Call { index: initializer, args: Seq::empty() })
            &&& stack[stack.len() - 2] == FrameView::Code(
                CodeView { phase: Phase::AwaitingClass, ..f },
            )
        }),
{
    reveal(VmView::code_step);
    reveal(VmView::executed);
    reveal(VmView::fetched);
    let owner = vm.dex.fields[f.words[f.activation.pc + 1] as int].class_name@;
    lemma_named(&vm.dex, initializer, owner, "<clinit>"@, None, false);
}

/// Reading a static field of a class that needs no initialiser puts its value into the register,
/// or the pair, that the instruction names.
pub proof fn a_static_field_is_read_into_a_register(vm: VmView, f: CodeView)
    requires
        invoking::about_to_execute(vm, f),
        f.activation.pc + 1 < f.words.len() <= usize::MAX,
        0x60 <= f.words[f.activation.pc as int] % 0x100 <= 0x66,
        f.words[f.activation.pc + 1] < vm.dex.fields.len(),
        vm.initialized.contains(vm.dex.fields[f.words[f.activation.pc + 1] as int].class_name@),
        crate::laws::steps::within(
            f.activation,
            crate::laws::steps::bits(f.words[f.activation.pc as int], 8, 0xff) + 1,
        ),
    ensures
        ({
            let dest = crate::laws::steps::bits(f.words[f.activation.pc as int], 8, 0xff);
            let index = f.words[f.activation.pc + 1] as nat;
            &&& vm.next().world == vm.world
            &&& vm.next().stack.last() matches FrameView::Code(g) && g.activation.registers[dest]
                == (match table::lookup(vm.statics, vm.dex.key(index)) {
                Some(v) => v,
                None => calls::unset_static(vm.world, Some(vm.dex.fields[index as int])),
            }) && g.activation.pc == f.activation.pc + 2
        }),
{
    reveal(VmView::code_step);
    reveal(VmView::executed);
    reveal(VmView::fetched);
    reveal(VmView::loaded);
    crate::laws::steps::the_parts_of_a_word(f.words[f.activation.pc as int]);
}

/// Writing a static field stores what the register holds under the field's key, and nothing else
/// of the statics changes.
pub proof fn a_static_field_is_written_from_a_register(vm: VmView, f: CodeView, other: Seq<char>)
    requires
        invoking::about_to_execute(vm, f),
        f.activation.pc + 1 < f.words.len() <= usize::MAX,
        0x67 <= f.words[f.activation.pc as int] % 0x100 <= 0x6d,
        crate::laws::steps::within(
            f.activation,
            crate::laws::steps::bits(f.words[f.activation.pc as int], 8, 0xff) + 1,
        ),
    ensures
        ({
            let source = crate::laws::steps::bits(f.words[f.activation.pc as int], 8, 0xff);
            let key = vm.dex.key(f.words[f.activation.pc + 1] as nat);
            &&& table::lookup(vm.next().statics, key) == Some(f.activation.registers[source])
            &&& other != key ==> table::lookup(vm.next().statics, other) == table::lookup(
                vm.statics,
                other,
            )
            &&& vm.next().world == vm.world
        }),
{
    reveal(VmView::code_step);
    reveal(VmView::executed);
    crate::laws::steps::the_parts_of_a_word(f.words[f.activation.pc as int]);
    let source = crate::laws::steps::bits(f.words[f.activation.pc as int], 8, 0xff);
    let key = vm.dex.key(f.words[f.activation.pc + 1] as nat);
    table::store_then_lookup(vm.statics, key, f.activation.registers[source], other);
}

// Methods of the framework.

/// A method of the framework or the game library that calls nothing and asks nothing is performed
/// in one step, and its result goes to the frame below.
pub proof fn a_method_of_the_framework_is_performed(vm: VmView, h: HostView)
    requires
        vm.status is Running,
        vm.stack.len() > 0,
        vm.stack.last() == FrameView::Host(h),
        !h.game,
        crate::framework::dispatch::callback(h.class_name, h.method, h.args) is None,
        crate::framework::dispatch::question(
            vm.world,
            h.class_name,
            h.method,
            h.args,
            h.answers,
        ) is None,
    ensures
        ({
            let (world, r) = crate::framework::dispatch::performed(
                vm.world,
                h.class_name,
                h.method,
                h.args,
                h.answers,
            );
            &&& vm.next().world == world
            &&& vm.next().stack == vm.stack.drop_last()
            &&& r matches Ok(v) ==> vm.next().status == StatusView::Returning(Ok(v))
            &&& r matches Err(e) ==> (vm.next().status matches StatusView::Returning(Err(n)) && n.pc
                == e.pc && n.opcode == e.opcode)
        }),
{
    reveal(VmView::host_step);
}

/// What a callback returns is dropped: the method that made it gives its own value.
pub proof fn a_callback_gives_the_value_of_its_method(
    vm: VmView,
    value: ValueView,
    place: crate::frames::PlaceView,
    returned: ValueView,
)
    requires
        vm.stack.len() > 0,
        vm.stack.last() == (FrameView::Callback { value, place }),
        vm.status == StatusView::Returning(Ok(returned)),
    ensures
        vm.next().status == StatusView::Returning(Ok(value)),
        vm.next().stack == vm.stack.drop_last(),
        vm.next().world == vm.world,
{
    reveal(VmView::received);
}

/// A frame that a method ends behind its last instruction returns nothing.
pub proof fn a_method_ends_behind_its_last_instruction(vm: VmView, f: CodeView)
    requires
        vm.status is Running,
        vm.stack.len() > 0,
        vm.stack.last() == FrameView::Code(f),
        f.activation.pc >= f.words.len(),
    ensures
        vm.next().status == StatusView::Returning(Ok(ValueView::Void)),
        vm.next().stack == vm.stack.drop_last(),
{
    reveal(VmView::code_step);
}

/// An error on its way up says, for each method that it leaves, in which class and method it came
/// about, behind what it said before.
pub proof fn an_error_says_where_it_came_about(
    e: ErrorView,
    class_name: Seq<char>,
    method: Seq<char>,
    texts: error::FloatTextsView,
)
    ensures
        ({
            let placed = crate::frames::placed(Err(e), " in "@, Some((class_name, method)));
            &&& placed matches Err(n) && n.pc == e.pc && n.opcode == e.opcode
                && error::message_text(n.message, texts) == error::message_text(e.message, texts)
                + " in "@ + class_name + "->"@ + method
        }),
{
    let note = " in "@ + class_name + "->"@ + method;
    assert(e.message.push(error::PieceView::Text(note)).drop_last() =~= e.message);
    let before = error::spelled(e.message);
    assert(crate::spelling::spelling_text(before.text(note), texts)
        =~= crate::spelling::spelling_text(before, texts) + note);
    assert(error::message_text(e.message, texts) + note =~= error::message_text(e.message, texts)
        + " in "@ + class_name + "->"@ + method);
}

} // verus!
