//! Looking for objects: the first that answers, and none only where none does.

use vstd::prelude::*;

use crate::dex::{DexFile, Wanted};
use crate::laws::invoking::answers_to;
use crate::laws::texts::stands_at;
use crate::machine::VmView;
use crate::search;
use crate::table;
use crate::value::{ObjectId, ObjectView, ValueView};

verus! {

/// Whether a number is that of the first object that a test picks, or there is no such object.
pub open spec fn is_first(
    heap: Seq<ObjectView>,
    found: Option<ObjectId>,
    picks: spec_fn(int) -> bool,
) -> bool {
    match found {
        Some(id) => id < heap.len() && picks(id as int) && forall|i: int|
            0 <= i < id ==> !#[trigger] picks(i),
        None => forall|i: int| 0 <= i < heap.len() ==> !#[trigger] picks(i),
    }
}

proof fn lemma_first(
    heap: Seq<ObjectView>,
    from: nat,
    test: spec_fn(nat, ObjectView) -> bool,
    picks: spec_fn(int) -> bool,
)
    requires
        heap.len() <= u32::MAX,
        forall|i: int| 0 <= i < heap.len() ==> #[trigger] picks(i) == test(i as nat, heap[i]),
        forall|i: int| 0 <= i < from && i < heap.len() ==> !#[trigger] picks(i),
    ensures
        is_first(heap, search::first_object(heap, from, test), picks),
    decreases heap.len() - from,
{
    if from < heap.len() {
        assert(picks(from as int) == test(from, heap[from as int]));
        if !test(from, heap[from as int]) {
            lemma_first(heap, from + 1, test, picks);
        }
    }
}

/// Whether an object is an instance of a class.
pub open spec fn has_class(heap: Seq<ObjectView>, i: int, class_name: Seq<char>) -> bool {
    heap[i] matches ObjectView::Instance { class_name: c, .. } && c == class_name
}

/// The instance that is found by its class is the first of that class.
pub proof fn the_first_instance_of_a_class_is_found(vm: VmView, class_name: Seq<char>)
    requires
        vm.world.heap.len() <= u32::MAX,
    ensures
        is_first(
            vm.world.heap,
            search::first_object(vm.world.heap, 0, search::of_class(class_name)),
            |i: int| has_class(vm.world.heap, i, class_name),
        ),
{
    lemma_first(
        vm.world.heap,
        0,
        search::of_class(class_name),
        |i: int| has_class(vm.world.heap, i, class_name),
    );
}

/// Whether an object can be clicked and has an id, of its own or in the tree of views.
pub open spec fn clicks_as(vm: VmView, nodes: Seq<(u32, i32)>, i: int, id: i32) -> bool {
    &&& vm.world.heap[i] is Instance
    &&& vm.world.field(i as u32, "view_id"@) == Some(ValueView::Int(id)) || table::lookup(
        nodes,
        i as u32,
    ) == Some(id)
    &&& table::lookup(vm.world.click_listeners, i as u32) is Some
}

/// The view that is found to be clicked is the first with that id and a click listener. Where
/// there is none, it is the first button with a click listener.
pub proof fn a_clickable_view_is_found_by_its_id(vm: VmView, nodes: Seq<(u32, i32)>, id: i32)
    requires
        vm.world.heap.len() <= u32::MAX,
    ensures
        ({
            let heap = vm.world.heap;
            let found = vm.clickable_view(nodes, id);
            let by_id = |i: int| clicks_as(vm, nodes, i, id);
            let button = |i: int|
                has_class(heap, i, "Landroid/widget/Button;"@) && table::lookup(
                    vm.world.click_listeners,
                    i as u32,
                ) is Some;
            if exists|i: int| 0 <= i < heap.len() && #[trigger] by_id(i) {
                is_first(heap, found, by_id)
            } else {
                is_first(heap, found, button)
            }
        }),
{
    let heap = vm.world.heap;
    let by_id = |i: int| clicks_as(vm, nodes, i, id);
    let button = |i: int|
        has_class(heap, i, "Landroid/widget/Button;"@) && table::lookup(
            vm.world.click_listeners,
            i as u32,
        ) is Some;
    lemma_first(heap, 0, search::clickable(vm.world, nodes, id), by_id);
    lemma_first(heap, 0, search::clickable_button(vm.world), button);
}

/// Whether an object is a game's view that the program draws with code.
pub open spec fn draws_itself(vm: VmView, i: int) -> bool {
    vm.world.heap[i] matches ObjectView::Instance { class_name, .. } && stands_at(
        class_name,
        "/GameView;"@,
        class_name.len() - "/GameView;"@.len(),
    ) && exists|j: int|
        0 <= j < vm.dex.methods.len() && answers_to(
            #[trigger] vm.dex.methods[j],
            class_name,
            "onDraw"@,
            None,
            true,
        )
}

/// The view that is drawn is the first game's view with code for drawing. Where there is none, it
/// is the content view of the activity of the least number, if it is an instance.
pub proof fn the_drawing_view_is_found(vm: VmView)
    requires
        vm.world.heap.len() <= u32::MAX,
    ensures
        ({
            let heap = vm.world.heap;
            let draws = |i: int| draws_itself(vm, i);
            if exists|i: int| 0 <= i < heap.len() && #[trigger] draws(i) {
                is_first(heap, vm.drawing_view(), draws)
            } else {
                match search::first_shown(vm.world.framework.content_views) {
                    Some((_, view)) => vm.drawing_view() == if vm.world.class_of(view) is Some {
                        Some(view)
                    } else {
                        None
                    },
                    None => vm.drawing_view() is None,
                }
            }
        }),
{
    let heap = vm.world.heap;
    let draws = |i: int| draws_itself(vm, i);
    let test = search::draws(vm.dex);
    assert forall|i: int| 0 <= i < heap.len() implies #[trigger] draws(i) == test(
        i as nat,
        heap[i],
    ) by {
        match heap[i] {
            ObjectView::Instance { class_name, .. } => {
                crate::laws::texts::a_text_is_found_where_it_stands(class_name, "/GameView;"@);
                crate::laws::invoking::the_first_method_that_answers_is_found(
                    &vm.dex,
                    class_name,
                    "onDraw"@,
                    None,
                    true,
                );
                match vm.dex.first(
                    Wanted { class_name, name: "onDraw"@, prototype: None, coded: true },
                ) {
                    Some(j) => {
                        assert(answers_to(
                            vm.dex.methods[j as int],
                            class_name,
                            "onDraw"@,
                            None,
                            true,
                        ));
                    },
                    None => {},
                }
            },
            _ => {},
        }
    }
    lemma_first(heap, 0, test, draws);
}

/// Of the activities that show a view, the first is the one of the least number.
pub proof fn the_first_activity_has_the_least_number(shown: Seq<(u32, u32)>)
    ensures
        match search::first_shown(shown) {
            Some(e) => shown.contains(e) && forall|i: int|
                0 <= i < shown.len() ==> e.0 <= (#[trigger] shown[i]).0,
            None => shown.len() == 0,
        },
    decreases shown.len(),
{
    if shown.len() > 0 {
        let rest = shown.drop_last();
        the_first_activity_has_the_least_number(rest);
        assert(shown[shown.len() - 1] == shown.last());
        match search::first_shown(rest) {
            Some(e) => {
                let k = choose|k: int| 0 <= k < rest.len() && rest[k] == e;
                assert(shown[k] == e);
                assert forall|i: int| 0 <= i < shown.len() - 1 implies e.0 <= (
                #[trigger] shown[i]).0 by {
                    assert(rest[i] == shown[i]);
                }
            },
            None => {},
        }
    }
}

/// The names of the classes of all instances are listed in the order of the objects: as many as
/// there are instances, and each behind those of the objects before it.
pub proof fn the_classes_of_instances_are_listed_in_order(heap: Seq<ObjectView>, object: ObjectView)
    ensures
        search::class_names(Seq::empty()) == Seq::<Seq<char>>::empty(),
        search::class_names(heap.push(object)) == match object {
            ObjectView::Instance { class_name, .. } => search::class_names(heap).push(class_name),
            _ => search::class_names(heap),
        },
{
    assert(heap.push(object).drop_last() =~= heap);
}

/// Whether a class has code for a method is told by whether one of its methods of that name has.
pub proof fn a_class_has_code_where_one_of_its_methods_has(
    dex: &DexFile,
    class_name: Seq<char>,
    name: Seq<char>,
)
    ensures
        search::has_code(dex, class_name, name) <==> exists|j: int|
            0 <= j < dex.methods.len() && answers_to(
                #[trigger] dex.methods[j],
                class_name,
                name,
                None,
                true,
            ),
{
    crate::laws::invoking::the_first_method_that_answers_is_found(
        dex,
        class_name,
        name,
        None,
        true,
    );
    match dex.first(Wanted { class_name, name, prototype: None, coded: true }) {
        Some(j) => {
            assert(answers_to(dex.methods[j as int], class_name, name, None, true));
        },
        None => {},
    }
}

} // verus!
