//! Looking for objects and views in a machine.

use vstd::prelude::*;

use crate::dex;
use crate::dex::{find_method, DexFile, Wanted};
use crate::host;
use crate::machine::{Vm, VmView};
use crate::table;
use crate::table::{get_id, get_named};
use crate::text;
use crate::value;
use crate::value::{HeapObject, ObjectId, ObjectView, Value, ValueView};
use crate::world::WorldView;

verus! {

/// The first object, from a number on, that a test picks.
pub open spec fn first_object(
    heap: Seq<ObjectView>,
    from: nat,
    picks: spec_fn(nat, ObjectView) -> bool,
) -> Option<ObjectId>
    decreases heap.len() - from,
{
    if from >= heap.len() {
        None
    } else if picks(from, heap[from as int]) {
        Some(from as ObjectId)
    } else {
        first_object(heap, from + 1, picks)
    }
}

/// The classes of the instances, in the order of their numbers.
pub open spec fn class_names(heap: Seq<ObjectView>) -> Seq<Seq<char>>
    decreases heap.len(),
{
    if heap.len() == 0 {
        Seq::empty()
    } else {
        match heap.last() {
            ObjectView::Instance { class_name, .. } => class_names(heap.drop_last()).push(
                class_name,
            ),
            _ => class_names(heap.drop_last()),
        }
    }
}

pub open spec fn of_class(class_name: Seq<char>) -> spec_fn(nat, ObjectView) -> bool {
    |i: nat, o: ObjectView|
        match o {
            ObjectView::Instance { class_name: c, .. } => c == class_name,
            _ => false,
        }
}

/// Whether a class has a method of a name with code.
pub open spec fn has_code(dex: &DexFile, class_name: Seq<char>, name: Seq<char>) -> bool {
    dex.first(Wanted { class_name, name, prototype: None, coded: true }) is Some
}

/// Whether an object is a view that draws the game.
pub open spec fn draws(dex: DexFile) -> spec_fn(nat, ObjectView) -> bool {
    |i: nat, o: ObjectView|
        match o {
            ObjectView::Instance { class_name, .. } => text::ends(class_name, "/GameView;"@)
                && has_code(&dex, class_name, "onDraw"@),
            _ => false,
        }
}

/// Whether an object is a view of an id that can be clicked.
pub open spec fn clickable(w: WorldView, nodes: Seq<(u32, i32)>, id: i32) -> spec_fn(
    nat,
    ObjectView,
) -> bool {
    |i: nat, o: ObjectView|
        match o {
            ObjectView::Instance { fields, .. } => (table::lookup(fields, "view_id"@) == Some(
                ValueView::Int(id),
            ) || table::lookup(nodes, i as u32) == Some(id)) && table::lookup(
                w.click_listeners,
                i as u32,
            ) is Some,
            _ => false,
        }
}

/// Whether an object is a button that can be clicked.
pub open spec fn clickable_button(w: WorldView) -> spec_fn(nat, ObjectView) -> bool {
    |i: nat, o: ObjectView|
        match o {
            ObjectView::Instance { class_name, .. } => class_name == "Landroid/widget/Button;"@
                && table::lookup(w.click_listeners, i as u32) is Some,
            _ => false,
        }
}

/// The view that the activity of the lowest number shows.
pub open spec fn first_shown(shown: Seq<(u32, u32)>) -> Option<(u32, u32)>
    decreases shown.len(),
{
    if shown.len() == 0 {
        None
    } else {
        match first_shown(shown.drop_last()) {
            Some(e) if e.0 <= shown.last().0 => Some(e),
            _ => Some(shown.last()),
        }
    }
}

fn find_first_shown(shown: &Vec<(u32, u32)>) -> (r: Option<(u32, u32)>)
    ensures
        r == first_shown(shown@),
{
    let mut r: Option<(u32, u32)> = None;
    let mut i: usize = 0;
    while i < shown.len()
        invariant
            i <= shown.len(),
            r == first_shown(shown@.take(i as int)),
        decreases shown.len() - i,
    {
        assert(shown@.take(i as int + 1).drop_last() =~= shown@.take(i as int));
        r = match r {
            Some(e) if e.0 <= shown[i].0 => Some(e),
            _ => Some(shown[i]),
        };
        i += 1;
    }
    assert(shown@.take(i as int) =~= shown@);
    r
}

impl VmView {
    /// The view that draws the game, or else the view that the first activity shows.
    pub open spec fn drawing_view(self) -> Option<ObjectId> {
        match first_object(self.world.heap, 0, draws(self.dex)) {
            Some(id) => Some(id),
            None => match first_shown(self.world.framework.content_views) {
                Some(shown) if self.world.class_of(shown.1) is Some => Some(shown.1),
                _ => None,
            },
        }
    }

    pub open spec fn clickable_view(self, nodes: Seq<(u32, i32)>, id: i32) -> Option<ObjectId> {
        match first_object(self.world.heap, 0, clickable(self.world, nodes, id)) {
            Some(found) => Some(found),
            None => first_object(self.world.heap, 0, clickable_button(self.world)),
        }
    }
}

impl<'a> Vm<'a> {
    pub fn instance_exists(&self, object: ObjectId) -> (r: bool)
        ensures
            r == (self@.world.class_of(object) is Some),
    {
        self.world.class_name(object).is_some()
    }

    pub fn find_instance_by_class(&self, class_name: &str) -> (r: Option<ObjectId>)
        ensures
            r == first_object(self@.world.heap, 0, of_class(class_name@)),
    {
        let ghost heap = self@.world.heap;
        let ghost picks = of_class(class_name@);
        let mut i: usize = 0;
        while i < self.world.heap.len()
            invariant
                i <= self.world.heap.len(),
                heap == value::heap_view(self.world.heap@),
                picks == of_class(class_name@),
                first_object(heap, 0, picks) == first_object(heap, i as nat, picks),
            decreases self.world.heap.len() - i,
        {
            assert(heap[i as int] == self.world.heap@[i as int]@);
            match &self.world.heap[i] {
                HeapObject::Instance { class_name: c, .. } => {
                    if text::same(c.as_str(), class_name) {
                        return Some(i as ObjectId);
                    }
                },
                _ => {},
            }
            i += 1;
        }
        None
    }

    pub fn has_instance_method(&self, object: ObjectId, method_name: &str) -> (r: bool)
        ensures
            r == match self@.world.class_of(object) {
                Some(class_name) => has_code(&self@.dex, class_name, method_name@),
                None => false,
            },
    {
        match self.world.class_name(object) {
            Some(class_name) => find_method(
                self.dex,
                class_name,
                method_name,
                None,
                true,
            ).is_some(),
            None => false,
        }
    }

    pub fn instance_class_names(&self) -> (r: Vec<String>)
        ensures
            host::texts(r@) == class_names(self@.world.heap),
    {
        let ghost heap = self@.world.heap;
        let mut r: Vec<String> = Vec::new();
        let mut i: usize = 0;
        assert(heap.take(0) =~= Seq::empty());
        assert(host::texts(r@) =~= Seq::empty());
        while i < self.world.heap.len()
            invariant
                i <= self.world.heap.len(),
                heap == value::heap_view(self.world.heap@),
                host::texts(r@) == class_names(heap.take(i as int)),
            decreases self.world.heap.len() - i,
        {
            assert(heap.take(i as int + 1).drop_last() =~= heap.take(i as int));
            let ghost before = r@;
            match &self.world.heap[i] {
                HeapObject::Instance { class_name, .. } => {
                    r.push(class_name.clone());
                    assert(host::texts(r@) =~= host::texts(before).push(class_name@));
                },
                _ => {},
            }
            i += 1;
        }
        assert(heap.take(i as int) =~= heap);
        r
    }

    pub fn find_render_view(&self) -> (r: Option<ObjectId>)
        ensures
            r == first_object(self@.world.heap, 0, draws(self@.dex)),
    {
        let ghost heap = self@.world.heap;
        let ghost picks = draws(self@.dex);
        let mut i: usize = 0;
        while i < self.world.heap.len()
            invariant
                i <= self.world.heap.len(),
                heap == value::heap_view(self.world.heap@),
                picks == draws(*self.dex),
                first_object(heap, 0, picks) == first_object(heap, i as nat, picks),
            decreases self.world.heap.len() - i,
        {
            assert(heap[i as int] == self.world.heap@[i as int]@);
            match &self.world.heap[i] {
                HeapObject::Instance { class_name, .. } => {
                    let name = class_name.as_str();
                    if text::ends_with(name, "/GameView;") && find_method(
                        self.dex,
                        name,
                        "onDraw",
                        None,
                        true,
                    ).is_some() {
                        return Some(i as ObjectId);
                    }
                },
                _ => {},
            }
            i += 1;
        }
        None
    }

    pub fn find_render_view_or_content_view(&self) -> (r: Option<ObjectId>)
        ensures
            r == self@.drawing_view(),
    {
        match self.find_render_view() {
            Some(id) => Some(id),
            None => match find_first_shown(&self.world.framework.content_views) {
                Some(shown) if self.instance_exists(shown.1) => Some(shown.1),
                _ => None,
            },
        }
    }

    fn find_view_of_id(&self, id: i32, nodes: &Vec<(u32, i32)>) -> (r: Option<ObjectId>)
        ensures
            r == first_object(self@.world.heap, 0, clickable(self@.world, nodes@, id)),
    {
        let ghost heap = self@.world.heap;
        let ghost picks = clickable(self@.world, nodes@, id);
        let mut i: usize = 0;
        while i < self.world.heap.len()
            invariant
                i <= self.world.heap.len(),
                heap == value::heap_view(self.world.heap@),
                picks == clickable(self@.world, nodes@, id),
                first_object(heap, 0, picks) == first_object(heap, i as nat, picks),
            decreases self.world.heap.len() - i,
        {
            assert(heap[i as int] == self.world.heap@[i as int]@);
            match &self.world.heap[i] {
                HeapObject::Instance { fields, .. } => {
                    let own = match get_named(fields, "view_id") {
                        Some(Value::Int(n)) => *n == id,
                        _ => false,
                    };
                    let placed = match get_id(nodes, i as u32) {
                        Some(n) => n == id,
                        None => false,
                    };
                    if (own || placed) && get_id(
                        &self.world.click_listeners,
                        i as u32,
                    ).is_some() {
                        return Some(i as ObjectId);
                    }
                },
                _ => {},
            }
            i += 1;
        }
        None
    }

    fn find_button(&self) -> (r: Option<ObjectId>)
        ensures
            r == first_object(self@.world.heap, 0, clickable_button(self@.world)),
    {
        let ghost heap = self@.world.heap;
        let ghost picks = clickable_button(self@.world);
        let mut i: usize = 0;
        while i < self.world.heap.len()
            invariant
                i <= self.world.heap.len(),
                heap == value::heap_view(self.world.heap@),
                picks == clickable_button(self@.world),
                first_object(heap, 0, picks) == first_object(heap, i as nat, picks),
            decreases self.world.heap.len() - i,
        {
            assert(heap[i as int] == self.world.heap@[i as int]@);
            match &self.world.heap[i] {
                HeapObject::Instance { class_name, .. } => {
                    if text::same(class_name.as_str(), "Landroid/widget/Button;") && get_id(
                        &self.world.click_listeners,
                        i as u32,
                    ).is_some() {
                        return Some(i as ObjectId);
                    }
                },
                _ => {},
            }
            i += 1;
        }
        None
    }

    /// The view of an id that can be clicked, or else any button that can. `nodes` gives the
    /// ids that the views have in their surroundings.
    pub fn find_clickable_view(&self, id: i32, nodes: &Vec<(u32, i32)>) -> (r: Option<ObjectId>)
        ensures
            r == self@.clickable_view(nodes@, id),
    {
        match self.find_view_of_id(id, nodes) {
            Some(found) => Some(found),
            None => self.find_button(),
        }
    }
}

} // verus!
