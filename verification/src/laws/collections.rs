//! Lists and arrays: what they hold, copying and sorting.

use vstd::prelude::*;

use crate::error::ErrorView;
use crate::framework::lists;
use crate::framework::sorting;
use crate::framework::sorting::Keyed;
use crate::framework::system;
use crate::host::AnswerView;
use crate::value;
use crate::value::{ObjectId, ObjectView, ValueView};
use crate::world::WorldView;

verus! {

// Lists.

/// These names are different.
proof fn lemma_list_methods()
    ensures
        "isEmpty"@ != "size"@,
        "add"@ != "size"@,
        "add"@ != "isEmpty"@,
        "addElement"@ != "size"@,
        "addElement"@ != "isEmpty"@,
        "addElement"@ != "add"@,
        "get"@ != "size"@,
        "get"@ != "isEmpty"@,
        "get"@ != "add"@,
        "get"@ != "addElement"@,
        "elementAt"@ != "size"@,
        "elementAt"@ != "isEmpty"@,
        "elementAt"@ != "add"@,
        "elementAt"@ != "addElement"@,
        "elementAt"@ != "get"@,
        "clear"@ != "size"@,
        "clear"@ != "isEmpty"@,
        "clear"@ != "add"@,
        "clear"@ != "addElement"@,
        "clear"@ != "get"@,
        "clear"@ != "elementAt"@,
{
    reveal_strlit("size");
    reveal_strlit("isEmpty");
    reveal_strlit("add");
    reveal_strlit("addElement");
    reveal_strlit("get");
    reveal_strlit("elementAt");
    reveal_strlit("clear");
    assert("size"@.len() == 4);
    assert("isEmpty"@.len() == 7);
    assert("add"@.len() == 3);
    assert("addElement"@.len() == 10);
    assert("get"@.len() == 3);
    assert("elementAt"@.len() == 9);
    assert("clear"@.len() == 5);
    assert("get"@[0] == 'g' && "add"@[0] == 'a');
}

/// Whether a world differs from another in the values of one list alone.
pub open spec fn lists_now(
    before: WorldView,
    after: WorldView,
    id: ObjectId,
    values: Seq<ValueView>,
) -> bool {
    &&& after == WorldView { heap: after.heap, ..before }
    &&& after.heap.len() == before.heap.len()
    &&& after.object(id) == Some(ObjectView::Collection(values))
    &&& forall|i: int|
        0 <= i < before.heap.len() && i != id ==> #[trigger] after.heap[i] == before.heap[i]
}

/// What the methods of a list do: it has a size and is empty without values, it takes values at
/// its end and gives each by its index, and nothing where there is none.
pub proof fn a_list_holds_what_was_added(
    w: WorldView,
    id: ObjectId,
    values: Seq<ValueView>,
    v: ValueView,
    index: i32,
)
    requires
        w.object(id) == Some(ObjectView::Collection(values)),
        values.len() <= i32::MAX,
    ensures
        ({
            let (after, r) = lists::list(w, "size"@, seq![ValueView::Object(id)]);
            after == w && (r matches Ok(ValueView::Int(n)) && n == values.len())
        }),
        ({
            let (after, r) = lists::list(w, "isEmpty"@, seq![ValueView::Object(id)]);
            after == w && (r matches Ok(ValueView::Int(n)) && (n == 1 <==> values.len() == 0) && (n
                == 0 <==> values.len() > 0))
        }),
        ({
            let (after, r) = lists::list(w, "add"@, seq![ValueView::Object(id), v]);
            lists_now(w, after, id, values.push(v)) && r == Ok::<ValueView, ErrorView>(
                ValueView::Int(1),
            )
        }),
        ({
            let (after, r) = lists::list(w, "addElement"@, seq![ValueView::Object(id), v]);
            lists_now(w, after, id, values.push(v)) && r == Ok::<ValueView, ErrorView>(
                ValueView::Void,
            )
        }),
        ({
            let at = if 0 <= index < values.len() {
                values[index as int]
            } else {
                ValueView::Null
            };
            let args = seq![ValueView::Object(id), ValueView::Int(index)];
            &&& lists::list(w, "get"@, args) == (w, Ok::<ValueView, ErrorView>(at))
            &&& lists::list(w, "elementAt"@, args) == (w, Ok::<ValueView, ErrorView>(at))
        }),
        ({
            let (after, r) = lists::list(w, "clear"@, seq![ValueView::Object(id)]);
            lists_now(w, after, id, Seq::empty()) && r == Ok::<ValueView, ErrorView>(
                ValueView::Void,
            )
        }),
{
    lemma_list_methods();
    let bare = seq![ValueView::Object(id)];
    let one = seq![ValueView::Object(id), v];
    let by = seq![ValueView::Object(id), ValueView::Int(index)];
    assert(value::at(bare, 0) == Some(ValueView::Object(id)));
    assert(value::at(one, 0) == Some(ValueView::Object(id)) && value::at(one, 1) == Some(v));
    assert(value::at(by, 0) == Some(ValueView::Object(id)));
    assert(value::at(by, 1) == Some(ValueView::Int(index)));
}

// Copying between arrays.

/// These names are different.
proof fn lemma_system_methods()
    ensures
        "loadLibrary"@ != "nanoTime"@,
        "load"@ != "nanoTime"@,
        "load"@ != "loadLibrary"@,
        "arraycopy"@ != "nanoTime"@,
        "arraycopy"@ != "loadLibrary"@,
        "arraycopy"@ != "load"@,
{
    reveal_strlit("nanoTime");
    reveal_strlit("loadLibrary");
    reveal_strlit("load");
    reveal_strlit("arraycopy");
    assert("nanoTime"@.len() == 8);
    assert("loadLibrary"@.len() == 11);
    assert("load"@.len() == 4);
    assert("arraycopy"@.len() == 9);
}

/// Copying a part of an array over a part of another puts each element where it is asked for, as
/// it was before, and leaves the other elements and objects. A part outside of either is an error
/// that changes nothing.
pub proof fn a_part_of_an_array_is_copied(
    w: WorldView,
    answers: Seq<AnswerView>,
    source: ObjectId,
    from: i32,
    target: ObjectId,
    to: i32,
    length: i32,
    kind: Seq<char>,
    values: Seq<ValueView>,
    component: Seq<char>,
    before: Seq<ValueView>,
    index: int,
)
    requires
        w.object(source) == Some(ObjectView::Array { component: kind, values }),
        w.object(target) == Some(ObjectView::Array { component, values: before }),
        length >= 0,
        0 <= index < before.len(),
    ensures
        ({
            let args = seq![
                ValueView::Object(source),
                ValueView::Int(from),
                ValueView::Object(target),
                ValueView::Int(to),
                ValueView::Int(length),
            ];
            let (after, r) = system::system(w, "arraycopy"@, args, answers);
            if from < 0 || to < 0 || from + length > values.len() || to + length > before.len() {
                r is Err && after == w
            } else {
                &&& r == Ok::<ValueView, ErrorView>(ValueView::Void)
                &&& after.heap.len() == w.heap.len()
                &&& forall|i: int|
                    0 <= i < w.heap.len() && i != target ==> #[trigger] after.heap[i] == w.heap[i]
                &&& after.object(target) matches Some(
                    ObjectView::Array { component: c, values: now },
                ) && c == component && now.len() == before.len() && now[index] == if to <= index
                    < to + length {
                    values[from + (index - to)]
                } else {
                    before[index]
                }
            }
        }),
{
    lemma_system_methods();
    let args = seq![
        ValueView::Object(source),
        ValueView::Int(from),
        ValueView::Object(target),
        ValueView::Int(to),
        ValueView::Int(length),
    ];
    assert(value::at(args, 0) == Some(ValueView::Object(source)));
    assert(value::at(args, 1) == Some(ValueView::Int(from)));
    assert(value::at(args, 2) == Some(ValueView::Object(target)));
    assert(value::at(args, 3) == Some(ValueView::Int(to)));
    assert(value::at(args, 4) == Some(ValueView::Int(length)));
}

// Arrays of arrays.

/// An array of one dimension has as many elements as asked for, each blank for its type: zero for
/// numbers, null for objects.
pub proof fn a_made_array_is_blank(
    w: WorldView,
    class: ObjectId,
    component: Seq<char>,
    length: i32,
    index: int,
)
    requires
        w.object(class) == Some(ObjectView::Class(component)),
        w.heap.len() <= u32::MAX,
        length >= 0,
        0 <= index < length,
    ensures
        ({
            let args = seq![ValueView::Object(class), ValueView::Int(length)];
            let (after, r) = lists::new_array(w, args);
            &&& r matches Ok(ValueView::Object(id)) && id == w.heap.len()
            &&& after.heap.len() == w.heap.len() + 1
            &&& after.heap.last() matches ObjectView::Array { component: c, values } && c
                == component && values.len() == length && (component == "I"@ ==> values[index]
                == ValueView::Int(0)) && (component == "F"@ ==> values[index] == ValueView::Float(
                0,
            )) && (component == "J"@ ==> values[index] == ValueView::Long(0)) && (component
                == "D"@ ==> values[index] == ValueView::Double(0)) && (component.len() > 1
                ==> values[index] == ValueView::Null)
        }),
{
    let args = seq![ValueView::Object(class), ValueView::Int(length)];
    assert(value::at(args, 0) == Some(ValueView::Object(class)));
    assert(value::at(args, 1) == Some(ValueView::Int(length)));
    reveal_strlit("I");
    reveal_strlit("Z");
    reveal_strlit("B");
    reveal_strlit("S");
    reveal_strlit("C");
    reveal_strlit("F");
    reveal_strlit("J");
    reveal_strlit("D");
    assert("I"@[0] == 'I' && "Z"@[0] == 'Z' && "B"@[0] == 'B' && "S"@[0] == 'S');
    assert("C"@[0] == 'C' && "F"@[0] == 'F' && "J"@[0] == 'J' && "D"@[0] == 'D');
    assert("I"@.len() == 1 && "Z"@.len() == 1 && "B"@.len() == 1 && "S"@.len() == 1);
    assert("C"@.len() == 1 && "F"@.len() == 1 && "J"@.len() == 1 && "D"@.len() == 1);
    let dims = lists::dimensions(w, args)->Ok_0;
    assert(dims.len() == 1 && dims[0] == length);
}

proof fn lemma_rows(w: WorldView, component: Seq<char>, width: u64, count: nat)
    requires
        w.heap.len() + count <= u32::MAX,
    ensures
        ({
            let (after, rows) = lists::rows_made(w, component, seq![width], count);
            &&& rows.len() == count
            &&& after.heap.len() == w.heap.len() + count
            &&& forall|i: int| 0 <= i < w.heap.len() ==> #[trigger] after.heap[i] == w.heap[i]
            &&& forall|i: int|
                0 <= i < count ==> (#[trigger] rows[i] matches ValueView::Object(id) && id
                    == w.heap.len() + i) && (after.heap[w.heap.len() + i] matches ObjectView::Array {
                    component: c,
                    values,
                } && c == component && values.len() == width)
        }),
    decreases count,
{
    if count > 0 {
        lemma_rows(w, component, width, (count - 1) as nat);
        let (before, rows) = lists::rows_made(w, component, seq![width], (count - 1) as nat);
        let (after, id) = lists::array_made(before, component, seq![width]);
        assert(seq![width].len() == 1 && seq![width][0] == width);
        assert(after.heap.last() matches ObjectView::Array { component: c, values } && c
            == component && values.len() == width);
    }
}

/// An array of two dimensions is an array of as many new arrays as the first says, each as long as
/// the second says.
pub proof fn an_array_of_arrays_has_its_dimensions(
    w: WorldView,
    component: Seq<char>,
    height: u64,
    width: u64,
)
    requires
        w.heap.len() + height < u32::MAX,
    ensures
        ({
            let (after, id) = lists::array_made(w, component, seq![height, width]);
            &&& after.heap.len() == w.heap.len() + height + 1
            &&& id == w.heap.len() + height
            &&& after.heap.last() matches ObjectView::Array { component: c, values } && c
                == component && values.len() == height && forall|i: int|
                0 <= i < height ==> (#[trigger] values[i] matches ValueView::Object(row)
                    && after.object(row) matches Some(ObjectView::Array { values: cells, .. })
                    && cells.len() == width)
        }),
{
    let dims = seq![height, width];
    assert(dims.skip(1) =~= seq![width]);
    assert(dims[0] == height);
    lemma_rows(w, component, width, height as nat);
    let (before, rows) = lists::rows_made(w, component, seq![width], height as nat);
    let (after, id) = lists::array_made(w, component, dims);
    assert forall|i: int| 0 <= i < height implies (#[trigger] rows[i] matches ValueView::Object(row)
        && after.object(row) matches Some(ObjectView::Array { values: cells, .. })
        && cells.len() == width) by {
        assert(after.heap[w.heap.len() + i] == before.heap[w.heap.len() + i]);
    }
}

// Sorting.

/// Of two texts the one that has the lower character at the first difference comes first, or the
/// one that the other only continues.
pub proof fn texts_are_sorted_by_their_characters(
    common: Seq<char>,
    a: Seq<char>,
    b: Seq<char>,
)
    requires
        a.len() > 0 && b.len() > 0 ==> a[0] != b[0],
    ensures
        sorting::text_order(common + a, common + b) < 0 <==> (a.len() == 0 && b.len() > 0) || (
        a.len() > 0 && b.len() > 0 && (a[0] as int) < b[0] as int),
        sorting::text_order(common + a, common + b) > 0 <==> (b.len() == 0 && a.len() > 0) || (
        a.len() > 0 && b.len() > 0 && a[0] as int > b[0] as int),
        sorting::text_order(common + a, common + b) == 0 <==> a.len() == 0 && b.len() == 0,
    decreases common.len(),
{
    let (s, t) = (common + a, common + b);
    if common.len() == 0 {
        assert(s =~= a && t =~= b);
    } else {
        assert(s.skip(1) =~= common.skip(1) + a);
        assert(t.skip(1) =~= common.skip(1) + b);
        assert(s[0] == common[0] && t[0] == common[0]);
        texts_are_sorted_by_their_characters(common.skip(1), a, b);
    }
}

pub proof fn lemma_keyed(values: Seq<ValueView>, numbers: Seq<Seq<char>>)
    ensures
        sorting::keyed(values, numbers).len() == values.len(),
        forall|i: int|
            0 <= i < values.len() ==> (#[trigger] sorting::keyed(values, numbers)[i]).0
                == values[i],
    decreases values.len(),
{
    if values.len() > 0 {
        lemma_keyed(values.drop_last(), numbers);
    }
}

/// Whether integers stand in ascending order.
pub open spec fn ascending(values: Seq<ValueView>) -> bool {
    forall|i: int, j: int|
        0 <= i <= j < values.len() ==> (#[trigger] values[i] matches ValueView::Int(a) && (
        #[trigger] values[j] matches ValueView::Int(b) && a <= b))
}

/// Sorting a list of integers leaves the same number of values, each of them one that was there,
/// in ascending order.
pub proof fn a_list_of_integers_is_sorted_upwards(
    w: WorldView,
    id: ObjectId,
    values: Seq<ValueView>,
    answers: Seq<AnswerView>,
)
    requires
        w.object(id) == Some(ObjectView::Collection(values)),
        forall|i: int| 0 <= i < values.len() ==> (#[trigger] values[i]) is Int,
    ensures
        ({
            let (after, r) = sorting::sort(w, seq![ValueView::Object(id)], answers);
            &&& r == Ok::<ValueView, ErrorView>(ValueView::Void)
            &&& after.object(id) matches Some(ObjectView::Collection(sorted)) && ascending(sorted)
                && sorted.len() == values.len() && sorted.to_multiset() == values.to_multiset()
        }),
{
    let args = seq![ValueView::Object(id)];
    assert(value::at(args, 0) == Some(ValueView::Object(id)));
    let items = sorting::keyed(values, sorting::numbers_in(answers));
    lemma_keyed(values, sorting::numbers_in(answers));
    assert forall|x: Keyed| items.contains(x) implies x.0 is Int by {
        let i = choose|i: int| 0 <= i < items.len() && items[i] == x;
        assert(values[i] is Int);
    }
    assert(sorting::sortable(items));
    sorting::sorting_sorts(items);
    sorting::sorting_keeps_values(items);
    let sorted = sorting::in_order(items);
    let parts = sorting::first_parts(sorted);
    assert forall|i: int| 0 <= i < sorted.len() implies (#[trigger] sorted[i]).0 is Int by {
        sorting::lemma_same_items(sorted, items, sorted[i]);
        assert(sorted.contains(sorted[i]));
    }
    assert forall|i: int, j: int| 0 <= i <= j < parts.len() implies (
    #[trigger] parts[i] matches ValueView::Int(a) && (#[trigger] parts[j] matches ValueView::Int(b)
        && a <= b)) by {
        assert(parts[i] == sorted[i].0 && parts[j] == sorted[j].0);
        if i < j {
            assert(sorting::keyed_order(sorted[i], sorted[j]) <= 0);
        }
    }
    lemma_first_parts(sorted, items);
    assert(sorting::first_parts(items) =~= values);
}

/// The first parts of the same pairs are the same values.
proof fn lemma_first_parts(a: Seq<Keyed>, b: Seq<Keyed>)
    requires
        a.to_multiset() == b.to_multiset(),
    ensures
        sorting::first_parts(a).to_multiset() == sorting::first_parts(b).to_multiset(),
    decreases a.len(),
{
    broadcast use vstd::seq_lib::group_to_multiset_ensures;

    assert(a.len() == a.to_multiset().len());
    assert(b.len() == b.to_multiset().len());
    if a.len() == 0 {
        assert(sorting::first_parts(a) =~= sorting::first_parts(b));
    } else {
        let x = a.last();
        assert(a[a.len() - 1] == x && a.contains(x));
        sorting::lemma_same_items(a, b, x);
        let k = choose|k: int| 0 <= k < b.len() && b[k] == x;
        let rest = b.remove(k);
        assert(a.drop_last().push(x) =~= a);
        assert(a.to_multiset() =~= a.drop_last().to_multiset().insert(x));
        assert(b.to_multiset() =~= rest.to_multiset().insert(x)) by {
            assert(rest.insert(k, x) =~= b);
            vstd::seq_lib::to_multiset_insert(rest, k, x);
        }
        assert(a.drop_last().to_multiset() =~= b.to_multiset().remove(x));
        assert(rest.to_multiset() =~= b.to_multiset().remove(x));
        lemma_first_parts(a.drop_last(), rest);
        let (p, q) = (sorting::first_parts(a), sorting::first_parts(b));
        assert(p.drop_last() =~= sorting::first_parts(a.drop_last()));
        assert(p =~= p.drop_last().push(x.0));
        assert(sorting::first_parts(rest) =~= q.remove(k));
        assert(q.remove(k).insert(k, x.0) =~= q);
        vstd::seq_lib::to_multiset_insert(q.remove(k), k, x.0);
        assert(p.to_multiset() =~= p.drop_last().to_multiset().insert(x.0));
    }
}

} // verus!
