//! Sorting a list.

use vstd::prelude::*;
use vstd::seq_lib::*;

use crate::convert;
use crate::convert::{object_arg, order_of_values, value_sort_key};
use crate::error;
use crate::error::{failure, VmError};
use crate::float;
use crate::host;
use crate::host::{Answer, AnswerView, Answers, Query, QueryView};
use crate::text;
use crate::value;
use crate::value::{copy_values, push_value, HeapObject, ObjectId, ObjectView, Value, ValueView};
use crate::world::{Effected, World, WorldView};

verus! {

/// The order of two texts, by their characters.
pub open spec fn text_order(a: Seq<char>, b: Seq<char>) -> int
    decreases a.len(),
{
    if a.len() == 0 && b.len() == 0 {
        0
    } else if a.len() == 0 {
        -1
    } else if b.len() == 0 {
        1
    } else if a[0] != b[0] {
        float::order(a[0] as int, b[0] as int)
    } else {
        text_order(a.skip(1), b.skip(1))
    }
}

/// A value with the text by which it is sorted where it cannot be compared.
pub type Keyed = (ValueView, Seq<char>);

/// The order of two values of a list.
pub open spec fn keyed_order(a: Keyed, b: Keyed) -> int {
    match convert::comparison(a.0, b.0) {
        Some(order) => order as int,
        None => text_order(a.1, b.1),
    }
}

/// A value put into a sorted list, behind all that are not greater.
pub open spec fn inserted(sorted: Seq<Keyed>, item: Keyed) -> Seq<Keyed>
    decreases sorted.len(),
{
    if sorted.len() > 0 && keyed_order(sorted.last(), item) > 0 {
        inserted(sorted.drop_last(), item).push(sorted.last())
    } else {
        sorted.push(item)
    }
}

pub open spec fn in_order(items: Seq<Keyed>) -> Seq<Keyed>
    decreases items.len(),
{
    if items.len() == 0 {
        items
    } else {
        inserted(in_order(items.drop_last()), items.last())
    }
}

/// Whether the order of the items is one: what stands before stands before all that follow.
pub open spec fn ordered(items: Seq<Keyed>) -> bool {
    forall|i: int, j: int| 0 <= i < j < items.len() ==> #[trigger] keyed_order(
        items[i],
        items[j],
    ) <= 0
}

/// Whether the values of a list can be sorted: the order is the same seen from both sides, and
/// what is not greater than a second is not greater than all that the second is not greater
/// than.
pub open spec fn sortable(items: Seq<Keyed>) -> bool {
    &&& forall|a: Keyed, b: Keyed|
        items.contains(a) && items.contains(b) && #[trigger] keyed_order(a, b) > 0 ==> keyed_order(
            b,
            a,
        ) <= 0
    &&& forall|a: Keyed, b: Keyed, c: Keyed|
        items.contains(a) && items.contains(b) && items.contains(c) && #[trigger] keyed_order(a, b)
            <= 0 && #[trigger] keyed_order(b, c) <= 0 ==> keyed_order(a, c) <= 0
}

pub proof fn lemma_inserted(sorted: Seq<Keyed>, item: Keyed)
    ensures
        inserted(sorted, item).to_multiset() == sorted.push(item).to_multiset(),
        inserted(sorted, item).len() == sorted.len() + 1,
    decreases sorted.len(),
{
    broadcast use vstd::seq_lib::group_to_multiset_ensures;

    if sorted.len() > 0 && keyed_order(sorted.last(), item) > 0 {
        lemma_inserted(sorted.drop_last(), item);
        assert(sorted.drop_last().push(sorted.last()) =~= sorted);
        assert(sorted.to_multiset() =~= sorted.drop_last().to_multiset().insert(sorted.last()));
    }
}

/// Sorting keeps the values.
pub proof fn sorting_keeps_values(items: Seq<Keyed>)
    ensures
        in_order(items).to_multiset() == items.to_multiset(),
        in_order(items).len() == items.len(),
    decreases items.len(),
{
    broadcast use vstd::seq_lib::group_to_multiset_ensures;

    if items.len() > 0 {
        let rest = items.drop_last();
        sorting_keeps_values(rest);
        lemma_inserted(in_order(rest), items.last());
        assert(rest.push(items.last()) =~= items);
    }
}

pub proof fn lemma_same_items(a: Seq<Keyed>, b: Seq<Keyed>, x: Keyed)
    requires
        a.to_multiset() == b.to_multiset(),
    ensures
        a.contains(x) == b.contains(x),
{
    broadcast use vstd::seq_lib::group_to_multiset_ensures;

    assert(a.to_multiset().contains(x) == b.to_multiset().contains(x));
    assert(a.contains(x) <==> a.to_multiset().count(x) > 0);
    assert(b.contains(x) <==> b.to_multiset().count(x) > 0);
}

proof fn lemma_insert_ordered(sorted: Seq<Keyed>, item: Keyed, all: Seq<Keyed>)
    requires
        ordered(sorted),
        sortable(all),
        forall|x: Keyed| sorted.contains(x) ==> all.contains(x),
        all.contains(item),
    ensures
        ordered(inserted(sorted, item)),
    decreases sorted.len(),
{
    let after = inserted(sorted, item);
    if sorted.len() > 0 && keyed_order(sorted.last(), item) > 0 {
        let rest = sorted.drop_last();
        let last = sorted.last();
        assert forall|i: int, j: int| 0 <= i < j < rest.len() implies #[trigger] keyed_order(
            rest[i],
            rest[j],
        ) <= 0 by {
            assert(keyed_order(sorted[i], sorted[j]) <= 0);
        }
        assert forall|x: Keyed| rest.contains(x) implies all.contains(x) by {
            let k = choose|k: int| 0 <= k < rest.len() && rest[k] == x;
            assert(sorted[k] == x);
        }
        lemma_insert_ordered(rest, item, all);
        let before = inserted(rest, item);
        lemma_inserted(rest, item);
        assert(sorted.contains(last));
        assert forall|i: int, j: int| 0 <= i < j < after.len() implies #[trigger] keyed_order(
            after[i],
            after[j],
        ) <= 0 by {
            if j < before.len() {
                assert(keyed_order(before[i], before[j]) <= 0);
            } else {
                let x = before[i];
                assert(after[i] == x && after[j] == last);
                assert(before.contains(x));
                lemma_same_items(before, rest.push(item), x);
                let k = choose|k: int| 0 <= k < rest.push(item).len() && rest.push(item)[k] == x;
                if k < rest.len() {
                    assert(sorted[k] == x);
                    assert(keyed_order(sorted[k], sorted[sorted.len() - 1]) <= 0);
                } else {
                    assert(x == item);
                    assert(keyed_order(last, item) > 0);
                }
            }
        }
    } else {
        assert forall|i: int, j: int| 0 <= i < j < after.len() implies #[trigger] keyed_order(
            after[i],
            after[j],
        ) <= 0 by {
            if j < sorted.len() {
                assert(keyed_order(sorted[i], sorted[j]) <= 0);
            } else if i == sorted.len() - 1 {
            } else {
                let last = sorted.last();
                assert(keyed_order(sorted[i], sorted[sorted.len() - 1]) <= 0);
                assert(sorted.contains(sorted[i]) && sorted.contains(last));
                assert(keyed_order(last, item) <= 0);
            }
        }
    }
}

/// A list whose values can be sorted comes out sorted.
pub proof fn sorting_sorts(items: Seq<Keyed>)
    requires
        sortable(items),
    ensures
        ordered(in_order(items)),
    decreases items.len(),
{
    if items.len() > 0 {
        let rest = items.drop_last();
        assert forall|x: Keyed| rest.contains(x) implies items.contains(x) by {
            let k = choose|k: int| 0 <= k < rest.len() && rest[k] == x;
            assert(items[k] == x);
        }
        assert(sortable(rest));
        sorting_sorts(rest);
        sorting_keeps_values(rest);
        assert forall|x: Keyed| in_order(rest).contains(x) implies items.contains(x) by {
            lemma_same_items(in_order(rest), rest, x);
        }
        assert(items[items.len() - 1] == items.last());
        lemma_insert_ordered(in_order(rest), items.last(), items);
    }
}

/// The texts of the floating-point values of a list, in its order, next to the values. Texts
/// that are missing are empty.
pub open spec fn keyed(values: Seq<ValueView>, numbers: Seq<Seq<char>>) -> Seq<Keyed>
    decreases values.len(),
{
    if values.len() == 0 {
        Seq::empty()
    } else {
        let before = values.drop_last();
        let used = error::floats_among(before).len();
        let number = if used < numbers.len() {
            numbers[used as int]
        } else {
            Seq::empty()
        };
        keyed(before, numbers).push((values.last(), convert::sort_text(values.last(), number)))
    }
}

pub open spec fn numbers_in(answers: Seq<AnswerView>) -> Seq<Seq<char>> {
    if answers.len() > 0 && answers[0] is Texts {
        answers[0]->Texts_0
    } else {
        Seq::empty()
    }
}

pub open spec fn first_parts(items: Seq<Keyed>) -> Seq<ValueView> {
    items.map_values(|k: Keyed| k.0)
}

/// The list that is to be sorted.
pub open spec fn list_of(w: WorldView, args: Seq<ValueView>) -> Option<(ObjectId, Seq<ValueView>)> {
    match convert::reference_arg(args, 0) {
        Err(_) => None,
        Ok(id) => match w.object(id) {
            Some(ObjectView::Collection(values)) => Some((id, values)),
            _ => None,
        },
    }
}

/// Sorting asks for the texts of the floating-point values.
pub open spec fn sort_question(
    w: WorldView,
    args: Seq<ValueView>,
    answers: Seq<AnswerView>,
) -> Option<QueryView> {
    match list_of(w, args) {
        Some((_, values)) => if answers.len() == 0 && error::floats_among(values).len() > 0 {
            Some(QueryView::Numbers(error::floats_among(values)))
        } else {
            None
        },
        None => None,
    }
}

/// `Collections.sort`: values of one type by their order, others by their texts.
pub open spec fn sort(w: WorldView, args: Seq<ValueView>, answers: Seq<AnswerView>) -> Effected {
    match convert::reference_arg(args, 0) {
        Err(e) => (w, Err(e)),
        Ok(_) => match list_of(w, args) {
            None => (
                w,
                Err(error::fault(0, 0, "Collections.sort target is not a collection"@)),
            ),
            Some((id, values)) => (
                w.replaced(
                    id,
                    ObjectView::Collection(
                        first_parts(in_order(keyed(values, numbers_in(answers)))),
                    ),
                ),
                Ok(ValueView::Void),
            ),
        },
    }
}

fn order_texts(a: &str, b: &str) -> (r: i32)
    ensures
        r == text_order(a@, b@),
{
    let x = text::chars_of(a);
    let y = text::chars_of(b);
    let mut i: usize = 0;
    assert(a@.skip(0) =~= a@);
    assert(b@.skip(0) =~= b@);
    while i < x.len() && i < y.len()
        invariant
            i <= x.len(),
            i <= y.len(),
            x@ == a@,
            y@ == b@,
            text_order(a@, b@) == text_order(a@.skip(i as int), b@.skip(i as int)),
        decreases x.len() - i,
    {
        assert(a@.skip(i as int)[0] == x[i as int]);
        assert(b@.skip(i as int)[0] == y[i as int]);
        assert(a@.skip(i as int).skip(1) =~= a@.skip(i as int + 1));
        assert(b@.skip(i as int).skip(1) =~= b@.skip(i as int + 1));
        let c: char = x[i];
        let d: char = y[i];
        if c != d {
            return if c < d {
                -1
            } else {
                1
            };
        }
        i += 1;
    }
    if i < x.len() {
        1
    } else if i < y.len() {
        -1
    } else {
        0
    }
}

pub open spec fn pairs(items: Seq<(Value, String)>) -> Seq<Keyed> {
    items.map_values(|k: (Value, String)| (k.0@, k.1@))
}

fn order_pairs(a: &(Value, String), b: &(Value, String)) -> (r: i32)
    ensures
        r == keyed_order((a.0@, a.1@), (b.0@, b.1@)),
{
    match order_of_values(&a.0, &b.0) {
        Some(order) => order,
        None => order_texts(a.1.as_str(), b.1.as_str()),
    }
}

/// Inserting depends on the items in front alone.
proof fn lemma_insert_at(sorted: Seq<Keyed>, item: Keyed, at: int)
    requires
        0 <= at <= sorted.len(),
        at > 0 ==> keyed_order(sorted[at - 1], item) <= 0,
        forall|j: int| at <= j < sorted.len() ==> #[trigger] keyed_order(sorted[j], item) > 0,
    ensures
        inserted(sorted, item) == sorted.insert(at, item),
    decreases sorted.len(),
{
    if at < sorted.len() {
        assert(keyed_order(sorted[sorted.len() - 1], item) > 0);
        assert forall|j: int| at <= j < sorted.drop_last().len() implies #[trigger] keyed_order(
            sorted.drop_last()[j],
            item,
        ) > 0 by {
            assert(keyed_order(sorted[j], item) > 0);
        }
        lemma_insert_at(sorted.drop_last(), item, at);
        assert(sorted.drop_last().insert(at, item).push(sorted.last()) =~= sorted.insert(at, item));
    } else {
        assert(sorted.insert(at, item) =~= sorted.push(item));
    }
}

fn insert_pair(sorted: &mut Vec<(Value, String)>, item: (Value, String))
    ensures
        pairs(final(sorted)@) == inserted(pairs(old(sorted)@), (item.0@, item.1@)),
{
    let ghost before = pairs(sorted@);
    let ghost key = (item.0@, item.1@);
    let mut at: usize = sorted.len();
    while at > 0 && order_pairs(&sorted[at - 1], &item) > 0
        invariant
            at <= sorted.len(),
            before == pairs(sorted@),
            key == (item.0@, item.1@),
            forall|j: int| at <= j < before.len() ==> #[trigger] keyed_order(before[j], key) > 0,
        decreases at,
    {
        assert(before[at as int - 1] == (sorted[at as int - 1].0@, sorted[at as int - 1].1@));
        at -= 1;
    }
    proof {
        if at > 0 {
            assert(before[at as int - 1] == (sorted[at as int - 1].0@, sorted[at as int - 1].1@));
        }
        lemma_insert_at(before, key, at as int);
    }
    sorted.insert(at, item);
    assert(pairs(sorted@) =~= before.insert(at as int, key));
}

fn sort_values(values: &Vec<Value>, numbers: &Vec<String>) -> (r: Vec<Value>)
    ensures
        value::views(r@) == first_parts(
            in_order(keyed(value::views(values@), host::texts(numbers@))),
        ),
{
    let ghost all = value::views(values@);
    let ghost written = host::texts(numbers@);
    let mut sorted: Vec<(Value, String)> = Vec::new();
    let mut used: usize = 0;
    let mut i: usize = 0;
    proof {
        assert(pairs(sorted@) =~= Seq::empty());
        assert(error::floats_among(all.take(0)) =~= Seq::empty()) by {
            reveal(Seq::filter);
        }
        assert(all.take(0) =~= Seq::empty());
        assert(keyed(all.take(0), written) =~= Seq::empty());
    }
    while i < values.len()
        invariant
            i <= values.len(),
            all == value::views(values@),
            written == host::texts(numbers@),
            used <= i,
            used == error::floats_among(all.take(i as int)).len(),
            pairs(sorted@) == in_order(keyed(all.take(i as int), written)),
        decreases values.len() - i,
    {
        let number = if used < numbers.len() {
            numbers[used].clone()
        } else {
            String::new()
        };
        let v = &values[i];
        let key = value_sort_key(v, number.as_str());
        proof {
            assert(all.take(i as int + 1).drop_last() =~= all.take(i as int));
            assert(all.take(i as int + 1).last() == v@);
            let k = keyed(all.take(i as int + 1), written);
            assert(k.drop_last() =~= keyed(all.take(i as int), written));
            reveal(Seq::filter);
        }
        insert_pair(&mut sorted, (v.clone(), key));
        match v {
            Value::Float(_) | Value::Double(_) => {
                used += 1;
            },
            _ => {},
        }
        i += 1;
    }
    assert(all.take(i as int) =~= all);
    let ghost done = pairs(sorted@);
    let mut r: Vec<Value> = Vec::new();
    let mut j: usize = 0;
    assert(value::views(r@) =~= first_parts(done).take(0));
    while j < sorted.len()
        invariant
            j <= sorted.len(),
            done == pairs(sorted@),
            value::views(r@) == first_parts(done).take(j as int),
        decreases sorted.len() - j,
    {
        push_value(&mut r, sorted[j].0.clone());
        j += 1;
        assert(value::views(r@) =~= first_parts(done).take(j as int));
    }
    assert(first_parts(done).take(j as int) =~= first_parts(done));
    r
}

fn floats_of(values: &Vec<Value>) -> (r: Vec<Value>)
    ensures
        value::views(r@) == error::floats_among(value::views(values@)),
{
    let ghost all = value::views(values@);
    let mut r: Vec<Value> = Vec::new();
    let mut i: usize = 0;
    assert(value::views(r@) =~= error::floats_among(all.take(0))) by {
        reveal(Seq::filter);
    }
    while i < values.len()
        invariant
            i <= values.len(),
            all == value::views(values@),
            value::views(r@) == error::floats_among(all.take(i as int)),
        decreases values.len() - i,
    {
        proof {
            reveal(Seq::filter);
            assert(all.take(i as int + 1).drop_last() =~= all.take(i as int));
            assert(all.take(i as int + 1).last() == values[i as int]@);
        }
        match &values[i] {
            Value::Float(_) | Value::Double(_) => push_value(&mut r, values[i].clone()),
            _ => {},
        }
        i += 1;
    }
    assert(all.take(i as int) =~= all);
    r
}

pub fn ask_sort(w: &World, args: &Vec<Value>, answers: &Answers) -> (r: Option<Query>)
    ensures
        host::asked(r) == sort_question(
            w@,
            value::views(args@),
            host::answers_view(answers@),
        ),
{
    let id = match object_arg(args, 0) {
        Ok(id) => id,
        Err(_) => {
            return None;
        },
    };
    match w.heap_object(id) {
        Some(HeapObject::Collection(values)) => {
            let floats = floats_of(values);
            if answers.len() == 0 && floats.len() > 0 {
                Some(Query::Numbers(floats))
            } else {
                None
            }
        },
        _ => None,
    }
}

pub fn sort_list(w: &mut World, args: &Vec<Value>, answers: &Answers) -> (r: Result<Value, VmError>)
    ensures
        (final(w)@, error::outcome(r)) == sort(
            old(w)@,
            value::views(args@),
            host::answers_view(answers@),
        ),
{
    let id = object_arg(args, 0)?;
    let values = match w.heap_object(id) {
        Some(HeapObject::Collection(values)) => copy_values(values),
        _ => {
            return Err(failure(0, 0, "Collections.sort target is not a collection"));
        },
    };
    let none: Vec<String> = Vec::new();
    assert(host::texts(none@) =~= Seq::empty());
    let sorted = if answers.len() > 0 {
        match &answers[0] {
            Answer::Texts(numbers) => sort_values(&values, numbers),
            _ => sort_values(&values, &none),
        }
    } else {
        sort_values(&values, &none)
    };
    w.replace(id, HeapObject::Collection(sorted));
    Ok(Value::Void)
}

} // verus!
