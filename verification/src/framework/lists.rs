//! Lists and reflective arrays.

use vstd::prelude::*;

use crate::convert;
use crate::convert::int_arg;
use crate::error;
use crate::error::{ErrorView, VmError};
use crate::float;
use crate::framework::activity;
use crate::framework::system::gives;
use crate::text;
use crate::value;
use crate::value::{
    default_value_for_type, push_value, value_at, HeapObject, ObjectId, ObjectView, Value, ValueView,
};
use crate::world::{max_int, Effected, World, WorldView};

verus! {

pub open spec fn list_class(class_name: Seq<char>) -> bool {
    class_name == "Ljava/util/ArrayList;"@ || class_name == "Ljava/util/LinkedList;"@ || class_name
        == "Ljava/util/HashMap;"@ || class_name == "Ljava/util/Vector;"@ || class_name
        == "Ljava/util/Collection;"@ || class_name == "Ljava/util/List;"@ || class_name
        == "Ljava/util/AbstractList;"@ || class_name == "Ljava/util/AbstractCollection;"@
}

pub fn is_list_class(class_name: &str) -> (r: bool)
    ensures
        r == list_class(class_name@),
{
    text::same(class_name, "Ljava/util/ArrayList;") || text::same(
        class_name,
        "Ljava/util/LinkedList;",
    ) || text::same(class_name, "Ljava/util/HashMap;") || text::same(
        class_name,
        "Ljava/util/Vector;",
    ) || text::same(class_name, "Ljava/util/Collection;") || text::same(
        class_name,
        "Ljava/util/List;",
    ) || text::same(class_name, "Ljava/util/AbstractList;") || text::same(
        class_name,
        "Ljava/util/AbstractCollection;",
    )
}

/// The values of a list.
pub open spec fn items(w: WorldView, id: ObjectId) -> Option<Seq<ValueView>> {
    match w.object(id) {
        Some(ObjectView::Collection(values)) => Some(values),
        _ => None,
    }
}

/// The receiver of a list method; a new list where the first argument is no object.
pub open spec fn receiver(w: WorldView, args: Seq<ValueView>) -> (WorldView, ObjectId) {
    match value::at(args, 0) {
        Some(ValueView::Object(id)) => (w, id),
        _ => (w.with_object(ObjectView::Collection(Seq::empty())), w.fresh()),
    }
}

fn find_receiver(w: &mut World, args: &Vec<Value>) -> (r: ObjectId)
    ensures
        (final(w)@, r) == receiver(old(w)@, value::views(args@)),
{
    match value_at(args, 0) {
        Some(Value::Object(id)) => *id,
        _ => w.alloc_collection(),
    }
}

pub open spec fn list_call(
    w: WorldView,
    id: ObjectId,
    method: Seq<char>,
    args: Seq<ValueView>,
) -> Effected {
    let values = items(w, id);
    if method == "size"@ {
        gives(
            w,
            ValueView::Int(
                match values {
                    Some(v) => v.len() as i32,
                    None => 0,
                },
            ),
        )
    } else if method == "isEmpty"@ {
        gives(
            w,
            activity::truth(
                match values {
                    Some(v) => v.len() == 0,
                    None => true,
                },
            ),
        )
    } else if method == "add"@ || method == "addElement"@ {
        let after = match values {
            Some(v) => w.replaced(
                id,
                ObjectView::Collection(v.push(value::or_null(value::at(args, 1)))),
            ),
            None => w,
        };
        if method == "add"@ {
            gives(after, ValueView::Int(1))
        } else {
            gives(after, ValueView::Void)
        }
    } else if method == "get"@ || method == "elementAt"@ {
        match convert::integer_arg(args, 1) {
            Err(e) => (w, Err(e)),
            Ok(index) => match values {
                Some(v) => gives(w, value::or_null(value::at(v, index as int))),
                None => gives(w, ValueView::Null),
            },
        }
    } else if method == "clear"@ {
        match values {
            Some(_) => gives(
                w.replaced(id, ObjectView::Collection(Seq::empty())),
                ValueView::Void,
            ),
            None => gives(w, ValueView::Void),
        }
    } else {
        gives(w, ValueView::Void)
    }
}

/// The lists of `java.util`.
pub open spec fn list(w: WorldView, method: Seq<char>, args: Seq<ValueView>) -> Effected {
    let (after, id) = receiver(w, args);
    list_call(after, id, method, args)
}

fn add_item(w: &mut World, id: ObjectId, v: Value)
    ensures
        final(w)@ == (match items(old(w)@, id) {
            Some(values) => old(w)@.replaced(id, ObjectView::Collection(values.push(v@))),
            None => old(w)@,
        }),
{
    if (id as usize) < w.heap.len() {
        match &mut w.heap[id as usize] {
            HeapObject::Collection(values) => {
                push_value(values, v);
            },
            _ => {},
        }
        assert(value::heap_view(w.heap@) =~= (match items(old(w)@, id) {
            Some(values) => old(w)@.replaced(id, ObjectView::Collection(values.push(v@))),
            None => old(w)@,
        }).heap);
    }
}

fn call_list_method(w: &mut World, id: ObjectId, method: &str, args: &Vec<Value>) -> (r: Result<
    Value,
    VmError,
>)
    ensures
        (final(w)@, error::outcome(r)) == list_call(old(w)@, id, method@, value::views(args@)),
{
    if text::same(method, "size") {
        match w.heap_object(id) {
            Some(HeapObject::Collection(values)) => Ok(Value::Int(values.len() as i32)),
            _ => Ok(Value::Int(0)),
        }
    } else if text::same(method, "isEmpty") {
        match w.heap_object(id) {
            Some(HeapObject::Collection(values)) => if values.len() == 0 {
                Ok(Value::Int(1))
            } else {
                Ok(Value::Int(0))
            },
            _ => Ok(Value::Int(1)),
        }
    } else if text::same(method, "add") || text::same(method, "addElement") {
        let v = match value_at(args, 1) {
            Some(v) => v.clone(),
            None => Value::Null,
        };
        add_item(w, id, v);
        if text::same(method, "add") {
            Ok(Value::Int(1))
        } else {
            Ok(Value::Void)
        }
    } else if text::same(method, "get") || text::same(method, "elementAt") {
        let index = int_arg(args, 1)?;
        match w.heap_object(id) {
            Some(HeapObject::Collection(values)) => {
                if index < 0 {
                    return Ok(Value::Null);
                }
                match value_at(values, index as usize) {
                    Some(v) => Ok(v.clone()),
                    None => Ok(Value::Null),
                }
            },
            _ => Ok(Value::Null),
        }
    } else if text::same(method, "clear") {
        let known = match w.heap_object(id) {
            Some(HeapObject::Collection(_)) => true,
            _ => false,
        };
        if known {
            let values: Vec<Value> = Vec::new();
            assert(value::views(values@) =~= Seq::empty());
            w.replace(id, HeapObject::Collection(values));
        }
        Ok(Value::Void)
    } else {
        Ok(Value::Void)
    }
}

pub fn call_list(w: &mut World, method: &str, args: &Vec<Value>) -> (r: Result<Value, VmError>)
    ensures
        (final(w)@, error::outcome(r)) == list(old(w)@, method@, value::views(args@)),
{
    let id = find_receiver(w, args);
    call_list_method(w, id, method, args)
}

// `java.lang.reflect.Array`.

/// The component type: that of a class object, or objects.
pub open spec fn component(w: WorldView, v: Option<ValueView>) -> Seq<char> {
    match v {
        Some(ValueView::Object(id)) => match w.object(id) {
            Some(ObjectView::Class(name)) => name,
            _ => "Ljava/lang/Object;"@,
        },
        _ => "Ljava/lang/Object;"@,
    }
}

fn find_component(w: &World, v: Option<&Value>) -> (r: String)
    ensures
        r@ == component(w@, value::maybe(v)),
{
    match v {
        Some(Value::Object(id)) => match w.heap_object(*id) {
            Some(HeapObject::Class(name)) => name.clone(),
            _ => "Ljava/lang/Object;".to_owned(),
        },
        _ => "Ljava/lang/Object;".to_owned(),
    }
}

pub open spec fn length_of(v: ValueView) -> u64 {
    match v {
        ValueView::Int(n) => float::larger(n as int, 0) as u64,
        ValueView::Long(n) => float::larger(n as int, 0) as u64,
        _ => 0,
    }
}

fn get_length(v: &Value) -> (r: u64)
    ensures
        r == length_of(v@),
{
    match v {
        Value::Int(n) => if *n > 0 {
            *n as u64
        } else {
            0
        },
        Value::Long(n) => if *n > 0 {
            *n as u64
        } else {
            0
        },
        _ => 0,
    }
}

pub open spec fn lengths(values: Seq<ValueView>) -> Seq<u64> {
    values.map_values(|v: ValueView| length_of(v))
}

/// The lengths of the dimensions: those of an array of integers, or a single one.
pub open spec fn dimensions(w: WorldView, args: Seq<ValueView>) -> Result<Seq<u64>, ErrorView> {
    match value::at(args, 1) {
        Some(ValueView::Object(id)) => match w.object(id) {
            Some(ObjectView::Array { values, .. }) => Ok(lengths(values)),
            _ => Ok(seq![0u64]),
        },
        _ => match convert::integer_arg(args, 1) {
            Err(e) => Err(e),
            Ok(n) => Ok(seq![float::larger(n as int, 0) as u64]),
        },
    }
}

pub open spec fn dimensions_of(r: Result<Vec<u64>, VmError>) -> Result<Seq<u64>, ErrorView> {
    match r {
        Ok(v) => Ok(v@),
        Err(e) => Err(e@),
    }
}

fn find_dimensions(w: &World, args: &Vec<Value>) -> (r: Result<Vec<u64>, VmError>)
    ensures
        dimensions_of(r) == dimensions(w@, value::views(args@)),
{
    match value_at(args, 1) {
        Some(Value::Object(id)) => match w.heap_object(*id) {
            Some(HeapObject::Array { values, .. }) => {
                let ghost all = lengths(value::views(values@));
                let mut r: Vec<u64> = Vec::new();
                let mut i: usize = 0;
                while i < values.len()
                    invariant
                        i <= values.len(),
                        all == lengths(value::views(values@)),
                        r@ =~= all.take(i as int),
                    decreases values.len() - i,
                {
                    r.push(get_length(&values[i]));
                    i += 1;
                }
                assert(all.take(i as int) =~= all);
                Ok(r)
            },
            _ => {
                let r: Vec<u64> = vec![0];
                assert(r@ =~= seq![0u64]);
                Ok(r)
            },
        },
        _ => {
            let n = int_arg(args, 1)?;
            let length: u64 = max_int(n, 0) as u64;
            let r: Vec<u64> = vec![length];
            assert(r@ =~= seq![length]);
            Ok(r)
        },
    }
}

/// A new array of arrays, as deep as there are dimensions.
pub open spec fn array_made(w: WorldView, component: Seq<char>, dims: Seq<u64>) -> (
    WorldView,
    ObjectId,
)
    decreases dims.len(), 0nat, 0nat,
{
    let (before, values) = if dims.len() > 1 {
        rows_made(w, component, dims.skip(1), dims[0] as nat)
    } else if dims.len() == 1 {
        (w, Seq::new(dims[0] as nat, |i: int| value::blank(component)))
    } else {
        (w, Seq::empty())
    };
    (before.with_object(ObjectView::Array { component, values }), before.fresh())
}

pub open spec fn rows_made(w: WorldView, component: Seq<char>, dims: Seq<u64>, count: nat) -> (
    WorldView,
    Seq<ValueView>,
)
    decreases dims.len(), 1nat, count,
{
    if count == 0 {
        (w, Seq::empty())
    } else {
        let (before, values) = rows_made(w, component, dims, (count - 1) as nat);
        let (after, id) = array_made(before, component, dims);
        (after, values.push(ValueView::Object(id)))
    }
}

fn alloc_reflective_array(w: &mut World, component: &str, dims: &Vec<u64>, depth: usize) -> (r: ObjectId)
    requires
        depth <= dims.len(),
    ensures
        (final(w)@, r) == array_made(old(w)@, component@, dims@.skip(depth as int)),
    decreases dims.len() - depth, 0nat,
{
    let ghost rest = dims@.skip(depth as int);
    let mut values: Vec<Value> = Vec::new();
    assert(value::views(values@) =~= Seq::empty());
    if dims.len() - depth > 1 {
        assert(rest.skip(1) =~= dims@.skip(depth as int + 1));
        values = make_rows(w, component, dims, depth + 1, dims[depth]);
    } else if depth < dims.len() {
        let length: u64 = dims[depth];
        let mut i: u64 = 0;
        while i < length
            invariant
                i <= length,
                value::views(values@) =~= Seq::new(
                    i as nat,
                    |j: int| value::blank(component@),
                ),
            decreases length - i,
        {
            push_value(&mut values, default_value_for_type(component));
            i += 1;
        }
    }
    w.allocate(HeapObject::Array { component: component.to_owned(), values })
}

fn make_rows(w: &mut World, component: &str, dims: &Vec<u64>, depth: usize, count: u64) -> (r: Vec<
    Value,
>)
    requires
        0 < depth <= dims.len(),
    ensures
        (final(w)@, value::views(r@)) == rows_made(
            old(w)@,
            component@,
            dims@.skip(depth as int),
            count as nat,
        ),
    decreases dims.len() - depth, 1nat,
{
    let ghost start = w@;
    let mut values: Vec<Value> = Vec::new();
    let mut i: u64 = 0;
    assert(value::views(values@) =~= Seq::empty());
    while i < count
        invariant
            i <= count,
            depth <= dims.len(),
            (w@, value::views(values@)) == rows_made(
                start,
                component@,
                dims@.skip(depth as int),
                i as nat,
            ),
        decreases count - i,
    {
        let id = alloc_reflective_array(w, component, dims, depth);
        push_value(&mut values, Value::Object(id));
        i += 1;
    }
    values
}

pub open spec fn new_array(w: WorldView, args: Seq<ValueView>) -> Effected {
    match dimensions(w, args) {
        Err(e) => (w, Err(e)),
        Ok(dims) => {
            let (after, id) = array_made(w, component(w, value::at(args, 0)), dims);
            gives(after, ValueView::Object(id))
        },
    }
}

pub fn call_new_array(w: &mut World, args: &Vec<Value>) -> (r: Result<Value, VmError>)
    ensures
        (final(w)@, error::outcome(r)) == new_array(old(w)@, value::views(args@)),
{
    let component = find_component(w, value_at(args, 0));
    let dims = find_dimensions(w, args)?;
    assert(dims@.skip(0) =~= dims@);
    let id = alloc_reflective_array(w, component.as_str(), &dims, 0);
    Ok(Value::Object(id))
}

} // verus!
