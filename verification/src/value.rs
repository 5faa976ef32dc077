//! What registers, fields and the heap hold.

use vstd::prelude::*;

use crate::convert;
use crate::table;
use crate::text;

verus! {

/// The number of an object on the heap.
pub type ObjectId = u32;

/// What a register, a field or an array element holds. A `Float` and a `Double` are the bit
/// patterns of the two binary floating-point formats.
#[derive(Debug)]
pub enum Value {
    Void,
    Int(i32),
    Long(i64),
    Float(u32),
    Double(u64),
    Object(ObjectId),
    String(String),
    Null,
}

pub enum ValueView {
    Void,
    Int(i32),
    Long(i64),
    Float(u32),
    Double(u64),
    Object(ObjectId),
    String(Seq<char>),
    Null,
}

impl View for Value {
    type V = ValueView;

    open spec fn view(&self) -> ValueView {
        match self {
            Value::Void => ValueView::Void,
            Value::Int(v) => ValueView::Int(*v),
            Value::Long(v) => ValueView::Long(*v),
            Value::Float(v) => ValueView::Float(*v),
            Value::Double(v) => ValueView::Double(*v),
            Value::Object(v) => ValueView::Object(*v),
            Value::String(v) => ValueView::String(v@),
            Value::Null => ValueView::Null,
        }
    }
}

impl Clone for Value {
    fn clone(&self) -> (r: Self)
        ensures
            r@ == self@,
    {
        match self {
            Value::Void => Value::Void,
            Value::Int(v) => Value::Int(*v),
            Value::Long(v) => Value::Long(*v),
            Value::Float(v) => Value::Float(*v),
            Value::Double(v) => Value::Double(*v),
            Value::Object(v) => Value::Object(*v),
            Value::String(v) => Value::String(v.clone()),
            Value::Null => Value::Null,
        }
    }
}

/// Values are equal as numbers are: a NaN equals nothing, and the two zeros are equal.
impl PartialEq for Value {
    fn eq(&self, other: &Self) -> (r: bool) {
        convert::values_equal(self, other)
    }
}

impl vstd::std_specs::cmp::PartialEqSpecImpl for Value {
    open spec fn obeys_eq_spec() -> bool {
        true
    }

    open spec fn eq_spec(&self, other: &Self) -> bool {
        convert::equal(self@, other@)
    }
}

impl Eq for Value {

}

// Lists of values.

pub open spec fn views(values: Seq<Value>) -> Seq<ValueView> {
    values.map_values(|v: Value| v@)
}

pub fn push_value(values: &mut Vec<Value>, value: Value)
    ensures
        views(final(values)@) == views(old(values)@).push(value@),
{
    values.push(value);
    assert(views(values@) =~= views(old(values)@).push(value@));
}

pub fn set_value(values: &mut Vec<Value>, index: usize, value: Value)
    requires
        index < old(values).len(),
    ensures
        views(final(values)@) == views(old(values)@).update(index as int, value@),
        final(values).len() == old(values).len(),
{
    values.set(index, value);
    assert(views(values@) =~= views(old(values)@).update(index as int, value@));
}

pub fn copy_values(values: &Vec<Value>) -> (r: Vec<Value>)
    ensures
        views(r@) == views(values@),
{
    let mut r: Vec<Value> = Vec::new();
    let mut i: usize = 0;
    while i < values.len()
        invariant
            i <= values.len(),
            views(r@) == views(values@).take(i as int),
        decreases values.len() - i,
    {
        push_value(&mut r, values[i].clone());
        i += 1;
        assert(views(r@) =~= views(values@).take(i as int));
    }
    assert(views(values@).take(i as int) =~= views(values@));
    r
}

/// The value at an index, if there is one.
pub open spec fn at(values: Seq<ValueView>, index: int) -> Option<ValueView> {
    if 0 <= index < values.len() {
        Some(values[index])
    } else {
        None
    }
}

pub open spec fn or_null(value: Option<ValueView>) -> ValueView {
    match value {
        Some(v) => v,
        None => ValueView::Null,
    }
}

pub open spec fn maybe(value: Option<&Value>) -> Option<ValueView> {
    match value {
        Some(v) => Some(v@),
        None => None,
    }
}

pub open spec fn owned(value: Option<Value>) -> Option<ValueView> {
    match value {
        Some(v) => Some(v@),
        None => None,
    }
}

pub fn value_at(values: &Vec<Value>, index: usize) -> (r: Option<&Value>)
    ensures
        maybe(r) == at(views(values@), index as int),
{
    if index < values.len() {
        Some(&values[index])
    } else {
        None
    }
}

/// As many copies of `Null` as asked for.
pub fn nulls(count: usize) -> (r: Vec<Value>)
    ensures
        views(r@) == Seq::new(count as nat, |i: int| ValueView::Null),
        r.len() == count,
{
    let mut r: Vec<Value> = Vec::new();
    while r.len() < count
        invariant
            r.len() <= count,
            views(r@) == Seq::new(r.len() as nat, |i: int| ValueView::Null),
        decreases count - r.len(),
    {
        push_value(&mut r, Value::Null);
        assert(views(r@) =~= Seq::new(r.len() as nat, |i: int| ValueView::Null));
    }
    r
}

/// Named fields, in the order in which they were first stored.
pub type Fields = Vec<(String, Value)>;

pub type FieldsView = Seq<(Seq<char>, ValueView)>;

// The heap.

#[derive(Debug)]
pub enum HeapObject {
    Instance { class_name: String, fields: Fields },
    Array { component: String, values: Vec<Value> },
    String(String),
    Class(String),
    Collection(Vec<Value>),
    StringBuilder(String),
    Boxed(Value),
}

pub enum ObjectView {
    Instance { class_name: Seq<char>, fields: FieldsView },
    Array { component: Seq<char>, values: Seq<ValueView> },
    String(Seq<char>),
    Class(Seq<char>),
    Collection(Seq<ValueView>),
    StringBuilder(Seq<char>),
    Boxed(ValueView),
}

impl View for HeapObject {
    type V = ObjectView;

    open spec fn view(&self) -> ObjectView {
        match self {
            HeapObject::Instance { class_name, fields } => ObjectView::Instance {
                class_name: class_name@,
                fields: table::named(fields@),
            },
            HeapObject::Array { component, values } => ObjectView::Array {
                component: component@,
                values: views(values@),
            },
            HeapObject::String(s) => ObjectView::String(s@),
            HeapObject::Class(s) => ObjectView::Class(s@),
            HeapObject::Collection(values) => ObjectView::Collection(views(values@)),
            HeapObject::StringBuilder(s) => ObjectView::StringBuilder(s@),
            HeapObject::Boxed(v) => ObjectView::Boxed(v@),
        }
    }
}

pub fn copy_fields(fields: &Fields) -> (r: Fields)
    ensures
        table::named(r@) == table::named(fields@),
{
    let mut r: Fields = Vec::new();
    let mut i: usize = 0;
    while i < fields.len()
        invariant
            i <= fields.len(),
            table::named(r@) =~= table::named(fields@).take(i as int),
        decreases fields.len() - i,
    {
        let name = fields[i].0.clone();
        let value = fields[i].1.clone();
        let ghost before = r@;
        r.push((name, value));
        assert(table::named(r@) =~= table::named(before).push((name@, value@)));
        i += 1;
    }
    assert(table::named(fields@).take(i as int) =~= table::named(fields@));
    r
}

impl Clone for HeapObject {
    fn clone(&self) -> (r: Self)
        ensures
            r@ == self@,
    {
        match self {
            HeapObject::Instance { class_name, fields } => HeapObject::Instance {
                class_name: class_name.clone(),
                fields: copy_fields(fields),
            },
            HeapObject::Array { component, values } => HeapObject::Array {
                component: component.clone(),
                values: copy_values(values),
            },
            HeapObject::String(s) => HeapObject::String(s.clone()),
            HeapObject::Class(s) => HeapObject::Class(s.clone()),
            HeapObject::Collection(values) => HeapObject::Collection(copy_values(values)),
            HeapObject::StringBuilder(s) => HeapObject::StringBuilder(s.clone()),
            HeapObject::Boxed(v) => HeapObject::Boxed(v.clone()),
        }
    }
}

/// Whether two lists are as long, and their values equal one by one.
pub open spec fn same_values(a: Seq<ValueView>, b: Seq<ValueView>) -> bool {
    &&& a.len() == b.len()
    &&& forall|i: int| 0 <= i < a.len() ==> convert::equal(#[trigger] a[i], b[i])
}

fn are_same_values(a: &Vec<Value>, b: &Vec<Value>) -> (r: bool)
    ensures
        r == same_values(views(a@), views(b@)),
{
    if a.len() != b.len() {
        return false;
    }
    let mut i: usize = 0;
    while i < a.len()
        invariant
            i <= a.len(),
            a.len() == b.len(),
            forall|j: int| 0 <= j < i ==> convert::equal(#[trigger] views(a@)[j], views(b@)[j]),
        decreases a.len() - i,
    {
        if !convert::values_equal(&a[i], &b[i]) {
            assert(!convert::equal(views(a@)[i as int], views(b@)[i as int]));
            return false;
        }
        i += 1;
    }
    true
}

/// Whether two tables of fields hold equal values under a name, or both nothing.
pub open spec fn same_field(a: FieldsView, b: FieldsView, name: Seq<char>) -> bool {
    match (table::lookup(a, name), table::lookup(b, name)) {
        (Some(x), Some(y)) => convert::equal(x, y),
        (None, None) => true,
        _ => false,
    }
}

/// Whether two tables of fields hold the same, in whichever order they hold it.
pub open spec fn same_fields(a: FieldsView, b: FieldsView) -> bool {
    forall|name: Seq<char>| #[trigger] same_field(a, b, name)
}

fn is_same_field(a: &Fields, b: &Fields, name: &str) -> (r: bool)
    ensures
        r == same_field(table::named(a@), table::named(b@), name@),
{
    match (table::get_named(a, name), table::get_named(b, name)) {
        (Some(x), Some(y)) => convert::values_equal(x, y),
        (None, None) => true,
        _ => false,
    }
}

fn are_same_fields(a: &Fields, b: &Fields) -> (r: bool)
    ensures
        r == same_fields(table::named(a@), table::named(b@)),
{
    let ghost p = table::named(a@);
    let ghost q = table::named(b@);
    let mut i: usize = 0;
    while i < a.len()
        invariant
            i <= a.len(),
            p == table::named(a@),
            q == table::named(b@),
            forall|j: int| 0 <= j < i ==> same_field(p, q, (#[trigger] p[j]).0),
        decreases a.len() - i,
    {
        if !is_same_field(a, b, a[i].0.as_str()) {
            assert(!same_field(p, q, a[i as int].0@));
            return false;
        }
        assert(p[i as int].0 == a[i as int].0@);
        i += 1;
    }
    let mut i: usize = 0;
    while i < b.len()
        invariant
            i <= b.len(),
            p == table::named(a@),
            q == table::named(b@),
            forall|j: int| 0 <= j < i ==> same_field(p, q, (#[trigger] q[j]).0),
        decreases b.len() - i,
    {
        if !is_same_field(a, b, b[i].0.as_str()) {
            assert(!same_field(p, q, b[i as int].0@));
            return false;
        }
        assert(q[i as int].0 == b[i as int].0@);
        i += 1;
    }
    assert forall|name: Seq<char>| #[trigger] same_field(p, q, name) by {
        table::lemma_place(p, name);
        table::lemma_place(q, name);
        if table::lookup(p, name) is Some {
            assert(p[table::place(p, name) as int].0 == name);
        } else if table::lookup(q, name) is Some {
            assert(q[table::place(q, name) as int].0 == name);
        }
    }
    true
}

/// Objects are equal where their names and texts are the same and their values are equal, as
/// values are. The order of fields does not count.
pub open spec fn same_object(a: ObjectView, b: ObjectView) -> bool {
    match (a, b) {
        (
            ObjectView::Instance { class_name: c, fields: f },
            ObjectView::Instance { class_name: d, fields: g },
        ) => c == d && same_fields(f, g),
        (
            ObjectView::Array { component: c, values: v },
            ObjectView::Array { component: d, values: w },
        ) => c == d && same_values(v, w),
        (ObjectView::String(s), ObjectView::String(t)) => s == t,
        (ObjectView::Class(s), ObjectView::Class(t)) => s == t,
        (ObjectView::Collection(v), ObjectView::Collection(w)) => same_values(v, w),
        (ObjectView::StringBuilder(s), ObjectView::StringBuilder(t)) => s == t,
        (ObjectView::Boxed(v), ObjectView::Boxed(w)) => convert::equal(v, w),
        _ => false,
    }
}

impl PartialEq for HeapObject {
    fn eq(&self, other: &Self) -> (r: bool) {
        match (self, other) {
            (
                HeapObject::Instance { class_name: c, fields: f },
                HeapObject::Instance { class_name: d, fields: g },
            ) => text::same(c.as_str(), d.as_str()) && are_same_fields(f, g),
            (
                HeapObject::Array { component: c, values: v },
                HeapObject::Array { component: d, values: w },
            ) => text::same(c.as_str(), d.as_str()) && are_same_values(v, w),
            (HeapObject::String(s), HeapObject::String(t)) => text::same(s.as_str(), t.as_str()),
            (HeapObject::Class(s), HeapObject::Class(t)) => text::same(s.as_str(), t.as_str()),
            (HeapObject::Collection(v), HeapObject::Collection(w)) => are_same_values(v, w),
            (HeapObject::StringBuilder(s), HeapObject::StringBuilder(t)) => text::same(
                s.as_str(),
                t.as_str(),
            ),
            (HeapObject::Boxed(v), HeapObject::Boxed(w)) => convert::values_equal(v, w),
            _ => false,
        }
    }
}

impl vstd::std_specs::cmp::PartialEqSpecImpl for HeapObject {
    open spec fn obeys_eq_spec() -> bool {
        true
    }

    open spec fn eq_spec(&self, other: &Self) -> bool {
        same_object(self@, other@)
    }
}

impl Eq for HeapObject {

}

pub open spec fn heap_view(heap: Seq<HeapObject>) -> Seq<ObjectView> {
    heap.map_values(|o: HeapObject| o@)
}

/// The value that a field of a type holds before anything was stored in it.
pub open spec fn blank(descriptor: Seq<char>) -> ValueView {
    if descriptor == "I"@ || descriptor == "Z"@ || descriptor == "B"@ || descriptor == "S"@
        || descriptor == "C"@ {
        ValueView::Int(0)
    } else if descriptor == "F"@ {
        ValueView::Float(0)
    } else if descriptor == "J"@ {
        ValueView::Long(0)
    } else if descriptor == "D"@ {
        ValueView::Double(0)
    } else {
        ValueView::Null
    }
}

pub fn default_value_for_type(descriptor: &str) -> (r: Value)
    ensures
        r@ == blank(descriptor@),
{
    if text::same(descriptor, "I") || text::same(descriptor, "Z") || text::same(descriptor, "B")
        || text::same(descriptor, "S") || text::same(descriptor, "C") {
        Value::Int(0)
    } else if text::same(descriptor, "F") {
        Value::Float(0)
    } else if text::same(descriptor, "J") {
        Value::Long(0)
    } else if text::same(descriptor, "D") {
        Value::Double(0)
    } else {
        Value::Null
    }
}

} // verus!
