//! Strings, string builders and boxed numbers.

use vstd::prelude::*;
use vstd::string::*;
use vstd::utf8::*;

use crate::convert;
use crate::convert::{err_of, int_arg, object_arg};
use crate::error;
use crate::error::{failure_about, show, ErrorView, VmError};
use crate::float;
use crate::framework::activity;
use crate::framework::system;
use crate::framework::system::{gives, make_string_array};
use crate::host;
use crate::host::{AnswerView, Answers, Query, QueryView, Style};
use crate::text;
use crate::value;
use crate::value::{value_at, HeapObject, ObjectId, ObjectView, Value, ValueView};
use crate::world;
use crate::world::{Effected, World, WorldView};

verus! {

// Boxed numbers: `java.lang.Integer` and its relatives.

pub open spec fn not_numeric(v: ValueView) -> ErrorView {
    error::fault_about(0, 0, "boxed value is not numeric: "@, v)
}

fn no_number(v: &Value) -> (r: VmError)
    ensures
        r@ == not_numeric(v@),
{
    failure_about(0, 0, "boxed value is not numeric: ".to_owned(), v)
}

pub open spec fn boxed_int(w: WorldView, args: Seq<ValueView>) -> Result<i32, ErrorView> {
    match w.unboxed(args, 0) {
        Err(e) => Err(e),
        Ok(v) => match v {
            ValueView::Int(n) => Ok(n),
            ValueView::Long(n) => Ok(n as i32),
            ValueView::Float(n) => Ok(
                float::single_as(n, i32::MIN as int, i32::MAX as int) as i32,
            ),
            ValueView::Double(n) => Ok(
                float::double_as(n, i32::MIN as int, i32::MAX as int) as i32,
            ),
            _ => Err(not_numeric(v)),
        },
    }
}

fn boxed_int_arg(w: &World, args: &Vec<Value>) -> (r: Result<i32, VmError>)
    ensures
        err_of(r) == boxed_int(w@, value::views(args@)),
{
    let v = w.boxed_value(args, 0)?;
    match &v {
        Value::Int(n) => Ok(*n),
        Value::Long(n) => Ok(*n as i32),
        Value::Float(n) => Ok(float::single_to_int(*n)),
        Value::Double(n) => Ok(float::double_to_int(*n)),
        _ => Err(no_number(&v)),
    }
}

pub open spec fn boxed_long(w: WorldView, args: Seq<ValueView>) -> Result<i64, ErrorView> {
    match w.unboxed(args, 0) {
        Err(e) => Err(e),
        Ok(v) => match v {
            ValueView::Long(n) => Ok(n),
            ValueView::Int(n) => Ok(n as i64),
            ValueView::Float(n) => Ok(
                float::single_as(n, i64::MIN as int, i64::MAX as int) as i64,
            ),
            ValueView::Double(n) => Ok(
                float::double_as(n, i64::MIN as int, i64::MAX as int) as i64,
            ),
            _ => Err(not_numeric(v)),
        },
    }
}

fn boxed_long_arg(w: &World, args: &Vec<Value>) -> (r: Result<i64, VmError>)
    ensures
        err_of(r) == boxed_long(w@, value::views(args@)),
{
    let v = w.boxed_value(args, 0)?;
    match &v {
        Value::Long(n) => Ok(*n),
        Value::Int(n) => Ok(*n as i64),
        Value::Float(n) => Ok(float::single_to_long(*n)),
        Value::Double(n) => Ok(float::double_to_long(*n)),
        _ => Err(no_number(&v)),
    }
}

pub open spec fn boxed_single(w: WorldView, args: Seq<ValueView>) -> Result<u32, ErrorView> {
    match w.unboxed(args, 0) {
        Err(e) => Err(e),
        Ok(v) => match convert::single_from(v) {
            Some(n) => Ok(n),
            None => Err(not_numeric(v)),
        },
    }
}

fn boxed_float_arg(w: &World, args: &Vec<Value>) -> (r: Result<u32, VmError>)
    ensures
        err_of(r) == boxed_single(w@, value::views(args@)),
{
    let v = w.boxed_value(args, 0)?;
    match convert::to_single(&v) {
        Some(n) => Ok(n),
        None => Err(no_number(&v)),
    }
}

/// The text of a number, given the text of a floating-point one.
pub open spec fn number_text(v: ValueView, number: Seq<char>) -> Result<Seq<char>, ErrorView> {
    match v {
        ValueView::Int(n) => Ok(text::decimal(n as int)),
        ValueView::Long(n) => Ok(text::decimal(n as int)),
        ValueView::Float(_) => Ok(number),
        ValueView::Double(_) => Ok(number),
        _ => Err(not_numeric(v)),
    }
}

fn write_number(v: &Value, number: String) -> (r: Result<String, VmError>)
    ensures
        world::string_result(r) == number_text(v@, number@),
{
    match v {
        Value::Int(n) => Ok(text::decimal_text(*n as i64)),
        Value::Long(n) => Ok(text::decimal_text(*n)),
        Value::Float(_) => Ok(number),
        Value::Double(_) => Ok(number),
        _ => Err(no_number(v)),
    }
}

/// The text of a boxed floating-point number is asked for.
pub open spec fn box_question(
    w: WorldView,
    method: Seq<char>,
    args: Seq<ValueView>,
    answers: Seq<AnswerView>,
) -> Option<QueryView> {
    if answers.len() == 0 && method == "toString"@ {
        match w.unboxed(args, 0) {
            Ok(v) => if error::is_floating(v) {
                Some(QueryView::Number { number: v, style: Style::Plain })
            } else {
                None
            },
            Err(_) => None,
        }
    } else {
        None
    }
}

pub fn ask_box(w: &World, method: &str, args: &Vec<Value>, answers: &Answers) -> (r: Option<Query>)
    ensures
        host::asked(r) == box_question(
            w@,
            method@,
            value::views(args@),
            host::answers_view(answers@),
        ),
{
    if answers.len() == 0 && text::same(method, "toString") {
        match w.boxed_value(args, 0) {
            Ok(Value::Float(n)) => Some(
                Query::Number { number: Value::Float(n), style: Style::Plain },
            ),
            Ok(Value::Double(n)) => Some(
                Query::Number { number: Value::Double(n), style: Style::Plain },
            ),
            _ => None,
        }
    } else {
        None
    }
}

pub open spec fn box_method(method: Seq<char>) -> bool {
    method == "valueOf"@ || method == "intValue"@ || method == "longValue"@ || method
        == "floatValue"@ || method == "doubleValue"@ || method == "booleanValue"@ || method
        == "toString"@
}

pub fn is_box_method(method: &str) -> (r: bool)
    ensures
        r == box_method(method@),
{
    text::same(method, "valueOf") || text::same(method, "intValue") || text::same(
        method,
        "longValue",
    ) || text::same(method, "floatValue") || text::same(method, "doubleValue") || text::same(
        method,
        "booleanValue",
    ) || text::same(method, "toString")
}

pub open spec fn boxes(
    w: WorldView,
    method: Seq<char>,
    args: Seq<ValueView>,
    answers: Seq<AnswerView>,
) -> Effected {
    if method == "valueOf"@ {
        let v = match value::at(args, 0) {
            Some(v) => v,
            None => ValueView::Int(0),
        };
        gives(w.with_object(ObjectView::Boxed(v)), ValueView::Object(w.fresh()))
    } else if method == "intValue"@ {
        match boxed_int(w, args) {
            Err(e) => (w, Err(e)),
            Ok(n) => gives(w, ValueView::Int(n)),
        }
    } else if method == "longValue"@ {
        match boxed_long(w, args) {
            Err(e) => (w, Err(e)),
            Ok(n) => gives(w, ValueView::Long(n)),
        }
    } else if method == "floatValue"@ {
        match boxed_single(w, args) {
            Err(e) => (w, Err(e)),
            Ok(n) => gives(w, ValueView::Float(n)),
        }
    } else if method == "doubleValue"@ {
        match boxed_single(w, args) {
            Err(e) => (w, Err(e)),
            Ok(n) => gives(w, ValueView::Double(float::single_as_double(n))),
        }
    } else if method == "booleanValue"@ {
        match boxed_int(w, args) {
            Err(e) => (w, Err(e)),
            Ok(n) => gives(w, activity::truth(n != 0)),
        }
    } else {
        match w.unboxed(args, 0) {
            Err(e) => (w, Err(e)),
            Ok(v) => match number_text(v, host::text_in(answers, 0)) {
                Err(e) => (w, Err(e)),
                Ok(s) => gives(w.with_object(ObjectView::String(s)), ValueView::Object(w.fresh())),
            },
        }
    }
}

pub fn call_box(w: &mut World, method: &str, args: &Vec<Value>, answers: &Answers) -> (r: Result<
    Value,
    VmError,
>)
    ensures
        (final(w)@, error::outcome(r)) == boxes(
            old(w)@,
            method@,
            value::views(args@),
            host::answers_view(answers@),
        ),
{
    if text::same(method, "valueOf") {
        let v = match value_at(args, 0) {
            Some(v) => v.clone(),
            None => Value::Int(0),
        };
        let id = w.allocate(HeapObject::Boxed(v));
        Ok(Value::Object(id))
    } else if text::same(method, "intValue") {
        let n = boxed_int_arg(w, args)?;
        Ok(Value::Int(n))
    } else if text::same(method, "longValue") {
        let n = boxed_long_arg(w, args)?;
        Ok(Value::Long(n))
    } else if text::same(method, "floatValue") {
        let n = boxed_float_arg(w, args)?;
        Ok(Value::Float(n))
    } else if text::same(method, "doubleValue") {
        let n = boxed_float_arg(w, args)?;
        Ok(Value::Double(float::single_to_double(n)))
    } else if text::same(method, "booleanValue") {
        let n = boxed_int_arg(w, args)?;
        if n != 0 {
            Ok(Value::Int(1))
        } else {
            Ok(Value::Int(0))
        }
    } else {
        let v = w.boxed_value(args, 0)?;
        let s = write_number(&v, host::get_text(answers, 0))?;
        let id = w.alloc_string(s);
        Ok(Value::Object(id))
    }
}

// `java.lang.String`.

/// The floating-point number whose text the text of a value needs, and how it is written.
pub open spec fn number_needed(w: WorldView, v: Option<ValueView>) -> Option<(ValueView, Style)> {
    match v {
        Some(ValueView::Float(n)) => Some((ValueView::Float(n), Style::Plain)),
        Some(ValueView::Double(n)) => Some((ValueView::Double(n), Style::Plain)),
        Some(ValueView::Object(id)) => match w.object(id) {
            Some(ObjectView::Boxed(b)) => if error::is_floating(b) {
                Some((b, Style::Debug))
            } else {
                None
            },
            _ => None,
        },
        _ => None,
    }
}

pub open spec fn needed_view(r: Option<(Value, Style)>) -> Option<(ValueView, Style)> {
    match r {
        Some((v, style)) => Some((v@, style)),
        None => None,
    }
}

fn find_number_needed(w: &World, v: Option<&Value>) -> (r: Option<(Value, Style)>)
    ensures
        needed_view(r) == number_needed(w@, value::maybe(v)),
{
    match v {
        Some(Value::Float(n)) => Some((Value::Float(*n), Style::Plain)),
        Some(Value::Double(n)) => Some((Value::Double(*n), Style::Plain)),
        Some(Value::Object(id)) => match w.heap_object(*id) {
            Some(HeapObject::Boxed(Value::Float(n))) => Some((Value::Float(*n), Style::Debug)),
            Some(HeapObject::Boxed(Value::Double(n))) => Some((Value::Double(*n), Style::Debug)),
            _ => None,
        },
        _ => None,
    }
}

/// The text of a value, given the text of its floating-point number.
pub open spec fn text_form(w: WorldView, v: Option<ValueView>, number: Seq<char>) -> Seq<char> {
    match v {
        Some(ValueView::String(s)) => s,
        Some(ValueView::Int(n)) => text::decimal(n as int),
        Some(ValueView::Long(n)) => text::decimal(n as int),
        Some(ValueView::Float(_)) => number,
        Some(ValueView::Double(_)) => number,
        Some(ValueView::Object(id)) => match w.object(id) {
            Some(ObjectView::String(s)) => s,
            Some(ObjectView::StringBuilder(s)) => s,
            Some(ObjectView::Boxed(b)) => error::shown(b, number),
            Some(ObjectView::Class(s)) => s,
            _ => "null"@,
        },
        _ => "null"@,
    }
}

fn write_text(w: &World, v: Option<&Value>, number: String) -> (r: String)
    ensures
        r@ == text_form(w@, value::maybe(v), number@),
{
    match v {
        Some(Value::String(s)) => s.clone(),
        Some(Value::Int(n)) => text::decimal_text(*n as i64),
        Some(Value::Long(n)) => text::decimal_text(*n),
        Some(Value::Float(_)) => number,
        Some(Value::Double(_)) => number,
        Some(Value::Object(id)) => match w.heap_object(*id) {
            Some(HeapObject::String(s)) => s.clone(),
            Some(HeapObject::StringBuilder(s)) => s.clone(),
            Some(HeapObject::Boxed(b)) => show(b, number.as_str()),
            Some(HeapObject::Class(s)) => s.clone(),
            _ => "null".to_owned(),
        },
        _ => "null".to_owned(),
    }
}

pub open spec fn of_one_text(method: Seq<char>) -> bool {
    method == "valueOf"@ || method == "length"@ || method == "charAt"@
}

pub open spec fn of_two_texts(method: Seq<char>) -> bool {
    method == "concat"@ || method == "equals"@ || method == "equalsIgnoreCase"@ || method
        == "startsWith"@ || method == "endsWith"@ || method == "contains"@ || method == "split"@
        || method == "indexOf"@
}

fn takes_one_text(method: &str) -> (r: bool)
    ensures
        r == of_one_text(method@),
{
    text::same(method, "valueOf") || text::same(method, "length") || text::same(method, "charAt")
}

fn takes_two_texts(method: &str) -> (r: bool)
    ensures
        r == of_two_texts(method@),
{
    text::same(method, "concat") || text::same(method, "equals") || text::same(
        method,
        "equalsIgnoreCase",
    ) || text::same(method, "startsWith") || text::same(method, "endsWith") || text::same(
        method,
        "contains",
    ) || text::same(method, "split") || text::same(method, "indexOf")
}

pub open spec fn string_method(method: Seq<char>) -> bool {
    of_one_text(method) || of_two_texts(method) || method == "toString"@
}

pub fn is_string_method(method: &str) -> (r: bool)
    ensures
        r == string_method(method@),
{
    takes_one_text(method) || takes_two_texts(method) || text::same(method, "toString")
}

pub open spec fn number_query(needed: (ValueView, Style)) -> QueryView {
    QueryView::Number { number: needed.0, style: needed.1 }
}

/// The texts of floating-point numbers are asked for, one after the other.
pub open spec fn string_question(
    w: WorldView,
    method: Seq<char>,
    args: Seq<ValueView>,
    answers: Seq<AnswerView>,
) -> Option<QueryView> {
    let first = number_needed(w, value::at(args, 0));
    let second = number_needed(w, value::at(args, 1));
    if !(of_one_text(method) || of_two_texts(method)) {
        None
    } else if answers.len() == 0 && first is Some {
        Some(number_query(first->0))
    } else if of_two_texts(method) && second is Some && answers.len() == (if first is Some {
        1nat
    } else {
        0nat
    }) {
        Some(number_query(second->0))
    } else {
        None
    }
}

pub fn ask_string(w: &World, method: &str, args: &Vec<Value>, answers: &Answers) -> (r: Option<
    Query,
>)
    ensures
        host::asked(r) == string_question(
            w@,
            method@,
            value::views(args@),
            host::answers_view(answers@),
        ),
{
    let two = takes_two_texts(method);
    if !(takes_one_text(method) || two) {
        return None;
    }
    let first = find_number_needed(w, value_at(args, 0));
    let used: usize = if first.is_some() {
        1
    } else {
        0
    };
    match first {
        Some((number, style)) => {
            if answers.len() == 0 {
                return Some(Query::Number { number, style });
            }
        },
        None => {},
    }
    match find_number_needed(w, value_at(args, 1)) {
        Some((number, style)) => if two && answers.len() == used {
            Some(Query::Number { number, style })
        } else {
            None
        },
        None => None,
    }
}

/// The text of the first argument, and that of the second.
pub open spec fn first_text(w: WorldView, args: Seq<ValueView>, answers: Seq<AnswerView>) -> Seq<
    char,
> {
    text_form(w, value::at(args, 0), host::text_in(answers, 0))
}

pub open spec fn second_text(w: WorldView, args: Seq<ValueView>, answers: Seq<AnswerView>) -> Seq<
    char,
> {
    let used = if number_needed(w, value::at(args, 0)) is Some {
        1int
    } else {
        0int
    };
    text_form(w, value::at(args, 1), host::text_in(answers, used))
}

pub open spec fn string_pair(
    w: WorldView,
    method: Seq<char>,
    left: Seq<char>,
    right: Seq<char>,
) -> Effected {
    if method == "concat"@ {
        gives(w.with_object(ObjectView::String(left + right)), ValueView::Object(w.fresh()))
    } else if method == "equals"@ {
        gives(w, activity::truth(left == right))
    } else if method == "equalsIgnoreCase"@ {
        gives(w, activity::truth(text::lower_all(left) == text::lower_all(right)))
    } else if method == "startsWith"@ {
        gives(w, activity::truth(text::starts(left, right)))
    } else if method == "endsWith"@ {
        gives(w, activity::truth(text::ends(left, right)))
    } else if method == "contains"@ {
        gives(w, activity::truth(text::contains(left, right)))
    } else if method == "split"@ {
        system::string_array(
            w,
            if right.len() == 0 {
                text::singles(left)
            } else {
                text::split(left, right)
            },
        )
    } else {
        gives(
            w,
            ValueView::Int(
                match text::first_match(left, right, 0) {
                    Some(i) => encode_utf8(left.take(i as int)).len() as usize as i32,
                    None => (-1) as i32,
                },
            ),
        )
    }
}

pub open spec fn string(
    w: WorldView,
    method: Seq<char>,
    args: Seq<ValueView>,
    answers: Seq<AnswerView>,
) -> Effected {
    let left = first_text(w, args, answers);
    if method == "valueOf"@ {
        gives(w.with_object(ObjectView::String(left)), ValueView::Object(w.fresh()))
    } else if method == "length"@ {
        gives(w, ValueView::Int(left.len() as i32))
    } else if method == "toString"@ {
        match convert::reference_arg(args, 0) {
            Err(e) => (w, Err(e)),
            Ok(id) => gives(w, ValueView::Object(id)),
        }
    } else if method == "charAt"@ {
        match convert::integer_arg(args, 1) {
            Err(e) => (w, Err(e)),
            Ok(i) => if 0 <= i < left.len() {
                gives(w, ValueView::Int(left[i as int] as i32))
            } else {
                gives(w, ValueView::Int(0))
            },
        }
    } else {
        string_pair(w, method, left, second_text(w, args, answers))
    }
}

fn truth_value(b: bool) -> (r: Value)
    ensures
        r@ == activity::truth(b),
{
    if b {
        Value::Int(1)
    } else {
        Value::Int(0)
    }
}

fn call_string_pair(w: &mut World, method: &str, left: String, right: String) -> (r: Result<
    Value,
    VmError,
>)
    ensures
        (final(w)@, error::outcome(r)) == string_pair(old(w)@, method@, left@, right@),
{
    let l = left.as_str();
    let s = right.as_str();
    if text::same(method, "concat") {
        let id = w.alloc_string(text::join(l, s));
        Ok(Value::Object(id))
    } else if text::same(method, "equals") {
        Ok(truth_value(text::same(l, s)))
    } else if text::same(method, "equalsIgnoreCase") {
        Ok(truth_value(text::same_ignoring_case(l, s)))
    } else if text::same(method, "startsWith") {
        Ok(truth_value(text::starts_with(l, s)))
    } else if text::same(method, "endsWith") {
        Ok(truth_value(text::ends_with(l, s)))
    } else if text::same(method, "contains") {
        Ok(truth_value(text::contains_text(l, s)))
    } else if text::same(method, "split") {
        let parts = if s.unicode_len() == 0 {
            text::single_texts(l)
        } else {
            text::split_text(l, s)
        };
        assert(host::texts(parts@) =~= parts.deep_view());
        make_string_array(w, &parts)
    } else {
        match text::find_text(l, s) {
            Some(i) => Ok(Value::Int(i as i32)),
            None => Ok(Value::Int(-1)),
        }
    }
}

pub fn call_string(w: &mut World, method: &str, args: &Vec<Value>, answers: &Answers) -> (r: Result<
    Value,
    VmError,
>)
    ensures
        (final(w)@, error::outcome(r)) == string(
            old(w)@,
            method@,
            value::views(args@),
            host::answers_view(answers@),
        ),
{
    let left = write_text(w, value_at(args, 0), host::get_text(answers, 0));
    if text::same(method, "valueOf") {
        let id = w.alloc_string(left);
        Ok(Value::Object(id))
    } else if text::same(method, "length") {
        Ok(Value::Int(left.as_str().unicode_len() as i32))
    } else if text::same(method, "toString") {
        let id = object_arg(args, 0)?;
        Ok(Value::Object(id))
    } else if text::same(method, "charAt") {
        let i = int_arg(args, 1)?;
        if 0 <= i && (i as usize) < left.as_str().unicode_len() {
            Ok(Value::Int(left.as_str().get_char(i as usize) as i32))
        } else {
            Ok(Value::Int(0))
        }
    } else {
        let used: usize = if find_number_needed(w, value_at(args, 0)).is_some() {
            1
        } else {
            0
        };
        let right = write_text(w, value_at(args, 1), host::get_text(answers, used));
        call_string_pair(w, method, left, right)
    }
}

// `java.lang.StringBuilder`.

pub open spec fn builder_question(
    method: Seq<char>,
    args: Seq<ValueView>,
    answers: Seq<AnswerView>,
) -> Option<QueryView> {
    if answers.len() == 0 && method == "append"@ && convert::reference_arg(args, 0) is Ok {
        match value::at(args, 1) {
            Some(v) => if error::is_floating(v) {
                Some(QueryView::Number { number: v, style: Style::Plain })
            } else {
                None
            },
            None => None,
        }
    } else {
        None
    }
}

pub fn ask_builder(method: &str, args: &Vec<Value>, answers: &Answers) -> (r: Option<Query>)
    ensures
        host::asked(r) == builder_question(
            method@,
            value::views(args@),
            host::answers_view(answers@),
        ),
{
    if answers.len() == 0 && text::same(method, "append") && object_arg(args, 0).is_ok() {
        match value_at(args, 1) {
            Some(Value::Float(n)) => Some(
                Query::Number { number: Value::Float(*n), style: Style::Plain },
            ),
            Some(Value::Double(n)) => Some(
                Query::Number { number: Value::Double(*n), style: Style::Plain },
            ),
            _ => None,
        }
    } else {
        None
    }
}

/// The text that is appended for a value.
pub open spec fn appended(w: WorldView, v: Option<ValueView>, number: Seq<char>) -> Seq<char> {
    match v {
        Some(ValueView::String(s)) => s,
        Some(ValueView::Int(n)) => text::decimal(n as int),
        Some(ValueView::Long(n)) => text::decimal(n as int),
        Some(ValueView::Float(_)) => number,
        Some(ValueView::Double(_)) => number,
        Some(ValueView::Object(id)) => match w.object(id) {
            Some(ObjectView::String(s)) => s,
            Some(ObjectView::StringBuilder(s)) => s,
            _ => Seq::empty(),
        },
        _ => Seq::empty(),
    }
}

fn text_to_append(w: &World, v: Option<&Value>, number: String) -> (r: String)
    ensures
        r@ == appended(w@, value::maybe(v), number@),
{
    match v {
        Some(Value::String(s)) => s.clone(),
        Some(Value::Int(n)) => text::decimal_text(*n as i64),
        Some(Value::Long(n)) => text::decimal_text(*n),
        Some(Value::Float(_)) => number,
        Some(Value::Double(_)) => number,
        Some(Value::Object(id)) => match w.heap_object(*id) {
            Some(HeapObject::String(s)) => s.clone(),
            Some(HeapObject::StringBuilder(s)) => s.clone(),
            _ => String::new(),
        },
        _ => String::new(),
    }
}

pub open spec fn builder_method(method: Seq<char>) -> bool {
    method == "append"@ || method == "toString"@ || method == "length"@
}

pub fn is_builder_method(method: &str) -> (r: bool)
    ensures
        r == builder_method(method@),
{
    text::same(method, "append") || text::same(method, "toString") || text::same(method, "length")
}

pub open spec fn builder(
    w: WorldView,
    receiver: ObjectId,
    method: Seq<char>,
    args: Seq<ValueView>,
    answers: Seq<AnswerView>,
) -> Effected {
    if method == "append"@ {
        let more = appended(w, value::at(args, 1), host::text_in(answers, 0));
        match w.object(receiver) {
            Some(ObjectView::StringBuilder(s)) => gives(
                w.replaced(receiver, ObjectView::StringBuilder(s + more)),
                ValueView::Object(receiver),
            ),
            _ => gives(w, ValueView::Object(receiver)),
        }
    } else if method == "toString"@ {
        let s = match w.object(receiver) {
            Some(ObjectView::StringBuilder(s)) => s,
            Some(ObjectView::String(s)) => s,
            _ => Seq::empty(),
        };
        gives(w.with_object(ObjectView::String(s)), ValueView::Object(w.fresh()))
    } else {
        match w.object(receiver) {
            Some(ObjectView::StringBuilder(s)) => gives(w, ValueView::Int(s.len() as i32)),
            _ => gives(w, ValueView::Int(0)),
        }
    }
}

pub fn call_builder(
    w: &mut World,
    receiver: ObjectId,
    method: &str,
    args: &Vec<Value>,
    answers: &Answers,
) -> (r: Result<Value, VmError>)
    ensures
        (final(w)@, error::outcome(r)) == builder(
            old(w)@,
            receiver,
            method@,
            value::views(args@),
            host::answers_view(answers@),
        ),
{
    if text::same(method, "append") {
        let more = text_to_append(w, value_at(args, 1), host::get_text(answers, 0));
        let longer = match w.heap_object(receiver) {
            Some(HeapObject::StringBuilder(s)) => Some(text::join(s.as_str(), more.as_str())),
            _ => None,
        };
        match longer {
            Some(s) => w.replace(receiver, HeapObject::StringBuilder(s)),
            None => {},
        }
        Ok(Value::Object(receiver))
    } else if text::same(method, "toString") {
        let s = match w.heap_object(receiver) {
            Some(HeapObject::StringBuilder(s)) => s.clone(),
            Some(HeapObject::String(s)) => s.clone(),
            _ => String::new(),
        };
        let id = w.alloc_string(s);
        Ok(Value::Object(id))
    } else {
        match w.heap_object(receiver) {
            Some(HeapObject::StringBuilder(s)) => Ok(
                Value::Int(s.as_str().unicode_len() as i32),
            ),
            _ => Ok(Value::Int(0)),
        }
    }
}

} // verus!
