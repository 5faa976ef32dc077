//! The system: logging, threads, time, copying arrays.

use vstd::prelude::*;

use crate::convert;
use crate::convert::{int_arg, object_arg};
use crate::error;
use crate::error::{failure, VmError};
use crate::float;
use crate::host;
use crate::host::{AnswerView, Answers, Effect, EffectView, Query, QueryView};
use crate::text;
use crate::value;
use crate::value::{copy_values, set_value, HeapObject, ObjectView, Value, ValueView};
use crate::world;
use crate::world::{Effected, World, WorldView};

verus! {

/// A method that gives a value and does nothing else.
pub open spec fn gives(w: WorldView, v: ValueView) -> Effected {
    (w, Ok(v))
}

/// A method that gives a new instance of a class.
pub open spec fn makes(w: WorldView, class_name: Seq<char>) -> Effected {
    (w.with_object(world::instance_of(class_name)), Ok(ValueView::Object(w.fresh())))
}

pub fn make(w: &mut World, class_name: &str) -> (r: Result<Value, VmError>)
    ensures
        (final(w)@, error::outcome(r)) == makes(old(w)@, class_name@),
{
    let id = w.alloc_instance(class_name);
    Ok(Value::Object(id))
}

/// New string objects, one for each text.
pub open spec fn strings_made(w: WorldView, texts: Seq<Seq<char>>) -> (WorldView, Seq<ValueView>)
    decreases texts.len(),
{
    if texts.len() == 0 {
        (w, Seq::empty())
    } else {
        let (before, values) = strings_made(w, texts.drop_last());
        (
            before.with_object(ObjectView::String(texts.last())),
            values.push(ValueView::Object(before.fresh())),
        )
    }
}

/// A new array of new string objects.
pub open spec fn string_array(w: WorldView, texts: Seq<Seq<char>>) -> Effected {
    let (after, values) = strings_made(w, texts);
    (
        after.with_object(ObjectView::Array { component: "Ljava/lang/String;"@, values }),
        Ok(ValueView::Object(after.fresh())),
    )
}

pub fn make_string_array(w: &mut World, texts: &Vec<String>) -> (r: Result<Value, VmError>)
    ensures
        (final(w)@, error::outcome(r)) == string_array(old(w)@, host::texts(texts@)),
{
    let ghost all = host::texts(texts@);
    let ghost start = w@;
    let mut values: Vec<Value> = Vec::new();
    let mut i: usize = 0;
    assert(value::views(values@) =~= Seq::empty());
    while i < texts.len()
        invariant
            i <= texts.len(),
            all == host::texts(texts@),
            (w@, value::views(values@)) == strings_made(start, all.take(i as int)),
        decreases texts.len() - i,
    {
        assert(all.take(i as int + 1).drop_last() =~= all.take(i as int));
        assert(all.take(i as int + 1).last() == texts[i as int]@);
        let id = w.alloc_string(texts[i].clone());
        value::push_value(&mut values, Value::Object(id));
        i += 1;
    }
    assert(all.take(i as int) =~= all);
    let id = w.allocate(
        HeapObject::Array { component: "Ljava/lang/String;".to_owned(), values },
    );
    Ok(Value::Object(id))
}

// Logging.

/// The first string among the arguments from an index on; empty where there is none.
pub open spec fn first_string(args: Seq<ValueView>, from: int) -> Seq<char>
    decreases args.len() - from,
{
    if from < 0 || from >= args.len() {
        Seq::empty()
    } else {
        match args[from] {
            ValueView::String(s) => s,
            _ => first_string(args, from + 1),
        }
    }
}

fn find_string(args: &Vec<Value>, from: usize) -> (r: String)
    ensures
        r@ == first_string(value::views(args@), from as int),
    decreases args.len() - from,
{
    if from >= args.len() {
        return String::new();
    }
    match &args[from] {
        Value::String(s) => s.clone(),
        _ => find_string(args, from + 1),
    }
}

pub open spec fn is_level(method: Seq<char>) -> bool {
    method == "v"@ || method == "d"@ || method == "i"@ || method == "w"@ || method == "e"@
        || method == "wtf"@
}

/// `android.util.Log`.
pub open spec fn log(w: WorldView, method: Seq<char>, args: Seq<ValueView>) -> Effected {
    if method == "getStackTraceString"@ {
        gives(w, ValueView::String(Seq::empty()))
    } else if is_level(method) {
        gives(w.logged("Log/"@ + method + ": "@ + first_string(args, 1)), ValueView::Int(0))
    } else {
        gives(w, ValueView::Int(0))
    }
}

pub fn write_log(w: &mut World, method: &str, args: &Vec<Value>) -> (r: Result<Value, VmError>)
    ensures
        (final(w)@, error::outcome(r)) == log(old(w)@, method@, value::views(args@)),
{
    if text::same(method, "getStackTraceString") {
        return Ok(Value::String(String::new()));
    }
    if text::same(method, "v") || text::same(method, "d") || text::same(method, "i") || text::same(
        method,
        "w",
    ) || text::same(method, "e") || text::same(method, "wtf") {
        let head = text::join3("Log/", method, ": ");
        w.log(text::join(head.as_str(), find_string(args, 1).as_str()));
    }
    Ok(Value::Int(0))
}

// Threads.

/// `java.lang.Thread`. A frame sleeps at least a millisecond.
pub open spec fn thread(w: WorldView, method: Seq<char>, args: Seq<ValueView>) -> Effected {
    if method == "sleep"@ {
        match convert::integer_arg(args, 0) {
            Err(e) => (w, Err(e)),
            Ok(ms) => if ms < 0 {
                gives(w, ValueView::Void)
            } else {
                let delay = if w.frame_mode {
                    float::larger(ms as int, 1)
                } else {
                    ms as int
                };
                gives(w.did(EffectView::Sleep(delay as u64)), ValueView::Void)
            },
        }
    } else if method == "currentThread"@ {
        makes(w, "Ljava/lang/Thread;"@)
    } else if method == "getPriority"@ {
        gives(w, ValueView::Int(5))
    } else {
        gives(w, ValueView::Void)
    }
}

pub fn call_thread(w: &mut World, method: &str, args: &Vec<Value>) -> (r: Result<Value, VmError>)
    ensures
        (final(w)@, error::outcome(r)) == thread(old(w)@, method@, value::views(args@)),
{
    if text::same(method, "sleep") {
        let ms = int_arg(args, 0)?;
        if ms >= 0 {
            let delay: i32 = if w.frame_mode {
                world::max_int(ms, 1)
            } else {
                ms
            };
            w.perform(Effect::Sleep(delay as u64));
        }
        Ok(Value::Void)
    } else if text::same(method, "currentThread") {
        make(w, "Ljava/lang/Thread;")
    } else if text::same(method, "getPriority") {
        Ok(Value::Int(5))
    } else {
        Ok(Value::Void)
    }
}

/// `android.os.Looper`.
pub open spec fn looper(w: WorldView, method: Seq<char>) -> Effected {
    if method == "getThread"@ {
        makes(w, "Ljava/lang/Thread;"@)
    } else {
        gives(w, ValueView::Void)
    }
}

pub fn call_looper(w: &mut World, method: &str) -> (r: Result<Value, VmError>)
    ensures
        (final(w)@, error::outcome(r)) == looper(old(w)@, method@),
{
    if text::same(method, "getThread") {
        make(w, "Ljava/lang/Thread;")
    } else {
        Ok(Value::Void)
    }
}

/// `java.util.Locale`.
pub open spec fn locale(w: WorldView, method: Seq<char>) -> Effected {
    if method == "getDefault"@ {
        makes(w, "Ljava/util/Locale;"@)
    } else if method == "getCountry"@ {
        gives(w, ValueView::String("EN"@))
    } else {
        gives(w, ValueView::Void)
    }
}

pub fn call_locale(w: &mut World, method: &str) -> (r: Result<Value, VmError>)
    ensures
        (final(w)@, error::outcome(r)) == locale(old(w)@, method@),
{
    if text::same(method, "getDefault") {
        make(w, "Ljava/util/Locale;")
    } else if text::same(method, "getCountry") {
        Ok(Value::String("EN".to_owned()))
    } else {
        Ok(Value::Void)
    }
}

// `java.lang.System`.

pub open spec fn system_method(method: Seq<char>) -> bool {
    method == "nanoTime"@ || method == "loadLibrary"@ || method == "load"@ || method
        == "arraycopy"@ || method == "<init>"@ || method == "currentTimeMillis"@ || method
        == "identityHashCode"@
}

pub fn is_system_method(method: &str) -> (r: bool)
    ensures
        r == system_method(method@),
{
    text::same(method, "nanoTime") || text::same(method, "loadLibrary") || text::same(
        method,
        "load",
    ) || text::same(method, "arraycopy") || text::same(method, "<init>") || text::same(
        method,
        "currentTimeMillis",
    ) || text::same(method, "identityHashCode")
}

/// The time is asked for.
pub open spec fn clock_question(answers: Seq<AnswerView>) -> Option<QueryView> {
    if answers.len() == 0 {
        Some(QueryView::Nanoseconds)
    } else {
        None
    }
}

pub fn ask_clock(answers: &Answers) -> (r: Option<Query>)
    ensures
        host::asked(r) == clock_question(host::answers_view(answers@)),
{
    if answers.len() == 0 {
        Some(Query::Nanoseconds)
    } else {
        None
    }
}

/// A part of one sequence copied over a part of another.
pub open spec fn overlaid(
    source: Seq<ValueView>,
    from: int,
    target: Seq<ValueView>,
    to: int,
    length: int,
) -> Seq<ValueView> {
    Seq::new(
        target.len(),
        |i: int|
            if to <= i < to + length {
                source[i - to + from]
            } else {
                target[i]
            },
    )
}

pub open spec fn copy_array(w: WorldView, args: Seq<ValueView>) -> Effected {
    match convert::reference_arg(args, 0) {
        Err(e) => (w, Err(e)),
        Ok(source) => match convert::integer_arg(args, 1) {
            Err(e) => (w, Err(e)),
            Ok(from) => match convert::reference_arg(args, 2) {
                Err(e) => (w, Err(e)),
                Ok(target) => match convert::integer_arg(args, 3) {
                    Err(e) => (w, Err(e)),
                    Ok(to) => match convert::integer_arg(args, 4) {
                        Err(e) => (w, Err(e)),
                        Ok(count) => copy_between(
                            w,
                            source,
                            from as int,
                            target,
                            to as int,
                            float::larger(count as int, 0),
                        ),
                    },
                },
            },
        },
    }
}

pub open spec fn copy_between(
    w: WorldView,
    source: value::ObjectId,
    from: int,
    target: value::ObjectId,
    to: int,
    length: int,
) -> Effected {
    match w.object(source) {
        Some(ObjectView::Array { values, .. }) => match w.object(target) {
            Some(ObjectView::Array { component, values: old_values }) => if from < 0 || to < 0
                || from + length > values.len() || to + length > old_values.len() {
                (w, Err(error::fault(0, 0, "System.arraycopy range is outside an array"@)))
            } else {
                gives(
                    w.replaced(
                        target,
                        ObjectView::Array {
                            component,
                            values: overlaid(values, from, old_values, to, length),
                        },
                    ),
                    ValueView::Void,
                )
            },
            _ => (w, Err(error::fault(0, 0, "System.arraycopy destination is not an array"@))),
        },
        _ => (w, Err(error::fault(0, 0, "System.arraycopy source is not an array"@))),
    }
}

fn array_values(w: &World, id: value::ObjectId) -> (r: Option<(String, Vec<Value>)>)
    ensures
        match r {
            Some((component, values)) => w@.object(id) == Some(
                ObjectView::Array { component: component@, values: value::views(values@) },
            ),
            None => !(w@.object(id) matches Some(ObjectView::Array { .. })),
        },
{
    match w.heap_object(id) {
        Some(HeapObject::Array { component, values }) => Some(
            (component.clone(), copy_values(values)),
        ),
        _ => None,
    }
}

fn overlay(source: &Vec<Value>, from: usize, target: Vec<Value>, to: usize, length: usize) -> (r:
    Vec<Value>)
    requires
        from + length <= source.len(),
        to + length <= target.len(),
    ensures
        value::views(r@) == overlaid(
            value::views(source@),
            from as int,
            value::views(target@),
            to as int,
            length as int,
        ),
{
    let ghost before = value::views(target@);
    let mut r = target;
    let mut i: usize = 0;
    while i < length
        invariant
            i <= length,
            from + length <= source.len(),
            to + length <= r.len(),
            value::views(r@) =~= overlaid(
                value::views(source@),
                from as int,
                before,
                to as int,
                i as int,
            ),
        decreases length - i,
    {
        set_value(&mut r, to + i, source[from + i].clone());
        i += 1;
    }
    r
}

fn copy_arrays(
    w: &mut World,
    source: value::ObjectId,
    from: i32,
    target: value::ObjectId,
    to: i32,
    length: i32,
) -> (r: Result<Value, VmError>)
    requires
        length >= 0,
    ensures
        (final(w)@, error::outcome(r)) == copy_between(
            old(w)@,
            source,
            from as int,
            target,
            to as int,
            length as int,
        ),
{
    let values = match array_values(w, source) {
        Some((_, values)) => values,
        None => {
            return Err(failure(0, 0, "System.arraycopy source is not an array"));
        },
    };
    let (component, old_values) = match array_values(w, target) {
        Some(found) => found,
        None => {
            return Err(failure(0, 0, "System.arraycopy destination is not an array"));
        },
    };
    if from < 0 || to < 0 || from as u128 + length as u128 > values.len() as u128 || to as u128
        + length as u128 > old_values.len() as u128 {
        return Err(failure(0, 0, "System.arraycopy range is outside an array"));
    }
    let values = overlay(&values, from as usize, old_values, to as usize, length as usize);
    w.replace(target, HeapObject::Array { component, values });
    Ok(Value::Void)
}

/// `java.lang.System`.
pub open spec fn system(
    w: WorldView,
    method: Seq<char>,
    args: Seq<ValueView>,
    answers: Seq<AnswerView>,
) -> Effected {
    if method == "nanoTime"@ {
        gives(w, ValueView::Long(host::number_in(answers) as i64))
    } else if method == "loadLibrary"@ || method == "load"@ {
        gives(w.logged("System."@ + method + " ignored by HLE"@), ValueView::Void)
    } else if method == "arraycopy"@ {
        copy_array(w, args)
    } else if method == "<init>"@ {
        gives(w, ValueView::Void)
    } else if method == "currentTimeMillis"@ {
        gives(w, ValueView::Long(0))
    } else {
        gives(w, ValueView::Int(0))
    }
}

pub fn call_system(w: &mut World, method: &str, args: &Vec<Value>, answers: &Answers) -> (r: Result<
    Value,
    VmError,
>)
    ensures
        (final(w)@, error::outcome(r)) == system(
            old(w)@,
            method@,
            value::views(args@),
            host::answers_view(answers@),
        ),
{
    if text::same(method, "nanoTime") {
        Ok(Value::Long(host::get_nanoseconds(answers) as i64))
    } else if text::same(method, "loadLibrary") || text::same(method, "load") {
        w.log(text::join3("System.", method, " ignored by HLE"));
        Ok(Value::Void)
    } else if text::same(method, "arraycopy") {
        let source = object_arg(args, 0)?;
        let from = int_arg(args, 1)?;
        let target = object_arg(args, 2)?;
        let to = int_arg(args, 3)?;
        let count = int_arg(args, 4)?;
        copy_arrays(w, source, from, target, to, world::max_int(count, 0))
    } else if text::same(method, "<init>") {
        Ok(Value::Void)
    } else if text::same(method, "currentTimeMillis") {
        Ok(Value::Long(0))
    } else {
        Ok(Value::Int(0))
    }
}

} // verus!
