//! `java.lang.Math`.

use vstd::prelude::*;

use crate::arith;
use crate::convert;
use crate::convert::{as_double, err_of};
use crate::error;
use crate::error::{failure_text, ErrorView, Outcome, VmError};
use crate::float;
use crate::host;
use crate::host::{AnswerView, Answers, Function, Query, QueryView};
use crate::text;
use crate::value;
use crate::value::{value_at, Value, ValueView};

verus! {

/// The functions of one argument that the surroundings compute.
pub open spec fn function_named(method: Seq<char>) -> Option<Function> {
    if method == "sqrt"@ {
        Some(Function::Sqrt)
    } else if method == "sin"@ {
        Some(Function::Sin)
    } else if method == "cos"@ {
        Some(Function::Cos)
    } else if method == "acos"@ {
        Some(Function::Acos)
    } else if method == "asin"@ {
        Some(Function::Asin)
    } else if method == "atan"@ {
        Some(Function::Atan)
    } else if method == "tan"@ {
        Some(Function::Tan)
    } else {
        None
    }
}

fn find_function(method: &str) -> (r: Option<Function>)
    ensures
        r == function_named(method@),
{
    if text::same(method, "sqrt") {
        Some(Function::Sqrt)
    } else if text::same(method, "sin") {
        Some(Function::Sin)
    } else if text::same(method, "cos") {
        Some(Function::Cos)
    } else if text::same(method, "acos") {
        Some(Function::Acos)
    } else if text::same(method, "asin") {
        Some(Function::Asin)
    } else if text::same(method, "atan") {
        Some(Function::Atan)
    } else if text::same(method, "tan") {
        Some(Function::Tan)
    } else {
        None
    }
}

/// Conversions between degrees and radians.
pub open spec fn conversion_named(method: Seq<char>) -> Option<Function> {
    if method == "toRadians"@ {
        Some(Function::ToRadians)
    } else if method == "toDegrees"@ {
        Some(Function::ToDegrees)
    } else {
        None
    }
}

fn find_conversion(method: &str) -> (r: Option<Function>)
    ensures
        r == conversion_named(method@),
{
    if text::same(method, "toRadians") {
        Some(Function::ToRadians)
    } else if text::same(method, "toDegrees") {
        Some(Function::ToDegrees)
    } else {
        None
    }
}

/// An argument; zero where it is missing.
pub open spec fn or_zero(v: Option<ValueView>) -> ValueView {
    match v {
        Some(v) => v,
        None => ValueView::Int(0),
    }
}

fn arg_or_zero(args: &Vec<Value>, index: usize) -> (r: Value)
    ensures
        r@ == or_zero(value::at(value::views(args@), index as int)),
{
    match value_at(args, index) {
        Some(v) => v.clone(),
        None => Value::Int(0),
    }
}

pub open spec fn double_arg(args: Seq<ValueView>, index: int) -> Result<u64, ErrorView> {
    convert::double_of(or_zero(value::at(args, index)), 0, 0)
}

fn get_double_arg(args: &Vec<Value>, index: usize) -> (r: Result<u64, VmError>)
    ensures
        err_of(r) == double_arg(value::views(args@), index as int),
{
    as_double(&arg_or_zero(args, index), 0, 0)
}

pub open spec fn function_question(f: Function, v: Option<ValueView>) -> Option<QueryView> {
    match v {
        Some(ValueView::Float(n)) => Some(QueryView::Single { function: f, single: n }),
        Some(ValueView::Double(n)) => Some(QueryView::Double { function: f, double: n }),
        Some(ValueView::Long(n)) => Some(
            QueryView::Double { function: f, double: float::int_as_double(n as int) },
        ),
        Some(ValueView::Int(n)) => Some(
            QueryView::Double { function: f, double: float::int_as_double(n as int) },
        ),
        _ => None,
    }
}

fn ask_function(f: Function, v: Option<&Value>) -> (r: Option<Query>)
    ensures
        host::asked(r) == function_question(f, value::maybe(v)),
{
    match v {
        Some(Value::Float(n)) => Some(Query::Single { function: f, single: *n }),
        Some(Value::Double(n)) => Some(Query::Double { function: f, double: *n }),
        Some(Value::Long(n)) => Some(
            Query::Double { function: f, double: float::int_to_double(*n) },
        ),
        Some(Value::Int(n)) => Some(
            Query::Double { function: f, double: float::int_to_double(*n as i64) },
        ),
        _ => None,
    }
}

pub open spec fn question(
    method: Seq<char>,
    args: Seq<ValueView>,
    answers: Seq<AnswerView>,
) -> Option<QueryView> {
    if answers.len() > 0 {
        None
    } else if function_named(method) is Some {
        function_question(function_named(method)->0, value::at(args, 0))
    } else if conversion_named(method) is Some {
        match double_arg(args, 0) {
            Ok(n) => Some(
                QueryView::Double { function: conversion_named(method)->0, double: n },
            ),
            Err(_) => None,
        }
    } else if method == "atan2"@ {
        match (double_arg(args, 0), double_arg(args, 1)) {
            (Ok(y), Ok(x)) => Some(QueryView::Angle { y, x }),
            _ => None,
        }
    } else if method == "random"@ {
        Some(QueryView::Nanoseconds)
    } else {
        None
    }
}

pub fn ask(method: &str, args: &Vec<Value>, answers: &Answers) -> (r: Option<Query>)
    ensures
        host::asked(r) == question(
            method@,
            value::views(args@),
            host::answers_view(answers@),
        ),
{
    if answers.len() > 0 {
        return None;
    }
    match find_function(method) {
        Some(f) => {
            return ask_function(f, value_at(args, 0));
        },
        None => {},
    }
    match find_conversion(method) {
        Some(f) => {
            return match get_double_arg(args, 0) {
                Ok(n) => Some(Query::Double { function: f, double: n }),
                Err(_) => None,
            };
        },
        None => {},
    }
    if text::same(method, "atan2") {
        match (get_double_arg(args, 0), get_double_arg(args, 1)) {
            (Ok(y), Ok(x)) => Some(Query::Angle { y, x }),
            _ => None,
        }
    } else if text::same(method, "random") {
        Some(Query::Nanoseconds)
    } else {
        None
    }
}

/// The nearest integer, halves away from zero.
pub open spec fn rounded(v: Option<ValueView>) -> ValueView {
    match v {
        Some(ValueView::Float(n)) => ValueView::Int(single_round(n)),
        Some(ValueView::Double(n)) => ValueView::Int(double_round(n)),
        Some(ValueView::Int(n)) => ValueView::Int(n),
        Some(ValueView::Long(n)) => ValueView::Int(n as i32),
        _ => ValueView::Int(0),
    }
}

pub open spec fn single_round(b: u32) -> i32 {
    if float::single_nan(b) {
        0
    } else {
        float::within(float::single_rounded(b), i32::MIN as int, i32::MAX as int) as i32
    }
}

pub open spec fn double_round(b: u64) -> i32 {
    if float::double_nan(b) {
        0
    } else {
        float::within(float::double_rounded(b), i32::MIN as int, i32::MAX as int) as i32
    }
}

/// The absolute value. The one that is too large stays negative.
pub open spec fn absolute(v: Option<ValueView>) -> ValueView {
    match v {
        Some(ValueView::Float(n)) => ValueView::Float(float::single_magnitude(n) as u32),
        Some(ValueView::Double(n)) => ValueView::Double(float::double_magnitude(n) as u64),
        Some(ValueView::Long(n)) => if n < 0 {
            ValueView::Long(0i64.wrapping_sub(n))
        } else {
            ValueView::Long(n)
        },
        Some(ValueView::Int(n)) => if n < 0 {
            ValueView::Int(0i32.wrapping_sub(n))
        } else {
            ValueView::Int(n)
        },
        _ => ValueView::Int(0),
    }
}

/// The lesser or the greater of two numbers of one type; zero for others.
pub open spec fn chosen(x: ValueView, y: ValueView, least: bool) -> ValueView {
    match (x, y) {
        (ValueView::Float(a), ValueView::Float(b)) => if least {
            ValueView::Float(float::single_lesser(a, b))
        } else {
            ValueView::Float(float::single_greater(a, b))
        },
        (ValueView::Double(a), ValueView::Double(b)) => if least {
            ValueView::Double(float::double_lesser(a, b))
        } else {
            ValueView::Double(float::double_greater(a, b))
        },
        (ValueView::Long(a), ValueView::Long(b)) => if (a <= b) == least {
            ValueView::Long(a)
        } else {
            ValueView::Long(b)
        },
        (ValueView::Int(a), ValueView::Int(b)) => if (a <= b) == least {
            ValueView::Int(a)
        } else {
            ValueView::Int(b)
        },
        _ => ValueView::Int(0),
    }
}

/// What a function of one argument gives: a single for a single, a double for other numbers.
pub open spec fn answered(v: Option<ValueView>, answers: Seq<AnswerView>) -> ValueView {
    match v {
        Some(ValueView::Float(_)) => ValueView::Float(host::single_in(answers)),
        Some(ValueView::Double(_)) => ValueView::Double(host::double_in(answers)),
        Some(ValueView::Long(_)) => ValueView::Double(host::double_in(answers)),
        Some(ValueView::Int(_)) => ValueView::Double(host::double_in(answers)),
        _ => ValueView::Double(0),
    }
}

/// A number below one, from the microsecond.
pub open spec fn fraction(nanoseconds: u64) -> u64 {
    arith::double_quotient(
        float::int_as_double(nanoseconds as int % 1_000_000),
        float::int_as_double(1_000_000),
    )
}

pub open spec fn call(
    method: Seq<char>,
    args: Seq<ValueView>,
    answers: Seq<AnswerView>,
) -> Outcome {
    if method == "round"@ {
        Ok(rounded(value::at(args, 0)))
    } else if method == "abs"@ {
        Ok(absolute(value::at(args, 0)))
    } else if function_named(method) is Some {
        Ok(answered(value::at(args, 0), answers))
    } else if method == "atan2"@ {
        match double_arg(args, 0) {
            Err(e) => Err(e),
            Ok(_) => match double_arg(args, 1) {
                Err(e) => Err(e),
                Ok(_) => Ok(ValueView::Double(host::double_in(answers))),
            },
        }
    } else if conversion_named(method) is Some {
        match double_arg(args, 0) {
            Err(e) => Err(e),
            Ok(_) => Ok(ValueView::Double(host::double_in(answers))),
        }
    } else if method == "random"@ {
        Ok(ValueView::Double(fraction(host::number_in(answers))))
    } else if method == "min"@ || method == "max"@ {
        Ok(
            chosen(
                or_zero(value::at(args, 0)),
                or_zero(value::at(args, 1)),
                method == "min"@,
            ),
        )
    } else {
        Err(
            error::fault(0, 0, "java.lang.Math method "@ + method + " is not implemented"@),
        )
    }
}

fn round(v: Option<&Value>) -> (r: Value)
    ensures
        r@ == rounded(value::maybe(v)),
{
    match v {
        Some(Value::Float(n)) => Value::Int(float::single_round(*n)),
        Some(Value::Double(n)) => Value::Int(float::double_round(*n)),
        Some(Value::Int(n)) => Value::Int(*n),
        Some(Value::Long(n)) => Value::Int(*n as i32),
        _ => Value::Int(0),
    }
}

fn abs(v: Option<&Value>) -> (r: Value)
    ensures
        r@ == absolute(value::maybe(v)),
{
    match v {
        Some(Value::Float(n)) => Value::Float(float::single_absolute(*n)),
        Some(Value::Double(n)) => Value::Double(float::double_absolute(*n)),
        Some(Value::Long(n)) => if *n < 0 {
            Value::Long(0i64.wrapping_sub(*n))
        } else {
            Value::Long(*n)
        },
        Some(Value::Int(n)) => if *n < 0 {
            Value::Int(0i32.wrapping_sub(*n))
        } else {
            Value::Int(*n)
        },
        _ => Value::Int(0),
    }
}

fn choose_number(x: &Value, y: &Value, least: bool) -> (r: Value)
    ensures
        r@ == chosen(x@, y@, least),
{
    match (x, y) {
        (Value::Float(a), Value::Float(b)) => if least {
            Value::Float(float::single_min(*a, *b))
        } else {
            Value::Float(float::single_max(*a, *b))
        },
        (Value::Double(a), Value::Double(b)) => if least {
            Value::Double(float::double_min(*a, *b))
        } else {
            Value::Double(float::double_max(*a, *b))
        },
        (Value::Long(a), Value::Long(b)) => if (*a <= *b) == least {
            Value::Long(*a)
        } else {
            Value::Long(*b)
        },
        (Value::Int(a), Value::Int(b)) => if (*a <= *b) == least {
            Value::Int(*a)
        } else {
            Value::Int(*b)
        },
        _ => Value::Int(0),
    }
}

fn answer(v: Option<&Value>, answers: &Answers) -> (r: Value)
    ensures
        r@ == answered(value::maybe(v), host::answers_view(answers@)),
{
    match v {
        Some(Value::Float(_)) => Value::Float(host::get_single(answers)),
        Some(Value::Double(_)) => Value::Double(host::get_double(answers)),
        Some(Value::Long(_)) => Value::Double(host::get_double(answers)),
        Some(Value::Int(_)) => Value::Double(host::get_double(answers)),
        _ => Value::Double(0),
    }
}

pub fn call_math(method: &str, args: &Vec<Value>, answers: &Answers) -> (r: Result<Value, VmError>)
    ensures
        error::outcome(r) == call(method@, value::views(args@), host::answers_view(answers@)),
{
    if text::same(method, "round") {
        Ok(round(value_at(args, 0)))
    } else if text::same(method, "abs") {
        Ok(abs(value_at(args, 0)))
    } else if find_function(method).is_some() {
        Ok(answer(value_at(args, 0), answers))
    } else if text::same(method, "atan2") {
        let _ = get_double_arg(args, 0)?;
        let _ = get_double_arg(args, 1)?;
        Ok(Value::Double(host::get_double(answers)))
    } else if find_conversion(method).is_some() {
        let _ = get_double_arg(args, 0)?;
        Ok(Value::Double(host::get_double(answers)))
    } else if text::same(method, "random") {
        let n: u64 = host::get_nanoseconds(answers) % 1_000_000;
        Ok(
            Value::Double(
                arith::double_divide(
                    float::int_to_double(n as i64),
                    float::int_to_double(1_000_000),
                ),
            ),
        )
    } else if text::same(method, "min") || text::same(method, "max") {
        let x = arg_or_zero(args, 0);
        let y = arg_or_zero(args, 1);
        Ok(choose_number(&x, &y, text::same(method, "min")))
    } else {
        Err(
            failure_text(
                0,
                0,
                text::join3("java.lang.Math method ", method, " is not implemented"),
            ),
        )
    }
}

} // verus!
