//! The library's mathematics.

use vstd::prelude::*;

use crate::arith;
use crate::convert;
use crate::convert::{err_of, float_arg, int_arg};
use crate::error;
use crate::error::{ErrorView, Outcome, VmError};
use crate::float;
use crate::framework::activity;
use crate::framework::math;
use crate::gdx::application;
use crate::gdx::application::object_value;
use crate::host;
use crate::host::{AnswerView, Answers, Function, Query, QueryView};
use crate::ops;
use crate::text;
use crate::value;
use crate::value::{value_at, Value, ValueView};

verus! {

/// The sine is asked for.
pub open spec fn question(
    method: Seq<char>,
    args: Seq<ValueView>,
    answers: Seq<AnswerView>,
) -> Option<QueryView> {
    if answers.len() == 0 && method == "sin"@ {
        match convert::single_arg(args, 0) {
            Ok(n) => Some(QueryView::Single { function: Function::Sin, single: n }),
            Err(_) => None,
        }
    } else {
        None
    }
}

pub fn ask(method: &str, args: &Vec<Value>, answers: &Answers) -> (r: Option<Query>)
    ensures
        host::asked(r) == question(
            method@,
            value::views(args@),
            host::answers_view(answers@),
        ),
{
    if answers.len() == 0 && text::same(method, "sin") {
        match float_arg(args, 0) {
            Ok(n) => Some(Query::Single { function: Function::Sin, single: n }),
            Err(_) => None,
        }
    } else {
        None
    }
}

pub open spec fn floating(v: Option<ValueView>) -> bool {
    match v {
        Some(v) => error::is_floating(v),
        None => false,
    }
}

fn is_floating(v: Option<&Value>) -> (r: bool)
    ensures
        r == floating(value::maybe(v)),
{
    match v {
        Some(Value::Float(_)) => true,
        Some(Value::Double(_)) => true,
        _ => false,
    }
}

/// A number between two singles, by the thousandth of the steps that have been executed.
pub open spec fn between(low: u32, high: u32, steps: usize) -> u32 {
    arith::single_sum(
        low,
        arith::single_product(
            arith::single_difference(high, low),
            arith::single_quotient(float::int_as_single(steps as int % 1000), 0x447a_0000),
        ),
    )
}

/// An integer between two, by the number of steps.
pub open spec fn integer_between(a: i32, b: i32, steps: usize) -> u32 {
    let low = if b < a {
        b as int
    } else {
        a as int
    };
    let high = if b < a {
        a as int
    } else {
        b as int
    };
    float::int_as_single(low + ops::remainder(steps as i64 as int, high - low + 1))
}

/// A number from the steps alone.
pub open spec fn scrambled(steps: usize) -> u32 {
    float::int_as_single(
        ((steps as i32).wrapping_mul(1103515245).wrapping_add(12345) & 0x7fff) as int,
    )
}

/// `MathUtils.random`: the number of executed steps stands in for chance.
pub open spec fn random(args: Seq<ValueView>, steps: usize) -> Result<u32, ErrorView> {
    if args.len() == 1 {
        match convert::single_arg(args, 0) {
            Err(e) => Err(e),
            Ok(n) => Ok(arith::single_half_and_half(n)),
        }
    } else if args.len() == 2 {
        if floating(value::at(args, 0)) || floating(value::at(args, 1)) {
            match convert::single_arg(args, 0) {
                Err(e) => Err(e),
                Ok(low) => match convert::single_arg(args, 1) {
                    Err(e) => Err(e),
                    Ok(high) => Ok(between(low, high, steps)),
                },
            }
        } else {
            match convert::integer_arg(args, 0) {
                Err(e) => Err(e),
                Ok(a) => match convert::integer_arg(args, 1) {
                    Err(e) => Err(e),
                    Ok(b) => Ok(integer_between(a, b, steps)),
                },
            }
        }
    } else {
        Ok(scrambled(steps))
    }
}

fn pick_integer(a: i32, b: i32, steps: usize) -> (r: u32)
    ensures
        r == integer_between(a, b, steps),
{
    let low: i64 = if b < a {
        b as i64
    } else {
        a as i64
    };
    let high: i64 = if b < a {
        a as i64
    } else {
        b as i64
    };
    let span: i64 = high - low + 1;
    let rest = ops::modulo(steps as i64, span);
    proof {
        let x = ops::magnitude(steps as i64 as int);
        vstd::arithmetic::div_mod::lemma_mod_bound(x, span as int);
    }
    float::int_to_single(low + rest)
}

pub fn call_random(args: &Vec<Value>, steps: usize) -> (r: Result<u32, VmError>)
    ensures
        err_of(r) == random(value::views(args@), steps),
{
    if args.len() == 1 {
        let n = float_arg(args, 0)?;
        Ok(arith::single_halve_and_add_half(n))
    } else if args.len() == 2 {
        if is_floating(value_at(args, 0)) || is_floating(value_at(args, 1)) {
            let low = float_arg(args, 0)?;
            let high = float_arg(args, 1)?;
            let part = arith::single_divide(
                float::count_to_single((steps % 1000) as u64),
                0x447a_0000,
            );
            Ok(
                arith::single_add(
                    low,
                    arith::single_multiply(arith::single_subtract(high, low), part),
                ),
            )
        } else {
            let a = int_arg(args, 0)?;
            let b = int_arg(args, 1)?;
            Ok(pick_integer(a, b, steps))
        }
    } else {
        let n = (steps as i32).wrapping_mul(1103515245).wrapping_add(12345) & 0x7fff;
        Ok(float::int_to_single(n as i64))
    }
}

/// `MathUtils`.
pub open spec fn math_utils(
    steps: usize,
    method: Seq<char>,
    args: Seq<ValueView>,
    answers: Seq<AnswerView>,
) -> Option<Outcome> {
    if method == "random"@ {
        match random(args, steps) {
            Err(e) => Some(Err(e)),
            Ok(n) => Some(
                Ok(ValueView::Int(float::single_as(n, i32::MIN as int, i32::MAX as int) as i32)),
            ),
        }
    } else if method == "randomBoolean"@ {
        Some(Ok(activity::truth(steps % 2 == 0)))
    } else if method == "round"@ {
        match convert::single_arg(args, 0) {
            Err(e) => Some(Err(e)),
            Ok(n) => Some(Ok(ValueView::Int(math::single_round(n)))),
        }
    } else if method == "sin"@ {
        match convert::single_arg(args, 0) {
            Err(e) => Some(Err(e)),
            Ok(_) => Some(
                Ok(ValueView::Int(ops::signed32(host::single_in(answers) as int) as i32)),
            ),
        }
    } else {
        None
    }
}

pub open spec fn maybe_outcome(r: Option<Result<Value, VmError>>) -> Option<Outcome> {
    match r {
        Some(r) => Some(error::outcome(r)),
        None => None,
    }
}

pub fn call_math_utils(steps: usize, method: &str, args: &Vec<Value>, answers: &Answers) -> (r:
    Option<Result<Value, VmError>>)
    ensures
        maybe_outcome(r) == math_utils(
            steps,
            method@,
            value::views(args@),
            host::answers_view(answers@),
        ),
{
    if text::same(method, "random") {
        match call_random(args, steps) {
            Err(e) => Some(Err(e)),
            Ok(n) => Some(Ok(Value::Int(float::single_to_int(n)))),
        }
    } else if text::same(method, "randomBoolean") {
        if steps % 2 == 0 {
            Some(Ok(Value::Int(1)))
        } else {
            Some(Ok(Value::Int(0)))
        }
    } else if text::same(method, "round") {
        match float_arg(args, 0) {
            Err(e) => Some(Err(e)),
            Ok(n) => Some(Ok(Value::Int(float::single_round(n)))),
        }
    } else if text::same(method, "sin") {
        match float_arg(args, 0) {
            Err(e) => Some(Err(e)),
            Ok(_) => Some(Ok(Value::Int(ops::as_signed(host::get_single(answers))))),
        }
    } else {
        None
    }
}

/// `Vector3.set` checks its arguments and gives the vector.
pub open spec fn set_vector(args: Seq<ValueView>) -> Outcome {
    match convert::id_of(value::at(args, 0)) {
        None => Ok(ValueView::Void),
        Some(id) => match convert::single_arg(args, 1) {
            Err(e) => Err(e),
            Ok(_) => match convert::single_arg(args, 2) {
                Err(e) => Err(e),
                Ok(_) => match convert::single_arg(args, 3) {
                    Err(e) => Err(e),
                    Ok(_) => Ok(application::object_result(id)),
                },
            },
        },
    }
}

pub fn call_set_vector(args: &Vec<Value>) -> (r: Result<Value, VmError>)
    ensures
        error::outcome(r) == set_vector(value::views(args@)),
{
    match convert::object_id(value_at(args, 0)) {
        None => Ok(Value::Void),
        Some(id) => {
            let _ = float_arg(args, 1)?;
            let _ = float_arg(args, 2)?;
            let _ = float_arg(args, 3)?;
            Ok(object_value(id))
        },
    }
}

} // verus!
