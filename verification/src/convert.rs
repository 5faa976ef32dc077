//! Reading values as numbers and objects, and comparing them.

use vstd::prelude::*;

use crate::error;
use crate::error::{failure, failure_about, failure_text, ErrorView, VmError};
use crate::float;
use crate::text;
use crate::value;
use crate::value::{value_at, ObjectId, Value, ValueView};

verus! {

pub open spec fn err_of<T>(r: Result<T, VmError>) -> Result<T, ErrorView> {
    match r {
        Ok(v) => Ok(v),
        Err(e) => Err(e@),
    }
}

// Register operands.

/// A value as an integer; nothing counts as zero.
pub open spec fn int_of(value: ValueView, pc: usize, opcode: u8) -> Result<i32, ErrorView> {
    match value {
        ValueView::Int(v) => Ok(v),
        ValueView::Null => Ok(0),
        ValueView::Void => Ok(0),
        _ => Err(error::fault_about(pc, opcode, "value is not an integer: "@, value)),
    }
}

pub fn as_int(value: &Value, pc: usize, opcode: u8) -> (r: Result<i32, VmError>)
    ensures
        err_of(r) == int_of(value@, pc, opcode),
{
    match value {
        Value::Int(v) => Ok(*v),
        Value::Null => Ok(0),
        Value::Void => Ok(0),
        _ => Err(failure_about(pc, opcode, "value is not an integer: ".to_owned(), value)),
    }
}

pub open spec fn single_from(value: ValueView) -> Option<u32> {
    match value {
        ValueView::Float(v) => Some(v),
        ValueView::Double(v) => Some(float::double_as_single(v)),
        ValueView::Int(v) => Some(float::int_as_single(v as int)),
        ValueView::Long(v) => Some(float::int_as_single(v as int)),
        _ => None,
    }
}

/// A number as a single.
pub fn to_single(value: &Value) -> (r: Option<u32>)
    ensures
        r == single_from(value@),
{
    match value {
        Value::Float(v) => Some(*v),
        Value::Double(v) => Some(float::double_to_single(*v)),
        Value::Int(v) => Some(float::int_to_single(*v as i64)),
        Value::Long(v) => Some(float::int_to_single(*v)),
        _ => None,
    }
}

/// A value as a single; nothing counts as zero.
pub open spec fn single_of(value: ValueView, pc: usize, opcode: u8) -> Result<u32, ErrorView> {
    match value {
        ValueView::Void => Ok(0),
        ValueView::Null => Ok(0),
        _ => match single_from(value) {
            Some(v) => Ok(v),
            None => Err(error::fault(pc, opcode, "value is not a float"@)),
        },
    }
}

pub fn as_float(value: &Value, pc: usize, opcode: u8) -> (r: Result<u32, VmError>)
    ensures
        err_of(r) == single_of(value@, pc, opcode),
{
    match value {
        Value::Void => Ok(0),
        Value::Null => Ok(0),
        _ => match to_single(value) {
            Some(v) => Ok(v),
            None => Err(failure(pc, opcode, "value is not a float")),
        },
    }
}

/// A value as a long. `Void` is no long.
pub open spec fn long_of(value: ValueView, pc: usize, opcode: u8) -> Result<i64, ErrorView> {
    match value {
        ValueView::Long(v) => Ok(v),
        ValueView::Int(v) => Ok(v as i64),
        ValueView::Null => Ok(0),
        _ => Err(error::fault(pc, opcode, "value is not a long"@)),
    }
}

pub fn as_long(value: &Value, pc: usize, opcode: u8) -> (r: Result<i64, VmError>)
    ensures
        err_of(r) == long_of(value@, pc, opcode),
{
    match value {
        Value::Long(v) => Ok(*v),
        Value::Int(v) => Ok(*v as i64),
        Value::Null => Ok(0),
        _ => Err(failure(pc, opcode, "value is not a long")),
    }
}

/// A value as a double; nothing counts as zero.
pub open spec fn double_of(value: ValueView, pc: usize, opcode: u8) -> Result<u64, ErrorView> {
    match value {
        ValueView::Double(v) => Ok(v),
        ValueView::Float(v) => Ok(float::single_as_double(v)),
        ValueView::Int(v) => Ok(float::int_as_double(v as int)),
        ValueView::Long(v) => Ok(float::int_as_double(v as int)),
        ValueView::Void => Ok(0),
        ValueView::Null => Ok(0),
        _ => Err(error::fault(pc, opcode, "value is not a double"@)),
    }
}

pub fn as_double(value: &Value, pc: usize, opcode: u8) -> (r: Result<u64, VmError>)
    ensures
        err_of(r) == double_of(value@, pc, opcode),
{
    match value {
        Value::Double(v) => Ok(*v),
        Value::Float(v) => Ok(float::single_to_double(*v)),
        Value::Int(v) => Ok(float::int_to_double(*v as i64)),
        Value::Long(v) => Ok(float::int_to_double(*v)),
        Value::Void => Ok(0),
        Value::Null => Ok(0),
        _ => Err(failure(pc, opcode, "value is not a double")),
    }
}

// Arguments of framework methods.

pub open spec fn unfit(index: int, kind: Seq<char>) -> ErrorView {
    error::fault(0, 0, "framework argument "@ + text::decimal(index) + kind)
}

pub fn unfit_argument(index: usize, kind: &str) -> (r: VmError)
    ensures
        r@ == unfit(index as int, kind@),
{
    failure_text(
        0,
        0,
        text::join3("framework argument ", text::decimal_unsigned(index as u64).as_str(), kind),
    )
}

pub open spec fn single_arg(args: Seq<ValueView>, index: int) -> Result<u32, ErrorView> {
    match value::at(args, index) {
        Some(ValueView::Void) => Ok(0),
        Some(ValueView::Null) => Ok(0),
        Some(v) => match single_from(v) {
            Some(f) => Ok(f),
            None => Err(unfit(index, " is not numeric"@)),
        },
        None => Err(unfit(index, " is not numeric"@)),
    }
}

pub fn float_arg(args: &Vec<Value>, index: usize) -> (r: Result<u32, VmError>)
    ensures
        err_of(r) == single_arg(value::views(args@), index as int),
{
    match value_at(args, index) {
        Some(Value::Void) => Ok(0),
        Some(Value::Null) => Ok(0),
        Some(v) => match to_single(v) {
            Some(f) => Ok(f),
            None => Err(unfit_argument(index, " is not numeric")),
        },
        None => Err(unfit_argument(index, " is not numeric")),
    }
}

/// An argument as an integer; wider numbers are cut and floating-point numbers truncated.
pub open spec fn integer_arg(args: Seq<ValueView>, index: int) -> Result<i32, ErrorView> {
    match value::at(args, index) {
        Some(ValueView::Int(v)) => Ok(v),
        Some(ValueView::Long(v)) => Ok(v as i32),
        Some(ValueView::Float(v)) => Ok(float::single_as(v, i32::MIN as int, i32::MAX as int) as i32),
        Some(ValueView::Double(v)) => Ok(float::double_as(v, i32::MIN as int, i32::MAX as int) as i32),
        Some(ValueView::Void) => Ok(0),
        Some(ValueView::Null) => Ok(0),
        _ => Err(unfit(index, " is not an integer"@)),
    }
}

pub fn int_arg(args: &Vec<Value>, index: usize) -> (r: Result<i32, VmError>)
    ensures
        err_of(r) == integer_arg(value::views(args@), index as int),
{
    match value_at(args, index) {
        Some(Value::Int(v)) => Ok(*v),
        Some(Value::Long(v)) => Ok(*v as i32),
        Some(Value::Float(v)) => Ok(float::single_to_int(*v)),
        Some(Value::Double(v)) => Ok(float::double_to_int(*v)),
        Some(Value::Void) => Ok(0),
        Some(Value::Null) => Ok(0),
        _ => Err(unfit_argument(index, " is not an integer")),
    }
}

pub open spec fn id_of(value: Option<ValueView>) -> Option<ObjectId> {
    match value {
        Some(ValueView::Object(id)) => Some(id),
        _ => None,
    }
}

pub fn object_id(value: Option<&Value>) -> (r: Option<ObjectId>)
    ensures
        r == id_of(value::maybe(value)),
{
    match value {
        Some(Value::Object(id)) => Some(*id),
        _ => None,
    }
}

pub open spec fn reference_arg(args: Seq<ValueView>, index: int) -> Result<ObjectId, ErrorView> {
    match value::at(args, index) {
        Some(ValueView::Object(id)) => Ok(id),
        _ => Err(unfit(index, " is not an object"@)),
    }
}

pub fn object_arg(args: &Vec<Value>, index: usize) -> (r: Result<ObjectId, VmError>)
    ensures
        err_of(r) == reference_arg(value::views(args@), index as int),
{
    match value_at(args, index) {
        Some(Value::Object(id)) => Ok(*id),
        _ => Err(unfit_argument(index, " is not an object")),
    }
}

/// A number among optional arguments, as a single.
pub open spec fn number_at(args: Seq<ValueView>, index: int) -> Option<u32> {
    match value::at(args, index) {
        Some(v) => single_from(v),
        None => None,
    }
}

pub fn numeric_value(value: Option<&Value>) -> (r: Option<u32>)
    ensures
        r == (match value::maybe(value) {
            Some(v) => single_from(v),
            None => None,
        }),
{
    match value {
        Some(v) => to_single(v),
        None => None,
    }
}

// Comparison.

/// The order of two singles; a NaN on either side decides as told.
pub open spec fn single_comparison(a: u32, b: u32, nan_is_greater: bool) -> i32 {
    if float::single_nan(a) || float::single_nan(b) {
        if nan_is_greater {
            1
        } else {
            (-1) as i32
        }
    } else {
        float::order(float::single_worth(a), float::single_worth(b)) as i32
    }
}

pub fn compare_float(left: u32, right: u32, nan_is_greater: bool) -> (r: i32)
    ensures
        r == single_comparison(left, right, nan_is_greater),
{
    if float::single_is_nan(left) || float::single_is_nan(right) {
        return if nan_is_greater {
            1
        } else {
            -1
        };
    }
    float::single_order(left, right)
}

pub open spec fn double_comparison(a: u64, b: u64, nan_is_greater: bool) -> i32 {
    if float::double_nan(a) || float::double_nan(b) {
        if nan_is_greater {
            1
        } else {
            (-1) as i32
        }
    } else {
        float::order(float::double_worth(a), float::double_worth(b)) as i32
    }
}

pub fn compare_double(left: u64, right: u64, nan_is_greater: bool) -> (r: i32)
    ensures
        r == double_comparison(left, right, nan_is_greater),
{
    if float::double_is_nan(left) || float::double_is_nan(right) {
        return if nan_is_greater {
            1
        } else {
            -1
        };
    }
    float::double_order(left, right)
}

pub fn compare_long(left: i64, right: i64) -> (r: i32)
    ensures
        r == float::order(left as int, right as int),
{
    if left < right {
        -1
    } else if left == right {
        0
    } else {
        1
    }
}

/// Whether two values are equal. Floating-point numbers are compared as numbers: a NaN equals
/// nothing, and the two zeros are equal.
pub open spec fn equal(a: ValueView, b: ValueView) -> bool {
    match (a, b) {
        (ValueView::Float(x), ValueView::Float(y)) => !float::single_nan(x)
            && !float::single_nan(y) && float::single_worth(x) == float::single_worth(y),
        (ValueView::Double(x), ValueView::Double(y)) => !float::double_nan(x)
            && !float::double_nan(y) && float::double_worth(x) == float::double_worth(y),
        _ => a == b,
    }
}

pub fn values_equal(left: &Value, right: &Value) -> (r: bool)
    ensures
        r == equal(left@, right@),
{
    match (left, right) {
        (Value::Void, Value::Void) => true,
        (Value::Int(x), Value::Int(y)) => *x == *y,
        (Value::Long(x), Value::Long(y)) => *x == *y,
        (Value::Float(x), Value::Float(y)) => !float::single_is_nan(*x)
            && !float::single_is_nan(*y) && float::single_order(*x, *y) == 0,
        (Value::Double(x), Value::Double(y)) => !float::double_is_nan(*x)
            && !float::double_is_nan(*y) && float::double_order(*x, *y) == 0,
        (Value::Object(x), Value::Object(y)) => *x == *y,
        (Value::String(x), Value::String(y)) => text::same(x.as_str(), y.as_str()),
        (Value::Null, Value::Null) => true,
        _ => false,
    }
}

/// The order of two comparable values: numbers of one type, or nothing and nothing. A NaN
/// compares as equal.
pub open spec fn comparison(a: ValueView, b: ValueView) -> Option<i32> {
    match (a, b) {
        (ValueView::Int(x), ValueView::Int(y)) => Some(float::order(x as int, y as int) as i32),
        (ValueView::Long(x), ValueView::Long(y)) => Some(float::order(x as int, y as int) as i32),
        (ValueView::Float(x), ValueView::Float(y)) => if float::single_nan(x)
            || float::single_nan(y) {
            Some(0)
        } else {
            Some(single_comparison(x, y, false))
        },
        (ValueView::Double(x), ValueView::Double(y)) => if float::double_nan(x)
            || float::double_nan(y) {
            Some(0)
        } else {
            Some(double_comparison(x, y, false))
        },
        (ValueView::Void, ValueView::Void) => Some(0),
        (ValueView::Null, ValueView::Null) => Some(0),
        (ValueView::Void, ValueView::Null) => Some(0),
        (ValueView::Null, ValueView::Void) => Some(0),
        _ => None,
    }
}

pub fn order_of_values(left: &Value, right: &Value) -> (r: Option<i32>)
    ensures
        r == comparison(left@, right@),
{
    match (left, right) {
        (Value::Int(x), Value::Int(y)) => Some(compare_long(*x as i64, *y as i64)),
        (Value::Long(x), Value::Long(y)) => Some(compare_long(*x, *y)),
        (Value::Float(x), Value::Float(y)) => if float::single_is_nan(*x)
            || float::single_is_nan(*y) {
            Some(0)
        } else {
            Some(float::single_order(*x, *y))
        },
        (Value::Double(x), Value::Double(y)) => if float::double_is_nan(*x)
            || float::double_is_nan(*y) {
            Some(0)
        } else {
            Some(float::double_order(*x, *y))
        },
        (Value::Void, Value::Void) => Some(0),
        (Value::Null, Value::Null) => Some(0),
        (Value::Void, Value::Null) => Some(0),
        (Value::Null, Value::Void) => Some(0),
        _ => None,
    }
}

pub open spec fn incomparable(a: ValueView, b: ValueView, pc: usize, opcode: u8) -> ErrorView {
    ErrorView {
        pc,
        opcode,
        message: seq![
            error::PieceView::Text("values are not comparable: "@),
            error::PieceView::Debug(a),
            error::PieceView::Text(" and "@),
            error::PieceView::Debug(b),
        ],
    }
}

pub fn compare_values(left: &Value, right: &Value, pc: usize, opcode: u8) -> (r: Result<
    i32,
    VmError,
>)
    ensures
        err_of(r) == (match comparison(left@, right@) {
            Some(order) => Ok(order),
            None => Err(incomparable(left@, right@, pc, opcode)),
        }),
{
    match order_of_values(left, right) {
        Some(order) => Ok(order),
        None => {
            let e = VmError {
                pc,
                opcode,
                message: vec![
                    error::Piece::Text("values are not comparable: ".to_owned()),
                    error::Piece::Debug(left.clone()),
                    error::Piece::Text(" and ".to_owned()),
                    error::Piece::Debug(right.clone()),
                ],
            };
            assert(e@.message =~= incomparable(left@, right@, pc, opcode).message);
            Err(e)
        },
    }
}

/// Whether a value counts as zero in a test against zero.
pub open spec fn zero(value: ValueView) -> bool {
    match value {
        ValueView::Null => true,
        ValueView::Void => true,
        ValueView::Int(v) => v == 0,
        ValueView::Long(v) => v == 0,
        ValueView::Float(v) => float::single_magnitude(v) == 0,
        ValueView::Double(v) => float::double_magnitude(v) == 0,
        ValueView::Object(_) => false,
        ValueView::String(_) => false,
    }
}

pub fn is_zero(value: &Value) -> (r: bool)
    ensures
        r == zero(value@),
{
    match value {
        Value::Null => true,
        Value::Void => true,
        Value::Int(v) => *v == 0,
        Value::Long(v) => *v == 0,
        Value::Float(v) => *v % 0x8000_0000 == 0,
        Value::Double(v) => *v % 0x8000_0000_0000_0000 == 0,
        Value::Object(_) => false,
        Value::String(_) => false,
    }
}

/// The text by which values that cannot be compared are sorted, given the text of a
/// floating-point number.
pub open spec fn sort_text(value: ValueView, number: Seq<char>) -> Seq<char> {
    match value {
        ValueView::String(s) => s,
        ValueView::Int(v) => text::decimal(v as int),
        ValueView::Long(v) => text::decimal(v as int),
        ValueView::Float(_) => number,
        ValueView::Double(_) => number,
        ValueView::Object(v) => text::decimal(v as int),
        ValueView::Void => Seq::empty(),
        ValueView::Null => Seq::empty(),
    }
}

pub fn value_sort_key(value: &Value, number: &str) -> (r: String)
    ensures
        r@ == sort_text(value@, number@),
{
    match value {
        Value::String(s) => s.clone(),
        Value::Int(v) => text::decimal_text(*v as i64),
        Value::Long(v) => text::decimal_text(*v),
        Value::Float(_) => number.to_owned(),
        Value::Double(_) => number.to_owned(),
        Value::Object(v) => text::decimal_unsigned(*v as u64),
        Value::Void => String::new(),
        Value::Null => String::new(),
    }
}

} // verus!
