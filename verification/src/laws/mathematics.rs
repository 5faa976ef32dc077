//! The mathematical methods of the framework and of the game library, and colours.

use vstd::arithmetic::power2::*;
use vstd::prelude::*;

use crate::color;
use crate::error::ErrorView;
use crate::float;
use crate::framework::graphics;
use crate::framework::math;
use crate::framework::objects;
use crate::gdx::gl;
use crate::gdx::maths;
use crate::host::{AnswerView, EffectView, Function, QueryView};
use crate::laws::conversions;
use crate::laws::memory;
use crate::laws::rounding;
use crate::laws::rounding::{apart, closest_single, finite_single};
use crate::ops;
use crate::value;
use crate::value::{ObjectId, ValueView};
use crate::world::WorldView;

verus! {

/// These names are different.
proof fn lemma_math_methods()
    ensures
        "abs"@ != "round"@,
        "sqrt"@ != "round"@,
        "sqrt"@ != "abs"@,
        "sin"@ != "round"@,
        "sin"@ != "abs"@,
        "sin"@ != "sqrt"@,
        "cos"@ != "round"@,
        "cos"@ != "abs"@,
        "cos"@ != "sqrt"@,
        "cos"@ != "sin"@,
        "acos"@ != "round"@,
        "acos"@ != "abs"@,
        "acos"@ != "sqrt"@,
        "acos"@ != "sin"@,
        "acos"@ != "cos"@,
        "asin"@ != "round"@,
        "asin"@ != "abs"@,
        "asin"@ != "sqrt"@,
        "asin"@ != "sin"@,
        "asin"@ != "cos"@,
        "asin"@ != "acos"@,
        "atan"@ != "round"@,
        "atan"@ != "abs"@,
        "atan"@ != "sqrt"@,
        "atan"@ != "sin"@,
        "atan"@ != "cos"@,
        "atan"@ != "acos"@,
        "atan"@ != "asin"@,
        "tan"@ != "round"@,
        "tan"@ != "abs"@,
        "tan"@ != "sqrt"@,
        "tan"@ != "sin"@,
        "tan"@ != "cos"@,
        "tan"@ != "acos"@,
        "tan"@ != "asin"@,
        "tan"@ != "atan"@,
        "atan2"@ != "round"@,
        "atan2"@ != "abs"@,
        "atan2"@ != "sqrt"@,
        "atan2"@ != "sin"@,
        "atan2"@ != "cos"@,
        "atan2"@ != "acos"@,
        "atan2"@ != "asin"@,
        "atan2"@ != "atan"@,
        "atan2"@ != "tan"@,
        "toRadians"@ != "round"@,
        "toRadians"@ != "abs"@,
        "toRadians"@ != "sqrt"@,
        "toRadians"@ != "sin"@,
        "toRadians"@ != "cos"@,
        "toRadians"@ != "acos"@,
        "toRadians"@ != "asin"@,
        "toRadians"@ != "atan"@,
        "toRadians"@ != "tan"@,
        "toRadians"@ != "atan2"@,
        "toDegrees"@ != "round"@,
        "toDegrees"@ != "abs"@,
        "toDegrees"@ != "sqrt"@,
        "toDegrees"@ != "sin"@,
        "toDegrees"@ != "cos"@,
        "toDegrees"@ != "acos"@,
        "toDegrees"@ != "asin"@,
        "toDegrees"@ != "atan"@,
        "toDegrees"@ != "tan"@,
        "toDegrees"@ != "atan2"@,
        "toDegrees"@ != "toRadians"@,
        "random"@ != "round"@,
        "random"@ != "abs"@,
        "random"@ != "sqrt"@,
        "random"@ != "sin"@,
        "random"@ != "cos"@,
        "random"@ != "acos"@,
        "random"@ != "asin"@,
        "random"@ != "atan"@,
        "random"@ != "tan"@,
        "random"@ != "atan2"@,
        "random"@ != "toRadians"@,
        "random"@ != "toDegrees"@,
        "min"@ != "round"@,
        "min"@ != "abs"@,
        "min"@ != "sqrt"@,
        "min"@ != "sin"@,
        "min"@ != "cos"@,
        "min"@ != "acos"@,
        "min"@ != "asin"@,
        "min"@ != "atan"@,
        "min"@ != "tan"@,
        "min"@ != "atan2"@,
        "min"@ != "toRadians"@,
        "min"@ != "toDegrees"@,
        "min"@ != "random"@,
        "max"@ != "round"@,
        "max"@ != "abs"@,
        "max"@ != "sqrt"@,
        "max"@ != "sin"@,
        "max"@ != "cos"@,
        "max"@ != "acos"@,
        "max"@ != "asin"@,
        "max"@ != "atan"@,
        "max"@ != "tan"@,
        "max"@ != "atan2"@,
        "max"@ != "toRadians"@,
        "max"@ != "toDegrees"@,
        "max"@ != "random"@,
        "max"@ != "min"@,
{
    reveal_strlit("round");
    reveal_strlit("abs");
    reveal_strlit("sqrt");
    reveal_strlit("sin");
    reveal_strlit("cos");
    reveal_strlit("acos");
    reveal_strlit("asin");
    reveal_strlit("atan");
    reveal_strlit("tan");
    reveal_strlit("atan2");
    reveal_strlit("toRadians");
    reveal_strlit("toDegrees");
    reveal_strlit("random");
    reveal_strlit("min");
    reveal_strlit("max");
    assert("round"@.len() == 5);
    assert("abs"@.len() == 3);
    assert("sqrt"@.len() == 4);
    assert("sin"@.len() == 3);
    assert("cos"@.len() == 3);
    assert("acos"@.len() == 4);
    assert("asin"@.len() == 4);
    assert("atan"@.len() == 4);
    assert("tan"@.len() == 3);
    assert("atan2"@.len() == 5);
    assert("toRadians"@.len() == 9);
    assert("toDegrees"@.len() == 9);
    assert("random"@.len() == 6);
    assert("min"@.len() == 3);
    assert("max"@.len() == 3);
    assert("sin"@[0] == 's' && "abs"@[0] == 'a');
    assert("cos"@[0] == 'c' && "abs"@[0] == 'a');
    assert("cos"@[0] == 'c' && "sin"@[0] == 's');
    assert("acos"@[0] == 'a' && "sqrt"@[0] == 's');
    assert("asin"@[0] == 'a' && "sqrt"@[0] == 's');
    assert("asin"@[1] == 's' && "acos"@[1] == 'c');
    assert("atan"@[0] == 'a' && "sqrt"@[0] == 's');
    assert("atan"@[1] == 't' && "acos"@[1] == 'c');
    assert("atan"@[1] == 't' && "asin"@[1] == 's');
    assert("tan"@[0] == 't' && "abs"@[0] == 'a');
    assert("tan"@[0] == 't' && "sin"@[0] == 's');
    assert("tan"@[0] == 't' && "cos"@[0] == 'c');
    assert("atan2"@[0] == 'a' && "round"@[0] == 'r');
    assert("toDegrees"@[2] == 'D' && "toRadians"@[2] == 'R');
    assert("min"@[0] == 'm' && "abs"@[0] == 'a');
    assert("min"@[0] == 'm' && "sin"@[0] == 's');
    assert("min"@[0] == 'm' && "cos"@[0] == 'c');
    assert("min"@[0] == 'm' && "tan"@[0] == 't');
    assert("max"@[0] == 'm' && "abs"@[0] == 'a');
    assert("max"@[0] == 'm' && "sin"@[0] == 's');
    assert("max"@[0] == 'm' && "cos"@[0] == 'c');
    assert("max"@[0] == 'm' && "tan"@[0] == 't');
    assert("max"@[1] == 'a' && "min"@[1] == 'i');
}

/// Whether an integer is the nearest to a number, away from zero where two are as near, and held
/// within those of 32 bits.
pub open spec fn rounds_to(r: i32, worth: int, one: int) -> bool {
    if 2 * worth >= 2 * i32::MAX * one + one {
        r == i32::MAX
    } else if 2 * worth <= 2 * i32::MIN * one - one {
        r == i32::MIN
    } else if worth >= 0 {
        2 * r * one - one <= 2 * worth < 2 * r * one + one
    } else {
        2 * r * one - one < 2 * worth <= 2 * r * one + one
    }
}

proof fn lemma_held(n: int, worth: int, one: int)
    requires
        one > 0,
        worth >= 0 ==> 2 * n * one - one <= 2 * worth < 2 * n * one + one,
        worth <= 0 ==> 2 * n * one - one < 2 * worth <= 2 * n * one + one,
    ensures
        rounds_to(
            float::within(n, i32::MIN as int, i32::MAX as int) as i32,
            worth,
            one,
        ),
{
    let (low, high) = (i32::MIN as int, i32::MAX as int);
    assert(n > high ==> 2 * n * one - one >= 2 * high * one + one) by (nonlinear_arith)
        requires
            one > 0,
    ;
    assert(n < low ==> 2 * n * one + one <= 2 * low * one - one) by (nonlinear_arith)
        requires
            one > 0,
    ;
    assert(n <= high ==> 2 * n * one + one <= 2 * high * one + one) by (nonlinear_arith)
        requires
            one > 0,
    ;
    assert(n >= low ==> 2 * n * one - one >= 2 * low * one - one) by (nonlinear_arith)
        requires
            one > 0,
    ;
    assert(2 * high * one + one > 0) by (nonlinear_arith)
        requires
            one > 0,
            high > 0,
    ;
    assert(2 * low * one - one < 0) by (nonlinear_arith)
        requires
            one > 0,
            low < 0,
    ;
}

/// Rounding gives the nearest integer to a number of either kind, in both libraries.
pub proof fn numbers_are_rounded(s: u32, d: u64, steps: usize, answers: Seq<AnswerView>)
    ensures
        !float::single_nan(s) ==> (math::call("round"@, seq![ValueView::Float(s)], answers) matches Ok(
            ValueView::Int(r),
        ) && rounds_to(r, float::single_worth(s), pow2(149) as int)),
        !float::double_nan(d) ==> (math::call("round"@, seq![ValueView::Double(d)], answers) matches Ok(
            ValueView::Int(r),
        ) && rounds_to(r, float::double_worth(d), pow2(1074) as int)),
        float::single_nan(s) ==> math::call("round"@, seq![ValueView::Float(s)], answers) == Ok::<
            ValueView,
            ErrorView,
        >(ValueView::Int(0)),
        float::double_nan(d) ==> math::call("round"@, seq![ValueView::Double(d)], answers) == Ok::<
            ValueView,
            ErrorView,
        >(ValueView::Int(0)),
        !float::single_nan(s) ==> (maths::math_utils(
            steps,
            "round"@,
            seq![ValueView::Float(s)],
            answers,
        ) matches Some(Ok(ValueView::Int(r))) && rounds_to(
            r,
            float::single_worth(s),
            pow2(149) as int,
        )),
{
    reveal_strlit("round");
    reveal_strlit("random");
    reveal_strlit("randomBoolean");
    assert("round"@.len() == 5 && "random"@.len() == 6 && "randomBoolean"@.len() == 13);
    assert(value::at(seq![ValueView::Float(s)], 0) == Some(ValueView::Float(s)));
    assert(value::at(seq![ValueView::Double(d)], 0) == Some(ValueView::Double(d)));
    conversions::rounding_gives_the_nearest_integer(s, d);
    lemma_pow2_pos(149);
    lemma_pow2_pos(1074);
    lemma_held(float::single_rounded(s), float::single_worth(s), pow2(149) as int);
    lemma_held(float::double_rounded(d), float::double_worth(d), pow2(1074) as int);
}

/// An absolute value is as far from zero as the number and not negative, but for the least
/// integer, which stays as it is.
pub proof fn an_absolute_value_is_the_distance_from_zero(
    n: i32,
    m: i64,
    s: u32,
    d: u64,
    answers: Seq<AnswerView>,
)
    ensures
        math::call("abs"@, seq![ValueView::Int(n)], answers) matches Ok(ValueView::Int(r)) && if n
            == i32::MIN {
            r == n
        } else {
            r == apart(n as int, 0)
        },
        math::call("abs"@, seq![ValueView::Long(m)], answers) matches Ok(ValueView::Long(r)) && if m
            == i64::MIN {
            r == m
        } else {
            r == apart(m as int, 0)
        },
        math::call("abs"@, seq![ValueView::Float(s)], answers) matches Ok(ValueView::Float(r))
            && float::single_worth(r) == apart(float::single_worth(s), 0) && r < 0x8000_0000,
        math::call("abs"@, seq![ValueView::Double(d)], answers) matches Ok(ValueView::Double(r))
            && float::double_worth(r) == apart(float::double_worth(d), 0) && r
            < 0x8000_0000_0000_0000,
{
    lemma_math_methods();
    assert(value::at(seq![ValueView::Int(n)], 0) == Some(ValueView::Int(n)));
    assert(value::at(seq![ValueView::Long(m)], 0) == Some(ValueView::Long(m)));
    assert(value::at(seq![ValueView::Float(s)], 0) == Some(ValueView::Float(s)));
    assert(value::at(seq![ValueView::Double(d)], 0) == Some(ValueView::Double(d)));
}

/// The lesser of two numbers is one of them and not above either, the greater one of them and not
/// below either.
pub proof fn the_lesser_and_the_greater_are_chosen(
    n: i32,
    m: i32,
    s: u32,
    t: u32,
    answers: Seq<AnswerView>,
)
    ensures
        math::call("min"@, seq![ValueView::Int(n), ValueView::Int(m)], answers) matches Ok(
            ValueView::Int(r),
        ) && (r == n || r == m) && r <= n && r <= m,
        math::call("max"@, seq![ValueView::Int(n), ValueView::Int(m)], answers) matches Ok(
            ValueView::Int(r),
        ) && (r == n || r == m) && r >= n && r >= m,
        !float::single_nan(s) && !float::single_nan(t) ==> (math::call(
            "min"@,
            seq![ValueView::Float(s), ValueView::Float(t)],
            answers,
        ) matches Ok(ValueView::Float(r)) && (r == s || r == t) && float::single_worth(r)
            <= float::single_worth(s) && float::single_worth(r) <= float::single_worth(t)),
        !float::single_nan(s) && !float::single_nan(t) ==> (math::call(
            "max"@,
            seq![ValueView::Float(s), ValueView::Float(t)],
            answers,
        ) matches Ok(ValueView::Float(r)) && (r == s || r == t) && float::single_worth(r)
            >= float::single_worth(s) && float::single_worth(r) >= float::single_worth(t)),
{
    lemma_math_methods();
    let ints = seq![ValueView::Int(n), ValueView::Int(m)];
    let singles = seq![ValueView::Float(s), ValueView::Float(t)];
    assert(value::at(ints, 0) == Some(ValueView::Int(n)));
    assert(value::at(ints, 1) == Some(ValueView::Int(m)));
    assert(value::at(singles, 0) == Some(ValueView::Float(s)));
    assert(value::at(singles, 1) == Some(ValueView::Float(t)));
}

/// The same of longs and doubles.
pub proof fn the_lesser_and_the_greater_of_wide_numbers(
    n: i64,
    m: i64,
    s: u64,
    t: u64,
    answers: Seq<AnswerView>,
)
    ensures
        math::call("min"@, seq![ValueView::Long(n), ValueView::Long(m)], answers) matches Ok(
            ValueView::Long(r),
        ) && (r == n || r == m) && r <= n && r <= m,
        math::call("max"@, seq![ValueView::Long(n), ValueView::Long(m)], answers) matches Ok(
            ValueView::Long(r),
        ) && (r == n || r == m) && r >= n && r >= m,
        !float::double_nan(s) && !float::double_nan(t) ==> (math::call(
            "min"@,
            seq![ValueView::Double(s), ValueView::Double(t)],
            answers,
        ) matches Ok(ValueView::Double(r)) && (r == s || r == t) && float::double_worth(r)
            <= float::double_worth(s) && float::double_worth(r) <= float::double_worth(t)),
        !float::double_nan(s) && !float::double_nan(t) ==> (math::call(
            "max"@,
            seq![ValueView::Double(s), ValueView::Double(t)],
            answers,
        ) matches Ok(ValueView::Double(r)) && (r == s || r == t) && float::double_worth(r)
            >= float::double_worth(s) && float::double_worth(r) >= float::double_worth(t)),
{
    lemma_math_methods();
    let longs = seq![ValueView::Long(n), ValueView::Long(m)];
    let doubles = seq![ValueView::Double(s), ValueView::Double(t)];
    assert(value::at(longs, 0) == Some(ValueView::Long(n)));
    assert(value::at(longs, 1) == Some(ValueView::Long(m)));
    assert(value::at(doubles, 0) == Some(ValueView::Double(s)));
    assert(value::at(doubles, 1) == Some(ValueView::Double(t)));
}

/// What a trigonometric method gives is what the surroundings answer to the question that it asks:
/// that function of that number.
pub proof fn functions_are_asked_for_and_given(d: u64, other: u64, answer: u64)
    ensures
        ({
            let args = seq![ValueView::Double(d)];
            let given = seq![AnswerView::Double(answer)];
            let asks = |method: Seq<char>, function: Function|
                math::question(method, args, Seq::empty()) == Some(
                    QueryView::Double { function, double: d },
                ) && math::call(method, args, given) == Ok::<ValueView, ErrorView>(
                    ValueView::Double(answer),
                );
            &&& asks("sqrt"@, Function::Sqrt)
            &&& asks("sin"@, Function::Sin)
            &&& asks("cos"@, Function::Cos)
            &&& asks("tan"@, Function::Tan)
            &&& asks("asin"@, Function::Asin)
            &&& asks("acos"@, Function::Acos)
            &&& asks("atan"@, Function::Atan)
            &&& asks("toRadians"@, Function::ToRadians)
            &&& asks("toDegrees"@, Function::ToDegrees)
        }),
        ({
            let args = seq![ValueView::Double(d), ValueView::Double(other)];
            let given = seq![AnswerView::Double(answer)];
            &&& math::question("atan2"@, args, Seq::empty()) == Some(
                QueryView::Angle { y: d, x: other },
            )
            &&& math::call("atan2"@, args, given) == Ok::<ValueView, ErrorView>(
                ValueView::Double(answer),
            )
        }),
{
    lemma_math_methods();
    let args = seq![ValueView::Double(d)];
    let two = seq![ValueView::Double(d), ValueView::Double(other)];
    assert(value::at(args, 0) == Some(ValueView::Double(d)));
    assert(value::at(two, 0) == Some(ValueView::Double(d)));
    assert(value::at(two, 1) == Some(ValueView::Double(other)));
}

// Chance.

/// A random integer below a bound is at least zero and below it, and the generator goes on: its
/// next state is `1664525` times the last plus `1013904223`, modulo `2^32`.
pub proof fn a_random_integer_is_below_its_bound(
    w: WorldView,
    id: ObjectId,
    state: i32,
    bound: i32,
)
    requires
        w.class_of(id) is Some,
        w.field(id, "state"@) == Some(ValueView::Int(state)),
        bound > 0,
    ensures
        ({
            let args = seq![ValueView::Object(id), ValueView::Int(bound)];
            let (after, r) = objects::random(w, "nextInt"@, args);
            &&& r matches Ok(ValueView::Int(n)) && 0 <= n < bound
            &&& after.field(id, "state"@) matches Some(ValueView::Int(next)) && (next - (state
                * 1_664_525 + 1_013_904_223)) % 0x1_0000_0000 == 0
            &&& r matches Ok(ValueView::Int(n)) && after.field(id, "state"@) matches Some(
                ValueView::Int(next),
            ) && n == (if next < 0 {
                next + 0x8000_0000
            } else {
                next as int
            }) % (bound as int)
        }),
{
    reveal_strlit("nextInt");
    reveal_strlit("<init>");
    assert("nextInt"@.len() == 7 && "<init>"@.len() == 6);
    let args = seq![ValueView::Object(id), ValueView::Int(bound)];
    assert(value::at(args, 0) == Some(ValueView::Object(id)));
    assert(value::at(args, 1) == Some(ValueView::Int(bound)));
    let next = objects::next_state(state);
    memory::a_field_holds_what_is_set(w, id, "state"@, ValueView::Int(next), "state"@, id);
    assert((next & 0x7fff_ffff) >= 0) by (bit_vector);
    assert(next >= 0 ==> next & 0x7fff_ffff == next) by (bit_vector);
    assert(next < 0 ==> next & 0x7fff_ffff == next + 0x8000_0000) by (bit_vector);
    let m = state * 1_664_525;
    assert(m == state as int * 1_664_525);
    vstd::arithmetic::div_mod::lemma_fundamental_div_mod(m as int, 0x1_0000_0000);
    vstd::arithmetic::div_mod::lemma_mod_bound((next & 0x7fff_ffff) as int, bound as int);
}

/// A random integer of the game library between two is not outside of them, in whichever order
/// they are given.
pub proof fn a_random_integer_is_between(a: i32, b: i32, steps: usize)
    ensures
        ({
            let low = if a < b {
                a as int
            } else {
                b as int
            };
            let high = if a < b {
                b as int
            } else {
                a as int
            };
            &&& steps <= i64::MAX ==> closest_single(
                maths::integer_between(a, b, steps),
                (low + steps as int % (high - low + 1)) * pow2(149),
                1,
            )
            &&& steps <= i64::MAX ==> low <= low + steps as int % (high - low + 1) <= high
        }),
{
    let low = if a < b {
        a as int
    } else {
        b as int
    };
    let high = if a < b {
        b as int
    } else {
        a as int
    };
    let size = high - low + 1;
    vstd::arithmetic::div_mod::lemma_mod_bound(steps as int, size);
    if steps <= i64::MAX {
        assert(steps as i64 as int == steps);
        assert(ops::remainder(steps as int, size) == steps as int % size);
        conversions::an_integer_becomes_the_nearest_number(low + steps as int % size);
    }
}

/// Half of a number and a half together are the nearest single to that.
pub proof fn a_random_number_from_one_argument(n: u32, steps: usize)
    requires
        finite_single(n),
    ensures
        maths::random(seq![ValueView::Float(n)], steps) matches Ok(r) && closest_single(
            r,
            float::single_worth(n) + pow2(149),
            2,
        ),
{
    let args = seq![ValueView::Float(n)];
    assert(value::at(args, 0) == Some(ValueView::Float(n)));
    rounding::a_half_and_a_half_is_closest(n);
}

// Colours.

/// A packed colour is its four bytes: red on top, then green, blue and alpha. Each is found again
/// where it was put.
pub proof fn a_colour_is_its_bytes(c: color::Rgba8, n: i32)
    ensures
        (color::packed(c) - (c.r * 0x100_0000 + c.g * 0x1_0000 + c.b * 0x100 + c.a))
            % 0x1_0000_0000 == 0,
        ({
            let d = color::unpacked(n);
            (n - (d.r * 0x100_0000 + d.g * 0x1_0000 + d.b * 0x100 + d.a)) % 0x1_0000_0000 == 0
        }),
        ({
            let d = color::argb(n as u32);
            d.a * 0x100_0000 + d.r * 0x1_0000 + d.g * 0x100 + d.b == n as u32
        }),
{
    color::lemma_bytes(c.r, c.g, c.b, c.a);
    color::lemma_from_bytes(color::unsigned32(n));
    color::lemma_from_bytes((n as u32) as int);
}

/// `Color.argb` puts alpha on top, then red, green and blue, each as its lowest byte; `Color.rgb`
/// is opaque.
pub proof fn a_colour_is_mixed(a: i32, r: i32, g: i32, b: i32)
    ensures
        graphics::mix_color(
            "argb"@,
            seq![ValueView::Int(a), ValueView::Int(r), ValueView::Int(g), ValueView::Int(b)],
        ) matches Ok(ValueView::Int(n)) && (n - ((a as int % 0x100) * 0x100_0000 + (r as int
            % 0x100) * 0x1_0000 + (g as int % 0x100) * 0x100 + b as int % 0x100)) % 0x1_0000_0000
            == 0,
        graphics::mix_color(
            "rgb"@,
            seq![ValueView::Int(r), ValueView::Int(g), ValueView::Int(b)],
        ) matches Ok(ValueView::Int(n)) && (n - (0xff * 0x100_0000 + (r as int % 0x100) * 0x1_0000
            + (g as int % 0x100) * 0x100 + b as int % 0x100)) % 0x1_0000_0000 == 0,
{
    reveal_strlit("rgb");
    reveal_strlit("argb");
    assert("rgb"@.len() == 3 && "argb"@.len() == 4);
    let four = seq![ValueView::Int(a), ValueView::Int(r), ValueView::Int(g), ValueView::Int(b)];
    let three = seq![ValueView::Int(r), ValueView::Int(g), ValueView::Int(b)];
    assert(value::at(four, 0) == Some(ValueView::Int(a)));
    assert(value::at(four, 1) == Some(ValueView::Int(r)));
    assert(value::at(four, 2) == Some(ValueView::Int(g)));
    assert(value::at(four, 3) == Some(ValueView::Int(b)));
    assert(value::at(three, 0) == Some(ValueView::Int(r)));
    assert(value::at(three, 1) == Some(ValueView::Int(g)));
    assert(value::at(three, 2) == Some(ValueView::Int(b)));
}

// Drawing commands.

/// These names are different.
proof fn lemma_gl_methods()
    ensures
        "glClear"@ != "glClearColor"@,
        "glEnable"@ != "glClearColor"@,
        "glEnable"@ != "glClear"@,
        "glDisable"@ != "glClearColor"@,
        "glDisable"@ != "glClear"@,
        "glDisable"@ != "glEnable"@,
        "glBlendFunc"@ != "glClearColor"@,
        "glBlendFunc"@ != "glClear"@,
        "glBlendFunc"@ != "glEnable"@,
        "glBlendFunc"@ != "glDisable"@,
        "glBindTexture"@ != "glClearColor"@,
        "glBindTexture"@ != "glClear"@,
        "glBindTexture"@ != "glEnable"@,
        "glBindTexture"@ != "glDisable"@,
        "glBindTexture"@ != "glBlendFunc"@,
        "glViewport"@ != "glClearColor"@,
        "glViewport"@ != "glClear"@,
        "glViewport"@ != "glEnable"@,
        "glViewport"@ != "glDisable"@,
        "glViewport"@ != "glBlendFunc"@,
        "glViewport"@ != "glBindTexture"@,
        "glDrawArrays"@ != "glClearColor"@,
        "glDrawArrays"@ != "glClear"@,
        "glDrawArrays"@ != "glEnable"@,
        "glDrawArrays"@ != "glDisable"@,
        "glDrawArrays"@ != "glBlendFunc"@,
        "glDrawArrays"@ != "glBindTexture"@,
        "glDrawArrays"@ != "glViewport"@,
        "glDrawElements"@ != "glClearColor"@,
        "glDrawElements"@ != "glClear"@,
        "glDrawElements"@ != "glEnable"@,
        "glDrawElements"@ != "glDisable"@,
        "glDrawElements"@ != "glBlendFunc"@,
        "glDrawElements"@ != "glBindTexture"@,
        "glDrawElements"@ != "glViewport"@,
        "glDrawElements"@ != "glDrawArrays"@,
{
    reveal_strlit("glClearColor");
    reveal_strlit("glClear");
    reveal_strlit("glEnable");
    reveal_strlit("glDisable");
    reveal_strlit("glBlendFunc");
    reveal_strlit("glBindTexture");
    reveal_strlit("glViewport");
    reveal_strlit("glDrawArrays");
    reveal_strlit("glDrawElements");
    assert("glClearColor"@.len() == 12);
    assert("glClear"@.len() == 7);
    assert("glEnable"@.len() == 8);
    assert("glDisable"@.len() == 9);
    assert("glBlendFunc"@.len() == 11);
    assert("glBindTexture"@.len() == 13);
    assert("glViewport"@.len() == 10);
    assert("glDrawArrays"@.len() == 12);
    assert("glDrawElements"@.len() == 14);
    assert("glDrawArrays"@[2] == 'D' && "glClearColor"@[2] == 'C');
}

/// A drawing command goes out with its arguments, in their order, behind those before it. A
/// viewport is not less than nothing wide and high.
pub proof fn drawing_commands_go_out_as_they_are(
    w: WorldView,
    pipeline: bool,
    a: i32,
    b: i32,
    c: i32,
    d: i32,
)
    requires
        a >= 0 && b >= 0 && c >= 0,
    ensures
        ({
            let args = seq![
                ValueView::Null,
                ValueView::Int(a),
                ValueView::Int(b),
                ValueView::Int(c),
                ValueView::Int(d),
            ];
            let sends = |method: Seq<char>, effect: EffectView|
                gl::gl(w, pipeline, method, args) == Some(
                    (
                        WorldView { effects: w.effects.push(effect), ..w },
                        Ok::<ValueView, ErrorView>(ValueView::Void),
                    ),
                );
            &&& sends("glClear"@, EffectView::Clear(a as u32))
            &&& sends("glEnable"@, EffectView::Enable(a as u32))
            &&& sends("glDisable"@, EffectView::Disable(a as u32))
            &&& sends("glBlendFunc"@, EffectView::BlendFunc(a as u32, b as u32))
            &&& sends("glBindTexture"@, EffectView::BindTexture(a as u32, b as u32))
            &&& sends("glDrawArrays"@, EffectView::DrawArrays(a as u32, b, c))
            &&& sends("glDrawElements"@, EffectView::DrawElements(a as u32, b, c as u32))
            &&& sends(
                "glViewport"@,
                EffectView::Viewport(
                    a,
                    b,
                    c as u32,
                    if d < 0 {
                        0
                    } else {
                        d as u32
                    },
                ),
            )
        }),
{
    lemma_gl_methods();
    let args = seq![
        ValueView::Null,
        ValueView::Int(a),
        ValueView::Int(b),
        ValueView::Int(c),
        ValueView::Int(d),
    ];
    assert(value::at(args, 1) == Some(ValueView::Int(a)));
    assert(value::at(args, 2) == Some(ValueView::Int(b)));
    assert(value::at(args, 3) == Some(ValueView::Int(c)));
    assert(value::at(args, 4) == Some(ValueView::Int(d)));
}

/// The colour that the screen is cleared to has its four parts in their order.
pub proof fn a_clearing_colour_has_its_parts_in_order(
    w: WorldView,
    pipeline: bool,
    r: u32,
    g: u32,
    b: u32,
    a: u32,
)
    ensures
        ({
            let args = seq![
                ValueView::Null,
                ValueView::Float(r),
                ValueView::Float(g),
                ValueView::Float(b),
                ValueView::Float(a),
            ];
            gl::gl(w, pipeline, "glClearColor"@, args) matches Some((after, result))
                && after.effects.len() == w.effects.len() + 1
                && (after.effects.last() matches EffectView::ClearColor(c) && c.r == gl::unit_byte(
                r,
            ) && c.g == gl::unit_byte(g) && c.b == gl::unit_byte(b) && c.a == gl::unit_byte(a))
        }),
{
    let args = seq![
        ValueView::Null,
        ValueView::Float(r),
        ValueView::Float(g),
        ValueView::Float(b),
        ValueView::Float(a),
    ];
    assert(value::at(args, 1) == Some(ValueView::Float(r)));
    assert(value::at(args, 2) == Some(ValueView::Float(g)));
    assert(value::at(args, 3) == Some(ValueView::Float(b)));
    assert(value::at(args, 4) == Some(ValueView::Float(a)));
}

} // verus!
