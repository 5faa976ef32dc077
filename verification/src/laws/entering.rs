//! How methods begin, what is traced, and fields of nothing.

use vstd::arithmetic::power2::*;
use vstd::prelude::*;

use crate::arith;
use crate::code::ActivationView;
use crate::dex;
use crate::dex::DexFile;
use crate::error::{ErrorView, PieceView};
use crate::float;
use crate::framework::math;
use crate::frames;
use crate::frames::{FrameView, StatusView};
use crate::gdx::maths;
use crate::host;
use crate::host::{AnswerView, Function, QueryView};
use crate::interp::execute;
use crate::laws::conversions;
use crate::laws::drawing;
use crate::laws::invoking::of_the_program;
use crate::laws::memory;
use crate::laws::rounding;
use crate::laws::rounding::{apart, closest_double, closest_single, finite_single};
use crate::laws::steps;
use crate::laws::steps::{bits, keeps_but, whole, within};
use crate::laws::texts;
use crate::laws::texts::stands_at;
use crate::machine::VmView;
use crate::text;
use crate::value;
use crate::value::{ObjectId, ObjectView, ValueView};
use crate::world::WorldView;

verus! {

// Which methods run.

/// The classes that are not the program's own are those of Android, Java and Dalvik, of the game
/// library, of its common classes and of one advertiser.
pub proof fn the_framework_has_its_packages(rest: Seq<char>, class_name: Seq<char>)
    ensures
        !of_the_program("Landroid/"@ + rest),
        !of_the_program("Ljava/"@ + rest),
        !of_the_program("Ldalvik/"@ + rest),
        !of_the_program("Lcom/badlogic/gdx/"@ + rest),
        !of_the_program("Lcom/hyperkani/common/"@ + rest),
        !of_the_program("Lcom/mobclix/"@ + rest),
        !of_the_program(class_name) ==> stands_at(class_name, "Landroid/"@, 0) || stands_at(
            class_name,
            "Ljava/"@,
            0,
        ) || stands_at(class_name, "Ldalvik/"@, 0) || stands_at(
            class_name,
            "Lcom/badlogic/gdx/"@,
            0,
        ) || stands_at(class_name, "Lcom/hyperkani/common/"@, 0) || stands_at(
            class_name,
            "Lcom/mobclix/"@,
            0,
        ),
{
    lemma_begins("Landroid/"@, rest);
    lemma_begins("Ljava/"@, rest);
    lemma_begins("Ldalvik/"@, rest);
    lemma_begins("Lcom/badlogic/gdx/"@, rest);
    lemma_begins("Lcom/hyperkani/common/"@, rest);
    lemma_begins("Lcom/mobclix/"@, rest);
    texts::a_text_is_found_where_it_stands(class_name, "Landroid/"@);
    texts::a_text_is_found_where_it_stands(class_name, "Ljava/"@);
    texts::a_text_is_found_where_it_stands(class_name, "Ldalvik/"@);
    texts::a_text_is_found_where_it_stands(class_name, "Lcom/badlogic/gdx/"@);
    texts::a_text_is_found_where_it_stands(class_name, "Lcom/hyperkani/common/"@);
    texts::a_text_is_found_where_it_stands(class_name, "Lcom/mobclix/"@);
}

proof fn lemma_begins(p: Seq<char>, rest: Seq<char>)
    ensures
        text::starts(p + rest, p),
{
    assert((p + rest).subrange(0, p.len() as int) =~= p);
    texts::a_text_is_found_where_it_stands(p + rest, p);
}

/// A method without code of the program's own that nothing stands for is an error, unless it is
/// abstract or native: such a one does nothing.
pub proof fn a_method_without_code(vm: VmView, m: dex::Method, args: Seq<ValueView>)
    requires
        vm.status is Running,
        vm.stack.len() > 0,
        vm.stack.last() == (FrameView::Prepared { method: m, args }),
        of_the_program(m.class_name@),
        m.code is None,
        m.framework_owner is None,
    ensures
        ({
            let flagged = m.access_flags matches Some(flags) && (flags & 0x0100 != 0 || flags
                & 0x0400 != 0);
            &&& vm.next().stack == vm.stack.drop_last()
            &&& vm.next().world == vm.world
            &&& vm.next().status matches StatusView::Returning(r) && if flagged {
                r == Ok::<ValueView, ErrorView>(ValueView::Void)
            } else {
                r is Err
            }
        }),
{
    reveal(VmView::begun);
    if let Some(flags) = m.access_flags {
        assert((flags & 0x0500 != 0) == (flags & 0x0100 != 0 || flags & 0x0400 != 0))
            by (bit_vector);
    }
}

/// Initialisers of the framework, and all of the advertiser's methods, do nothing.
pub proof fn what_the_framework_leaves_out(vm: VmView, m: dex::Method, args: Seq<ValueView>)
    requires
        vm.status is Running,
        vm.stack.len() > 0,
        vm.stack.last() == (FrameView::Prepared { method: m, args }),
        text::starts(m.class_name@, "Lcom/mobclix/"@) || !of_the_program(m.class_name@) && m.name@
            == "<clinit>"@,
    ensures
        vm.next() == (VmView {
            stack: vm.stack.drop_last(),
            status: StatusView::Returning(Ok(ValueView::Void)),
            ..vm
        }),
{
    reveal(VmView::begun);
}

/// A method that overrides nothing of the program's own is performed by the class of the framework
/// that it comes from.
pub proof fn an_inherited_method_is_left_to_its_owner(
    vm: VmView,
    m: dex::Method,
    owner: String,
    args: Seq<ValueView>,
)
    requires
        vm.status is Running,
        vm.stack.len() > 0,
        vm.stack.last() == (FrameView::Prepared { method: m, args }),
        of_the_program(m.class_name@),
        m.code is None,
        m.framework_owner == Some(owner),
    ensures
        vm.next().world == vm.world,
        vm.next().stack.last() matches FrameView::Host(h) && h.class_name == owner@ && h.method
            == m.name@ && h.args == args && h.answers.len() == 0 && h.game == stands_at(
            owner@,
            "Lcom/badlogic/gdx/"@,
            0,
        ),
{
    reveal(VmView::begun);
    texts::a_text_is_found_where_it_stands(owner@, "Lcom/badlogic/gdx/"@);
}

/// Rendering begins with the method of the engine that renders, and a frame that was given up
/// before is rendered anew. Every other method runs in the mode that its caller has, and not at all
/// in a frame that was given up.
pub proof fn rendering_begins_with_its_method(vm: VmView, m: dex::Method, args: Seq<ValueView>)
    requires
        vm.status is Running,
        vm.stack.len() > 0,
        vm.stack.last() == (FrameView::Prepared { method: m, args }),
        of_the_program(m.class_name@),
        m.code matches Some(code) && args.len() <= code.ins_size <= code.registers_size,
    ensures
        ({
            let begins = m.class_name@ == "Lcom/hyperkani/sliceice/Engine;"@ && m.name@
                == "render"@;
            &&& begins ==> vm.next().world.frame_mode && !vm.next().frame_aborted && (
            vm.next().stack.last() matches FrameView::Code(f) && f.restore == Some(
                (vm.world.frame_mode, vm.frame_aborted),
            ))
            &&& !begins ==> vm.next().world == vm.world && vm.next().frame_aborted
                == vm.frame_aborted
            &&& !begins && vm.world.frame_mode && vm.frame_aborted ==> vm.next().status
                == StatusView::Returning(Ok(ValueView::Void)) && vm.next().stack
                == vm.stack.drop_last()
            &&& !begins && !(vm.world.frame_mode && vm.frame_aborted) ==> (
            vm.next().stack.last() matches FrameView::Code(f) && f.restore is None)
        }),
{
    reveal(VmView::begun);
    reveal(VmView::entered);
}

// Tracing.

/// Where registers are traced, a call adds one line: it names the method and holds the arguments.
pub proof fn a_call_is_traced(vm: VmView, index: nat, args: Seq<ValueView>)
    requires
        vm.status is Running,
        vm.stack.len() > 0,
        vm.stack.last() == (FrameView::Call { index, args }),
        frames::depth(vm.stack.drop_last()) < vm.config.max_call_depth,
        index < vm.dex.methods.len(),
        vm.config.trace_registers,
    ensures
        ({
            let m = vm.dex.methods[index as int];
            let (before, after) = (vm.trace, vm.next().trace);
            &&& after.len() == before.len() + 1
            &&& forall|i: int| 0 <= i < before.len() ==> #[trigger] after[i] == before[i]
            &&& after.last() == seq![
                PieceView::Text(
                    "enter "@ + m.class_name@ + "->"@ + m.name@ + "("@ + m.prototype@ + ") args="@,
                ),
                PieceView::Registers(args),
            ]
        }),
{
    reveal(VmView::called);
    reveal(VmView::begun);
    reveal(VmView::entered);
}

// Fields of nothing.

/// A number that is a field of nothing is zero; another field of nothing is an error.
pub proof fn a_field_of_nothing_is_blank(
    dex: &DexFile,
    words: Seq<u16>,
    w: WorldView,
    a: ActivationView,
    opcode: u8,
    instruction: u16,
)
    requires
        0x52 <= opcode <= 0x58,
        opcode != 0x53,
        whole(words, a, 2),
        within(a, bits(instruction, 8, 0xf)),
        within(a, bits(instruction, 12, 0xf)),
        a.registers[bits(instruction, 12, 0xf)] == ValueView::Null,
        words[a.pc + 1] < dex.fields.len(),
    ensures
        ({
            let dest = bits(instruction, 8, 0xf);
            let kind = dex.fields[words[a.pc + 1] as int].descriptor@;
            let (world, stepped) = execute::plain_step(dex, words, w, a, opcode, instruction);
            let reads = |v: ValueView|
                (stepped matches Ok(after) && keeps_but(a, after, dest, 2) && after.registers[dest]
                    == v);
            &&& world == w
            &&& if kind == "I"@ || kind == "Z"@ || kind == "B"@ || kind == "S"@ || kind == "C"@ {
                reads(ValueView::Int(0))
            } else if kind == "F"@ {
                reads(ValueView::Float(0))
            } else if kind == "J"@ {
                reads(ValueView::Long(0))
            } else if kind == "D"@ {
                reads(ValueView::Double(0))
            } else {
                stepped is Err
            }
        }),
{
    steps::the_parts_of_a_word(instruction);
}

/// A number that is written to a field of nothing is lost; anything else is an error.
pub proof fn a_field_of_nothing_takes_nothing(
    dex: &DexFile,
    words: Seq<u16>,
    w: WorldView,
    a: ActivationView,
    opcode: u8,
    instruction: u16,
)
    requires
        0x59 <= opcode <= 0x5f,
        whole(words, a, 2),
        within(a, bits(instruction, 12, 0xf)),
        a.registers[bits(instruction, 12, 0xf)] == ValueView::Null,
        words[a.pc + 1] < dex.fields.len(),
    ensures
        ({
            let kind = dex.fields[words[a.pc + 1] as int].descriptor@;
            let (world, stepped) = execute::plain_step(dex, words, w, a, opcode, instruction);
            &&& world == w
            &&& if kind == "I"@ || kind == "Z"@ || kind == "B"@ || kind == "S"@ || kind == "C"@
                || kind == "F"@ || kind == "J"@ || kind == "D"@ {
                stepped matches Ok(after) && steps::goes_to(a, after, a.pc + 2)
            } else {
                stepped is Err
            }
        }),
{
    steps::the_parts_of_a_word(instruction);
}

/// A class object that gets a field becomes an instance of its class, which holds the field.
pub proof fn a_class_object_becomes_an_instance(
    dex: &DexFile,
    words: Seq<u16>,
    w: WorldView,
    a: ActivationView,
    opcode: u8,
    instruction: u16,
    id: ObjectId,
    class_name: Seq<char>,
)
    requires
        0x59 <= opcode <= 0x5f,
        whole(words, a, 2),
        within(a, bits(instruction, 8, 0xf)),
        within(a, bits(instruction, 12, 0xf)),
        a.registers[bits(instruction, 12, 0xf)] == ValueView::Object(id),
        w.object(id) == Some(ObjectView::Class(class_name)),
    ensures
        ({
            let key = dex.key(words[a.pc + 1] as nat);
            let (world, stepped) = execute::plain_step(dex, words, w, a, opcode, instruction);
            &&& stepped matches Ok(after) && steps::goes_to(a, after, a.pc + 2)
            &&& world.class_of(id) == Some(class_name)
            &&& world.field(id, key) == Some(a.registers[bits(instruction, 8, 0xf)])
        }),
{
    steps::the_parts_of_a_word(instruction);
    let key = dex.key(words[a.pc + 1] as nat);
    let v = a.registers[bits(instruction, 8, 0xf)];
    let made = w.replaced(id, crate::world::instance_of(class_name));
    memory::a_field_holds_what_is_set(made, id, key, v, key, id);
}

/// `move-exception` of a long gives its upper half, and of a double its lower half; another value
/// is given whole.
pub proof fn half_a_value_is_moved(
    dex: &DexFile,
    words: Seq<u16>,
    w: WorldView,
    a: ActivationView,
    instruction: u16,
)
    requires
        whole(words, a, 1),
        within(a, bits(instruction, 8, 0xff)),
    ensures
        ({
            let dest = bits(instruction, 8, 0xff);
            let (world, stepped) = execute::plain_step(dex, words, w, a, 0x0d, instruction);
            &&& world == w
            &&& stepped matches Ok(after) && keeps_but(a, after, dest, 1) && match a.result {
                ValueView::Long(n) => (after.registers[dest] matches ValueView::Int(h) && h
                    * 0x1_0000_0000 <= n < (h + 1) * 0x1_0000_0000),
                ValueView::Double(n) => (after.registers[dest] matches ValueView::Int(h) && (n - h)
                    % 0x1_0000_0000 == 0),
                v => after.registers[dest] == v,
            }
        }),
{
    steps::the_parts_of_a_word(instruction);
    match a.result {
        ValueView::Long(n) => lemma_upper_half(n),
        ValueView::Double(n) => lemma_lower_half(n),
        _ => {},
    }
}

proof fn lemma_upper_half(n: i64)
    ensures
        ({
            let h = (n >> 32) as i32;
            h * 0x1_0000_0000 <= n < (h + 1) * 0x1_0000_0000
        }),
{
    let high = n >> 32;
    let low = n & 0xffff_ffff;
    assert(-0x8000_0000 <= high < 0x8000_0000) by (bit_vector)
        requires
            high == n >> 32,
    ;
    assert(0 <= low < 0x1_0000_0000 && high * 0x1_0000_0000 + low == n) by (bit_vector)
        requires
            high == n >> 32,
            low == n & 0xffff_ffff,
    ;
}

proof fn lemma_lower_half(n: u64)
    ensures
        (n - (n as u32 as i32)) % 0x1_0000_0000 == 0,
{
    let low = n as u32;
    assert(low as u64 == n % 0x1_0000_0000) by (bit_vector)
        requires
            low == n as u32,
    ;
    lemma_same_bits(low, low as i32);
}

proof fn lemma_same_bits(u: u32, t: i32)
    requires
        t == u as i32 || u == t as u32,
    ensures
        t == u || t == u - 0x1_0000_0000,
{
    assert(t == u || t == u - 0x1_0000_0000) by (bit_vector)
        requires
            t == u as i32 || u == t as u32,
    ;
}

// Chance.

/// Without arguments, `random` of the game library gives a number below 32768 that depends on the
/// steps alone: `1103515245` times them plus `12345`, without what is above fifteen bits.
pub proof fn a_random_number_from_the_steps(steps: usize)
    ensures
        ({
            let n = (steps * 1_103_515_245 + 12_345) % 0x8000;
            maths::random(Seq::empty(), steps) matches Ok(r) && float::single_worth(r) == n * pow2(
                149,
            )
        }),
{
    let s = steps as i32;
    let n = (steps * 1_103_515_245 + 12_345) % 0x8000;
    let m = s.wrapping_mul(1103515245);
    let t = m.wrapping_add(12345);
    lemma_fifteen_bits(t);
    lemma_wrapped(steps, s);
    lemma_low_bits(steps as int, s as int, m as int, t as int);
    conversions::a_short_integer_is_exact_as_a_single(n);
}

proof fn lemma_fifteen_bits(t: i32)
    ensures
        (t & 0x7fff) as int == t as int % 0x8000,
{
    let u = t as u32;
    assert(u & 0x7fff == u % 0x8000) by (bit_vector);
    assert((t & 0x7fff) == (u & 0x7fff) as i32) by (bit_vector)
        requires
            u == t as u32,
    ;
    lemma_same_bits(u, t);
}

proof fn lemma_wrapped(steps: usize, s: i32)
    requires
        s == steps as i32,
    ensures
        (s - steps) % 0x1_0000_0000 == 0,
        ({
            let m = s.wrapping_mul(1103515245);
            &&& (m - s * 1_103_515_245) % 0x1_0000_0000 == 0
            &&& (m.wrapping_add(12345) - (m + 12_345)) % 0x1_0000_0000 == 0
        }),
{
    let u = steps as u64;
    let low = u as u32;
    assert(low as u64 == u % 0x1_0000_0000) by (bit_vector)
        requires
            low == u as u32,
    ;
    assert(s == low as i32) by (bit_vector)
        requires
            s == u as i32,
            low == u as u32,
    ;
    lemma_same_bits(low, s);
    let m = s.wrapping_mul(1103515245);
    vstd::arithmetic::div_mod::lemma_fundamental_div_mod(s * 1_103_515_245, 0x1_0000_0000);
}

proof fn lemma_low_bits(steps: int, s: int, m: int, t: int)
    requires
        (s - steps) % 0x1_0000_0000 == 0,
        (m - s * 1_103_515_245) % 0x1_0000_0000 == 0,
        (t - (m + 12_345)) % 0x1_0000_0000 == 0,
    ensures
        t % 0x8000 == (steps * 1_103_515_245 + 12_345) % 0x8000,
{
    let a = (s - steps) / 0x1_0000_0000;
    let b = (m - s * 1_103_515_245) / 0x1_0000_0000;
    let c = (t - (m + 12_345)) / 0x1_0000_0000;
    let k = a * 1_103_515_245 + b + c;
    assert(t == steps * 1_103_515_245 + 12_345 + k * 0x1_0000_0000);
    vstd::arithmetic::div_mod::lemma_mod_multiples_vanish(
        k * 0x2_0000,
        steps * 1_103_515_245 + 12_345,
        0x8000,
    );
}

/// Between two numbers, `random` of the game library goes as many thousandths of the way as the
/// steps say, each operation rounded to the nearest single.
pub proof fn a_random_number_is_on_the_way(low: u32, high: u32, steps: usize)
    requires
        finite_single(low),
        finite_single(high),
    ensures
        maths::random(seq![ValueView::Float(low), ValueView::Float(high)], steps) matches Ok(r)
            && exists|way: u32, part: u32, part_way: u32|
            #![trigger float::single_worth(way), float::single_worth(part), float::single_worth(part_way)]
            {
                &&& closest_single(way, float::single_worth(high) - float::single_worth(low), 1)
                &&& closest_single(part, (steps % 1000) * pow2(149), 1000)
                &&& finite_single(way) && finite_single(part) ==> closest_single(
                    part_way,
                    float::single_worth(way) * float::single_worth(part),
                    pow2(149) as int,
                )
                &&& finite_single(part_way) ==> closest_single(
                    r,
                    float::single_worth(low) + float::single_worth(part_way),
                    1,
                )
            },
{
    let args = seq![ValueView::Float(low), ValueView::Float(high)];
    assert(value::at(args, 0) == Some(ValueView::Float(low)));
    assert(value::at(args, 1) == Some(ValueView::Float(high)));
    let way = arith::single_difference(high, low);
    let count = float::int_as_single(steps as int % 1000);
    let part = arith::single_quotient(count, 0x447a_0000);
    let part_way = arith::single_product(way, part);
    rounding::the_difference_of_singles_is_closest(high, low);
    lemma_thousandths(steps as int % 1000);
    if finite_single(way) && finite_single(part) {
        rounding::the_product_of_singles_is_closest(way, part);
    }
    if finite_single(part_way) {
        rounding::the_sum_of_singles_is_closest(low, part_way);
    }
    assert(float::single_worth(way) == float::single_worth(way) && float::single_worth(part)
        == float::single_worth(part) && float::single_worth(part_way) == float::single_worth(
        part_way,
    ));
}

proof fn lemma_thousandths(n: int)
    requires
        0 <= n < 1000,
    ensures
        closest_single(
            arith::single_quotient(float::int_as_single(n), 0x447a_0000),
            n * pow2(149),
            1000,
        ),
{
    let one = pow2(149) as int;
    lemma_pow2_pos(149);
    lemma2_to64();
    lemma2_to64_rest();
    conversions::a_short_integer_is_exact_as_a_single(n);
    rounding::the_worth_of_a_single(false, 136, 0x7a_0000);
    lemma_pow2_adds(135, 14);
    assert(0xfa_0000 * pow2(135) == 1000 * (pow2(135) * 0x4000)) by (nonlinear_arith);
    assert(float::single_worth(0x447a_0000) == 1000 * one);
    rounding::the_quotient_of_singles_is_closest(float::int_as_single(n), 0x447a_0000);
    drawing::lemma_reduced(
        arith::single_quotient(float::int_as_single(n), 0x447a_0000),
        n * one,
        1000,
        one,
    );
}

/// What is closest to a fraction is closest to it with both sides multiplied.
proof fn lemma_reduced(r: u64, n: int, d: int, k: int)
    requires
        k > 0,
        closest_double(r, n * k, d * k),
    ensures
        closest_double(r, n, d),
{
    assert forall|z: u64| apart(#[trigger] float::double_worth(z) * (d * k), n * k) == apart(
        float::double_worth(z) * d,
        n,
    ) * k by {
        let v = float::double_worth(z);
        assert(v * (d * k) == (v * d) * k) by (nonlinear_arith);
        assert((v * d) * k - n * k == (v * d - n) * k) by (nonlinear_arith);
        assert(n * k - (v * d) * k == (n - v * d) * k) by (nonlinear_arith);
        assert(v * d < n ==> (v * d) * k < n * k) by (nonlinear_arith)
            requires
                k > 0,
        ;
        assert(v * d >= n ==> (v * d) * k >= n * k) by (nonlinear_arith)
            requires
                k > 0,
        ;
    }
    assert forall|z: u64| !float::double_nan(z) implies apart(float::double_worth(r) * d, n)
        <= apart(#[trigger] float::double_worth(z) * d, n) by {
        let (p, q) = (
            apart(float::double_worth(r) * d, n),
            apart(float::double_worth(z) * d, n),
        );
        assert(apart(float::double_worth(r) * (d * k), n * k) == p * k);
        assert(apart(float::double_worth(z) * (d * k), n * k) == q * k);
        assert(p <= q) by (nonlinear_arith)
            requires
                p * k <= q * k,
                k > 0,
        ;
    }
    assert forall|z: u64| !float::double_nan(z) && z % 0x8000_0000_0000_0000 != r % 0x8000_0000_0000_0000 && apart(
        float::double_worth(r) * d,
        n,
    ) == apart(#[trigger] float::double_worth(z) * d, n) implies r % 2 == 0 by {
        assert(apart(float::double_worth(r) * (d * k), n * k) == apart(
            float::double_worth(z) * (d * k),
            n * k,
        ));
    }
    assert(n != 0 ==> n * k != 0 && (n * k < 0) == (n < 0)) by (nonlinear_arith)
        requires
            k > 0,
    ;
}

/// This name is none of the others.
proof fn lemma_random_names()
    ensures
        "random"@ != "round"@,
        "random"@ != "abs"@,
        "random"@ != "sqrt"@,
        "random"@ != "sin"@,
        "random"@ != "cos"@,
        "random"@ != "acos"@,
        "random"@ != "asin"@,
        "random"@ != "atan"@,
        "random"@ != "tan"@,
        "random"@ != "atan2"@,
        "random"@ != "toRadians"@,
        "random"@ != "toDegrees"@,
{
    reveal_strlit("random");
    assert("random"@.len() == 6);
    reveal_strlit("round");
    assert("round"@.len() == 5);
    reveal_strlit("abs");
    assert("abs"@.len() == 3);
    reveal_strlit("sqrt");
    assert("sqrt"@.len() == 4);
    reveal_strlit("sin");
    assert("sin"@.len() == 3);
    reveal_strlit("cos");
    assert("cos"@.len() == 3);
    reveal_strlit("acos");
    assert("acos"@.len() == 4);
    reveal_strlit("asin");
    assert("asin"@.len() == 4);
    reveal_strlit("atan");
    assert("atan"@.len() == 4);
    reveal_strlit("tan");
    assert("tan"@.len() == 3);
    reveal_strlit("atan2");
    assert("atan2"@.len() == 5);
    reveal_strlit("toRadians");
    assert("toRadians"@.len() == 9);
    reveal_strlit("toDegrees");
    assert("toDegrees"@.len() == 9);
}

/// A random number of `Math` is below one: the answer's millionths.
pub proof fn a_random_number_is_the_millionths(n: u64)
    ensures
        math::call("random"@, Seq::empty(), seq![AnswerView::Nanoseconds(n)]) matches Ok(
            ValueView::Double(r),
        ) && closest_double(r, (n % 1_000_000) * pow2(1074), 1_000_000),
{
    lemma_random_names();
    let answers = seq![AnswerView::Nanoseconds(n)];
    assert(host::number_in(answers) == n);
    let m = n as int % 1_000_000;
    let one = pow2(1074) as int;
    lemma_pow2_pos(1074);
    conversions::a_short_integer_is_exact_as_a_double(m);
    conversions::a_short_integer_is_exact_as_a_double(1_000_000);
    rounding::the_quotient_of_doubles_is_closest(
        float::int_as_double(m),
        float::int_as_double(1_000_000),
    );
    lemma_reduced(math::fraction(n), m * one, 1_000_000, one);
}

/// These names are different.
proof fn lemma_game_mathematics()
    ensures
        "randomBoolean"@ != "random"@,
        "round"@ != "random"@,
        "round"@ != "randomBoolean"@,
        "sin"@ != "random"@,
        "sin"@ != "randomBoolean"@,
        "sin"@ != "round"@,
{
    reveal_strlit("random");
    reveal_strlit("randomBoolean");
    reveal_strlit("round");
    reveal_strlit("sin");
    assert("random"@.len() == 6);
    assert("randomBoolean"@.len() == 13);
    assert("round"@.len() == 5);
    assert("sin"@.len() == 3);
}

/// The sine of the game library is asked for of its argument, and its bits are given as an integer.
/// A random truth is whether the steps are even.
pub proof fn a_sine_is_asked_for(n: u32, answer: u32, steps: usize)
    ensures
        ({
            let args = seq![ValueView::Float(n)];
            let given = seq![AnswerView::Single(answer)];
            &&& maths::question("sin"@, args, Seq::empty()) == Some(
                QueryView::Single { function: Function::Sin, single: n },
            )
            &&& maths::math_utils(steps, "sin"@, args, given) matches Some(Ok(ValueView::Int(r)))
                && (r - answer) % 0x1_0000_0000 == 0
            &&& maths::math_utils(steps, "randomBoolean"@, args, given) == Some(
                Ok::<ValueView, ErrorView>(
                    ValueView::Int(
                        if steps % 2 == 0 {
                            1
                        } else {
                            0
                        },
                    ),
                ),
            )
        }),
{
    lemma_game_mathematics();
    let args = seq![ValueView::Float(n)];
    let given = seq![AnswerView::Single(answer)];
    assert(value::at(args, 0) == Some(ValueView::Float(n)));
    assert(host::single_in(given) == answer);
}

} // verus!
