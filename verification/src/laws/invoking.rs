//! Calls: which method runs, with which arguments, and what becomes of its result.

use vstd::prelude::*;

use crate::code;
use crate::code::ActivationView;
use crate::dex;
use crate::dex::{DexFile, Wanted};
use crate::frames;
use crate::frames::{CodeView, FrameView, Phase, StatusView};
use crate::interp::calls;
use crate::interp::execute;
use crate::laws::steps;
use crate::laws::steps::{bits, whole, within};
use crate::machine;
use crate::machine::VmView;
use crate::text;
use crate::value::{ObjectId, ValueView};
use crate::world::WorldView;

verus! {

// Arguments.

/// The register of the k-th argument of a call: a nibble of the third word, from the lowest on,
/// and for the fifth the lower nibble of the instruction's upper byte. Of a range, the registers
/// follow each other.
pub open spec fn argument_register(
    words: Seq<u16>,
    pc: int,
    opcode: u8,
    instruction: u16,
    k: int,
) -> int {
    let third = words[pc + 2];
    if opcode >= 0x74 || opcode == 0x25 {
        third + k
    } else if k == 0 {
        bits(third, 0, 0xf)
    } else if k == 1 {
        bits(third, 4, 0xf)
    } else if k == 2 {
        bits(third, 8, 0xf)
    } else if k == 3 {
        bits(third, 12, 0xf)
    } else {
        bits(instruction, 8, 0xf)
    }
}

/// How many arguments a call has: what the upper nibble says, but five at most; of a range, what
/// the upper byte says.
pub open spec fn argument_count(opcode: u8, instruction: u16) -> int {
    if opcode >= 0x74 || opcode == 0x25 {
        bits(instruction, 8, 0xff)
    } else if bits(instruction, 12, 0xf) < 5 {
        bits(instruction, 12, 0xf)
    } else {
        5
    }
}

/// Whether values are those of the registers that a call names, in the order in which it names
/// them.
pub open spec fn are_arguments(
    words: Seq<u16>,
    a: ActivationView,
    opcode: u8,
    instruction: u16,
    args: Seq<ValueView>,
) -> bool {
    &&& args.len() == argument_count(opcode, instruction)
    &&& forall|k: int|
        0 <= k < args.len() ==> #[trigger] args[k] == a.registers[argument_register(
            words,
            a.pc as int,
            opcode,
            instruction,
            k,
        )]
}

/// Whether a frame has every register that a call names.
pub open spec fn has_arguments(
    words: Seq<u16>,
    a: ActivationView,
    opcode: u8,
    instruction: u16,
) -> bool {
    forall|k: int|
        0 <= k < argument_count(opcode, instruction) ==> within(
            a,
            #[trigger] argument_register(words, a.pc as int, opcode, instruction, k),
        )
}

proof fn lemma_gathered(registers: Seq<ValueView>, indices: Seq<int>, pc: usize, opcode: u8)
    ensures
        ({
            let r = code::gathered(registers, indices, pc, opcode);
            &&& (forall|k: int|
                0 <= k < indices.len() ==> 0 <= #[trigger] indices[k] < registers.len()) ==> r is Ok
            &&& r matches Ok(values) ==> values.len() == indices.len() && forall|k: int|
                0 <= k < indices.len() ==> #[trigger] values[k] == registers[indices[k]]
        }),
    decreases indices.len(),
{
    if indices.len() > 0 {
        lemma_gathered(registers, indices.drop_last(), pc, opcode);
        if forall|k: int| 0 <= k < indices.len() ==> 0 <= #[trigger] indices[k] < registers.len() {
            assert forall|k: int| 0 <= k < indices.len() - 1 implies 0
                <= #[trigger] indices.drop_last()[k] < registers.len() by {
                assert(indices[k] == indices.drop_last()[k]);
            }
            assert(0 <= indices[indices.len() - 1] < registers.len());
        }
        match code::gathered(registers, indices, pc, opcode) {
            Ok(values) => {
                assert forall|k: int| 0 <= k < indices.len() implies #[trigger] values[k]
                    == registers[indices[k]] by {
                    if k < indices.len() - 1 {
                        assert(indices.drop_last()[k] == indices[k]);
                    }
                }
            },
            _ => {},
        }
    }
}

proof fn lemma_arguments(
    words: Seq<u16>,
    a: ActivationView,
    opcode: u8,
    instruction: u16,
    indices: Seq<int>,
)
    requires
        whole(words, a, 3),
        has_arguments(words, a, opcode, instruction),
        indices == if opcode >= 0x74 || opcode == 0x25 {
            code::run_of(words[a.pc + 2] as int, code::high_byte(instruction) as nat)
        } else {
            code::named_registers(instruction, words[a.pc + 2])
        },
    ensures
        code::gathered(a.registers, indices, a.pc, opcode) matches Ok(args) && are_arguments(
            words,
            a,
            opcode,
            instruction,
            args,
        ),
{
    steps::the_parts_of_a_word(instruction);
    steps::the_parts_of_a_word(words[a.pc + 2]);
    assert(indices.len() == argument_count(opcode, instruction));
    assert forall|k: int| 0 <= k < indices.len() implies #[trigger] indices[k]
        == argument_register(words, a.pc as int, opcode, instruction, k) by {};
    assert forall|k: int| 0 <= k < indices.len() implies 0 <= #[trigger] indices[k]
        < a.registers.len() by {
        assert(within(a, argument_register(words, a.pc as int, opcode, instruction, k)));
    }
    lemma_gathered(a.registers, indices, a.pc, opcode);
}

/// A call passes the values of the registers that it names, in that order. A static, direct or
/// super call, and one of a range, is of the method that the second word names.
pub proof fn a_call_passes_the_registers_it_names(
    dex: &DexFile,
    words: Seq<u16>,
    w: WorldView,
    a: ActivationView,
    opcode: u8,
    instruction: u16,
)
    requires
        0x6e <= opcode <= 0x72 || 0x74 <= opcode <= 0x78,
        whole(words, a, 3),
        has_arguments(words, a, opcode, instruction),
    ensures
        execute::invokes(opcode),
        calls::invocation(dex, words, w, a, opcode, instruction) matches Ok((index, args))
            && are_arguments(words, a, opcode, instruction, args) && (opcode != 0x6e && opcode
            != 0x72 ==> index == words[a.pc + 1]),
{
    let indices = if opcode <= 0x72 {
        code::named_registers(instruction, words[a.pc + 2])
    } else {
        code::run_of(words[a.pc + 2] as int, code::high_byte(instruction) as nat)
    };
    lemma_arguments(words, a, opcode, instruction, indices);
}

/// `filled-new-array` makes an array of the values of the registers that it names, in that order,
/// and the array is its result.
pub proof fn an_array_is_made_of_registers(
    dex: &DexFile,
    words: Seq<u16>,
    w: WorldView,
    a: ActivationView,
    opcode: u8,
    instruction: u16,
)
    requires
        opcode == 0x24 || opcode == 0x25,
        whole(words, a, 3),
        has_arguments(words, a, opcode, instruction),
        words[a.pc + 1] < dex.types.len(),
        w.heap.len() <= u32::MAX,
    ensures
        ({
            let (world, stepped) = execute::plain_step(dex, words, w, a, opcode, instruction);
            &&& stepped matches Ok(after) && after == (ActivationView {
                pc: (a.pc + 3) as usize,
                result: ValueView::Object(w.heap.len() as ObjectId),
                ..a
            })
            &&& world.heap.len() == w.heap.len() + 1
            &&& world.heap.last() matches crate::value::ObjectView::Array { component, values }
                && component == dex.types[words[a.pc + 1] as int]@ && are_arguments(
                words,
                a,
                opcode,
                instruction,
                values,
            )
        }),
{
    let indices = if opcode == 0x24 {
        code::named_registers(instruction, words[a.pc + 2])
    } else {
        code::run_of(words[a.pc + 2] as int, code::high_byte(instruction) as nat)
    };
    lemma_arguments(words, a, opcode, instruction, indices);
}

// Methods.

/// Whether a method is the one asked for.
pub open spec fn answers_to(
    m: dex::Method,
    class_name: Seq<char>,
    name: Seq<char>,
    prototype: Option<Seq<char>>,
    coded: bool,
) -> bool {
    &&& m.class_name@ == class_name
    &&& m.name@ == name
    &&& prototype matches Some(p) ==> m.prototype@ == p
    &&& coded ==> m.code is Some
}

proof fn lemma_first_from(methods: Seq<dex::Method>, from: nat, wanted: Wanted)
    ensures
        match dex::first_from(methods, from, wanted) {
            Some(i) => from <= i < methods.len() && dex::fits(methods[i as int], wanted)
                && forall|j: int| from <= j < i ==> !dex::fits(#[trigger] methods[j], wanted),
            None => forall|j: int|
                from <= j < methods.len() ==> !dex::fits(#[trigger] methods[j], wanted),
        },
    decreases methods.len() - from,
{
    if from < methods.len() && !dex::fits(methods[from as int], wanted) {
        lemma_first_from(methods, from + 1, wanted);
    }
}

/// A method that is looked for by class, name, prototype and code is the first of the program
/// that answers to all of them, and there is none only where none does.
pub proof fn the_first_method_that_answers_is_found(
    dex: &DexFile,
    class_name: Seq<char>,
    name: Seq<char>,
    prototype: Option<Seq<char>>,
    coded: bool,
)
    ensures
        match dex.first(Wanted { class_name, name, prototype, coded }) {
            Some(i) => {
                &&& i < dex.methods.len()
                &&& answers_to(dex.methods[i as int], class_name, name, prototype, coded)
                &&& forall|j: int|
                    0 <= j < i ==> !answers_to(
                        #[trigger] dex.methods[j],
                        class_name,
                        name,
                        prototype,
                        coded,
                    )
            },
            None => forall|j: int|
                0 <= j < dex.methods.len() ==> !answers_to(
                    #[trigger] dex.methods[j],
                    class_name,
                    name,
                    prototype,
                    coded,
                ),
        },
{
    let wanted = Wanted { class_name, name, prototype, coded };
    lemma_first_from(dex.methods@, 0, wanted);
    assert forall|j: int| 0 <= j < dex.methods.len() implies answers_to(
        #[trigger] dex.methods[j],
        class_name,
        name,
        prototype,
        coded,
    ) == dex::fits(dex.methods@[j], wanted) by {};
}

/// A virtual call runs the method that the receiver's own class has with code, under the name and
/// the prototype of the method named.
pub proof fn a_virtual_call_runs_the_method_of_the_receiver(
    dex: &DexFile,
    w: WorldView,
    opcode: u8,
    object: ObjectId,
    class_name: Seq<char>,
    method: nat,
    rest: Seq<ValueView>,
    own: nat,
)
    requires
        opcode == 0x6e || opcode == 0x72,
        method < dex.methods.len(),
        w.class_of(object) == Some(class_name),
        dex.methods[method as int].name@ == "render"@ ==> class_name
            != "Lcom/hyperkani/common/GameObjectSprite;"@,
        own < dex.methods.len(),
        answers_to(
            dex.methods[own as int],
            class_name,
            dex.methods[method as int].name@,
            Some(dex.methods[method as int].prototype@),
            true,
        ),
        forall|j: int|
            0 <= j < own ==> !answers_to(
                #[trigger] dex.methods[j],
                class_name,
                dex.methods[method as int].name@,
                Some(dex.methods[method as int].prototype@),
                true,
            ),
    ensures
        calls::target(dex, w, opcode, method, seq![ValueView::Object(object)] + rest) == own,
{
    let args = seq![ValueView::Object(object)] + rest;
    assert(crate::value::at(args, 0) == Some(ValueView::Object(object)));
    let m = dex.methods[method as int];
    the_first_method_that_answers_is_found(dex, class_name, m.name@, Some(m.prototype@), true);
    let wanted = Wanted {
        class_name,
        name: m.name@,
        prototype: Some(m.prototype@),
        coded: true,
    };
    assert(dex.first(wanted) == Some(own)) by {
        let i = dex.first(wanted);
        if i is None {
            assert(!answers_to(
                dex.methods[own as int],
                class_name,
                m.name@,
                Some(m.prototype@),
                true,
            ));
        } else if i->0 < own {
            assert(!answers_to(
                dex.methods[i->0 as int],
                class_name,
                m.name@,
                Some(m.prototype@),
                true,
            ));
        } else if own < i->0 {
            assert(!answers_to(
                dex.methods[own as int],
                class_name,
                m.name@,
                Some(m.prototype@),
                true,
            ));
        }
    }
    assert(dex.height() > 0);
}

/// A method that a class lacks is inherited from its super class.
pub proof fn a_method_is_inherited(dex: &DexFile, wanted: Wanted, parent: Seq<char>, fuel: nat)
    requires
        dex.first(wanted) is None,
        dex.parent(wanted.class_name) == Some(parent),
    ensures
        dex.inherited(wanted, fuel + 1) == dex.inherited(
            Wanted { class_name: parent, ..wanted },
            fuel,
        ),
        dex.first(Wanted { class_name: parent, ..wanted }) matches Some(i) ==> fuel > 0
            ==> dex.inherited(wanted, fuel + 1) == Some(i),
{
}

/// The super class of a class is the one that its first definition names.
pub proof fn a_super_class_is_the_one_that_is_named(dex: &DexFile, index: int)
    requires
        0 <= index < dex.classes.len(),
        forall|j: int|
            0 <= j < index ==> (#[trigger] dex.classes[j]).name@ != dex.classes[index].name@,
    ensures
        dex.parent(dex.classes[index].name@) == (match dex.classes[index].super_class {
            Some(s) => Some(s@),
            None => None,
        }),
{
    lemma_definition(dex, 0, index);
}

proof fn lemma_definition(dex: &DexFile, from: nat, index: int)
    requires
        from <= index < dex.classes.len(),
        forall|j: int|
            from <= j < index ==> (#[trigger] dex.classes[j]).name@ != dex.classes[index].name@,
    ensures
        dex.definition(dex.classes[index].name@, from) == Some(index as nat),
    decreases index - from,
{
    if from < index {
        assert(dex.classes[from as int].name@ != dex.classes[index].name@);
        lemma_definition(dex, from + 1, index);
    }
}

// Steps of a machine.

/// Whether a machine is about to execute an instruction of a method, within the limit and
/// without a trace.
pub open spec fn about_to_execute(vm: VmView, f: CodeView) -> bool {
    &&& vm.status is Running
    &&& vm.stack.len() > 0
    &&& vm.stack.last() == FrameView::Code(f)
    &&& f.phase == Phase::Ready
    &&& f.activation.pc < f.words.len()
    &&& !vm.config.trace_registers
    &&& if vm.world.frame_mode {
        vm.frame_steps < vm.config.max_steps
    } else {
        vm.executed_steps < vm.config.max_steps
    }
}

/// Whether a machine is as it was but for its stack, its status and the count of instructions.
pub open spec fn has_counted(before: VmView, after: VmView) -> bool {
    &&& after.executed_steps == before.executed_steps + 1 || before.executed_steps == usize::MAX
    &&& before.world.frame_mode && before.frame_steps < usize::MAX ==> after.frame_steps
        == before.frame_steps + 1
    &&& !before.world.frame_mode ==> after.frame_steps == before.frame_steps
    &&& after.config == before.config
    &&& after.dex == before.dex
    &&& after.trace == before.trace
}

/// A machine executes the instruction at the program counter of its uppermost frame, on the
/// registers of that frame and on the heap.
pub proof fn a_machine_executes_the_instruction_it_is_at(vm: VmView, f: CodeView)
    requires
        about_to_execute(vm, f),
        ({
            let opcode = f.words[f.activation.pc as int] % 0x100;
            opcode < 0x0e || 0x11 < opcode < 0x60 || 0x78 < opcode
        }),
    ensures
        ({
            let instruction = f.words[f.activation.pc as int];
            let (world, stepped) = execute::plain_step(
                &vm.dex,
                f.words,
                vm.world,
                f.activation,
                (instruction % 0x100) as u8,
                instruction,
            );
            &&& has_counted(vm, vm.next())
            &&& vm.next().world == world || f.restore is Some
            &&& stepped matches Ok(activation) ==> {
                &&& vm.next().status is Running
                &&& vm.next().world == world
                &&& vm.next().stack == vm.stack.drop_last().push(
                    FrameView::Code(CodeView { activation, ..f }),
                )
            }
            &&& stepped is Err ==> (vm.next().status matches StatusView::Returning(r) && r is Err)
                && vm.next().stack == vm.stack.drop_last()
        }),
{
    reveal(VmView::code_step);
    reveal(VmView::executed);
}

/// A call is put on the stack with the arguments that its registers hold, above the frame that
/// calls, which waits behind the instruction for the result.
pub proof fn a_machine_calls_with_the_registers_it_names(vm: VmView, f: CodeView)
    requires
        about_to_execute(vm, f),
        whole(f.words, f.activation, 3),
        ({
            let instruction = f.words[f.activation.pc as int];
            let opcode = (instruction % 0x100) as u8;
            &&& 0x6e <= opcode <= 0x72 || 0x74 <= opcode <= 0x78
            &&& has_arguments(f.words, f.activation, opcode, instruction)
        }),
    ensures
        ({
            let instruction = f.words[f.activation.pc as int];
            let opcode = (instruction % 0x100) as u8;
            let stack = vm.next().stack;
            &&& has_counted(vm, vm.next())
            &&& vm.next().world == vm.world
            &&& vm.next().status is Running
            &&& stack.len() == vm.stack.len() + 1
            &&& stack.drop_last().drop_last() == vm.stack.drop_last()
            &&& stack[stack.len() - 2] == FrameView::Code(
                CodeView {
                    activation: ActivationView {
                        pc: (f.activation.pc + 3) as usize,
                        ..f.activation
                    },
                    phase: Phase::AwaitingResult,
                    ..f
                },
            )
            &&& stack.last() matches FrameView::Call { index, args } && are_arguments(
                f.words,
                f.activation,
                opcode,
                instruction,
                args,
            ) && (opcode != 0x6e && opcode != 0x72 ==> index == f.words[f.activation.pc + 1])
        }),
{
    reveal(VmView::code_step);
    reveal(VmView::executed);
    reveal(VmView::invoked);
    let instruction = f.words[f.activation.pc as int];
    let opcode = (instruction % 0x100) as u8;
    a_call_passes_the_registers_it_names(
        &vm.dex,
        f.words,
        vm.world,
        f.activation,
        opcode,
        instruction,
    );
    let stack = vm.next().stack;
    assert(stack.drop_last().drop_last() =~= vm.stack.drop_last());
}

/// Whether a class is one of the program's own.
pub open spec fn of_the_program(class_name: Seq<char>) -> bool {
    !machine::framework_class(class_name)
}

/// A call of a method of the program runs its code from the first word on: with as many registers
/// as it asks for, the arguments in the last of them, in order, and nothing in the others.
pub proof fn a_call_runs_the_code_of_the_method(vm: VmView, index: nat, args: Seq<ValueView>)
    requires
        vm.status is Running,
        vm.stack.len() > 0,
        vm.stack.last() == (FrameView::Call { index, args }),
        frames::depth(vm.stack.drop_last()) < vm.config.max_call_depth,
        index < vm.dex.methods.len(),
        !vm.config.trace_registers,
        !vm.world.frame_mode || !vm.frame_aborted,
        ({
            let m = vm.dex.methods[index as int];
            &&& of_the_program(m.class_name@)
            &&& m.class_name@ != "Lcom/hyperkani/sliceice/Engine;"@
            &&& m.name@ == "<clinit>"@ || vm.initialized.contains(m.class_name@)
            &&& m.code matches Some(code) && args.len() <= code.ins_size <= code.registers_size
        }),
    ensures
        ({
            let m = vm.dex.methods[index as int];
            let code = m.code->0;
            let first = code.registers_size - code.ins_size;
            &&& vm.next().world == vm.world
            &&& vm.next().status is Running
            &&& vm.next().stack.drop_last() == vm.stack.drop_last()
            &&& vm.next().stack.last() matches FrameView::Code(f) && {
                &&& f.words == code.instructions@
                &&& f.activation.pc == 0
                &&& f.phase == Phase::Ready
                &&& f.place == Some((m.class_name@, m.name@))
                &&& f.activation.registers.len() == code.registers_size
                &&& forall|k: int|
                    0 <= k < args.len() ==> f.activation.registers[first + k] == #[trigger] args[k]
                &&& forall|i: int|
                    0 <= i < code.registers_size && !(first <= i < first + args.len())
                        ==> #[trigger] f.activation.registers[i] == ValueView::Null
            }
        }),
{
    reveal(VmView::called);
    reveal(VmView::begun);
    reveal(VmView::entered);
    assert(vm.next().stack.drop_last() =~= vm.stack.drop_last());
}

/// A call deeper than the limit, or of a method that there is not, is an error of the caller.
pub proof fn a_call_is_refused(vm: VmView, index: nat, args: Seq<ValueView>)
    requires
        vm.status is Running,
        vm.stack.len() > 0,
        vm.stack.last() == (FrameView::Call { index, args }),
        frames::depth(vm.stack.drop_last()) >= vm.config.max_call_depth || index
            >= vm.dex.methods.len(),
    ensures
        vm.next().status matches StatusView::Returning(r) && r is Err,
        vm.next().stack == vm.stack.drop_last(),
        vm.next().world == vm.world,
        vm.next().initialized == vm.initialized,
{
    reveal(VmView::called);
}

/// Before a method of a class runs for the first time, the class's initialiser does; it counts as
/// initialised from then on.
pub proof fn a_class_is_initialized_before_its_methods_run(
    vm: VmView,
    index: nat,
    args: Seq<ValueView>,
    initializer: nat,
)
    requires
        vm.status is Running,
        vm.stack.len() > 0,
        vm.stack.last() == (FrameView::Call { index, args }),
        frames::depth(vm.stack.drop_last()) < vm.config.max_call_depth,
        index < vm.dex.methods.len(),
        vm.dex.methods[index as int].name@ != "<clinit>"@,
        !vm.initialized.contains(vm.dex.methods[index as int].class_name@),
        initializer < vm.dex.methods.len(),
        answers_to(
            vm.dex.methods[initializer as int],
            vm.dex.methods[index as int].class_name@,
            "<clinit>"@,
            None,
            false,
        ),
        forall|j: int|
            0 <= j < initializer ==> !answers_to(
                #[trigger] vm.dex.methods[j],
                vm.dex.methods[index as int].class_name@,
                "<clinit>"@,
                None,
                false,
            ),
    ensures
        ({
            let m = vm.dex.methods[index as int];
            let stack = vm.next().stack;
            &&& vm.next().initialized == vm.initialized.push(m.class_name@)
            &&& vm.next().status is Running
            &&& stack.len() == vm.stack.len() + 1
            &&& stack.last() == (FrameView::Call { index: initializer, args: Seq::empty() })
            &&& stack[stack.len() - 2] == (FrameView::Prepared { method: m, args })
        }),
{
    reveal(VmView::called);
    let class_name = vm.dex.methods[index as int].class_name@;
    the_first_method_that_answers_is_found(&vm.dex, class_name, "<clinit>"@, None, false);
    let wanted = Wanted { class_name, name: "<clinit>"@, prototype: None, coded: false };
    let i = vm.dex.first(wanted);
    if i is None || initializer < i->0 {
        assert(!answers_to(
            vm.dex.methods[initializer as int],
            class_name,
            "<clinit>"@,
            None,
            false,
        ));
    } else if i->0 < initializer {
        assert(!answers_to(vm.dex.methods[i->0 as int], class_name, "<clinit>"@, None, false));
    }
}

/// A method that returns hands the value of the register it names to the frame below it.
pub proof fn a_method_hands_its_result_to_its_caller(vm: VmView, f: CodeView, caller: CodeView)
    requires
        about_to_execute(vm, f),
        vm.stack.len() > 1,
        vm.stack[vm.stack.len() - 2] == FrameView::Code(caller),
        caller.phase == Phase::AwaitingResult,
        f.words[f.activation.pc as int] % 0x100 == 0x0f || f.words[f.activation.pc as int] % 0x100
            == 0x11,
        within(f.activation, bits(f.words[f.activation.pc as int], 8, 0xff)),
    ensures
        ({
            let v = f.activation.registers[bits(f.words[f.activation.pc as int], 8, 0xff)];
            let after = vm.next().next();
            &&& vm.next().status == StatusView::Returning(Ok(v))
            &&& after.status is Running
            &&& after.stack.len() == vm.stack.len() - 1
            &&& after.stack.drop_last() == vm.stack.drop_last().drop_last()
            &&& after.stack.last() == FrameView::Code(
                CodeView {
                    activation: ActivationView { result: v, ..caller.activation },
                    phase: Phase::Ready,
                    ..caller
                },
            )
        }),
{
    steps::the_parts_of_a_word(f.words[f.activation.pc as int]);
    reveal(VmView::code_step);
    reveal(VmView::executed);
    reveal(VmView::received);
    assert(vm.stack.drop_last().last() == FrameView::Code(caller));
    assert(vm.next().next().stack.drop_last() =~= vm.stack.drop_last().drop_last());
}

/// A method of an Android, Java or Dalvik class without code is left to the framework, with the
/// arguments that it was called with. One of the game library is left to the game library.
pub proof fn a_framework_call_is_left_to_the_framework(
    vm: VmView,
    m: dex::Method,
    args: Seq<ValueView>,
)
    requires
        vm.status is Running,
        vm.stack.len() > 0,
        vm.stack.last() == (FrameView::Prepared { method: m, args }),
        m.code is None,
        m.framework_owner is None,
        m.name@ != "<clinit>"@,
        m.name@ != "<init>"@,
        text::starts(m.class_name@, "Landroid/"@) || text::starts(m.class_name@, "Ljava/"@)
            || text::starts(m.class_name@, "Ldalvik/"@) || text::starts(
            m.class_name@,
            "Lcom/badlogic/gdx/"@,
        ),
    ensures
        ({
            let game = text::starts(m.class_name@, "Lcom/badlogic/gdx/"@);
            &&& vm.next().world == vm.world
            &&& vm.next().stack.last() matches FrameView::Host(h) && {
                &&& h.class_name == m.class_name@
                &&& h.method == m.name@
                &&& h.args == args
                &&& h.answers.len() == 0
                &&& h.game == game
            }
        }),
{
    reveal(VmView::begun);
    reveal_strlit("Lcom/mobclix/");
    reveal_strlit("Lcom/hyperkani/common/");
    reveal_strlit("Lcom/badlogic/gdx/");
    reveal_strlit("Landroid/");
    reveal_strlit("Ljava/");
    reveal_strlit("Ldalvik/");
    let c = m.class_name@;
    assert(!text::starts(c, "Lcom/mobclix/"@)) by {
        if text::starts(c, "Lcom/mobclix/"@) {
            lemma_starts(c, "Lcom/mobclix/"@);
            if text::starts(c, "Landroid/"@) {
                lemma_starts(c, "Landroid/"@);
                assert(c[1] == 'c' && c[1] == 'a');
            } else if text::starts(c, "Ljava/"@) {
                lemma_starts(c, "Ljava/"@);
                assert(c[1] == 'c' && c[1] == 'j');
            } else if text::starts(c, "Ldalvik/"@) {
                lemma_starts(c, "Ldalvik/"@);
                assert(c[1] == 'c' && c[1] == 'd');
            } else {
                lemma_starts(c, "Lcom/badlogic/gdx/"@);
                assert(c[5] == 'm' && c[5] == 'b');
            }
        }
    }
    assert(!text::starts(c, "Lcom/hyperkani/common/"@)) by {
        if text::starts(c, "Lcom/hyperkani/common/"@) {
            lemma_starts(c, "Lcom/hyperkani/common/"@);
            if text::starts(c, "Landroid/"@) {
                lemma_starts(c, "Landroid/"@);
                assert(c[1] == 'c' && c[1] == 'a');
            } else if text::starts(c, "Ljava/"@) {
                lemma_starts(c, "Ljava/"@);
                assert(c[1] == 'c' && c[1] == 'j');
            } else if text::starts(c, "Ldalvik/"@) {
                lemma_starts(c, "Ldalvik/"@);
                assert(c[1] == 'c' && c[1] == 'd');
            } else {
                lemma_starts(c, "Lcom/badlogic/gdx/"@);
                assert(c[5] == 'h' && c[5] == 'b');
            }
        }
    }
}

pub proof fn lemma_starts(s: Seq<char>, p: Seq<char>)
    requires
        text::starts(s, p),
    ensures
        forall|i: int| 0 <= i < p.len() ==> #[trigger] s[i] == p[i],
        p.len() <= s.len(),
{
}

} // verus!
