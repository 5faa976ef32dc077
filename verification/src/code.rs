//! Instruction words and the registers of a frame.

use vstd::prelude::*;

use crate::convert;
use crate::convert::{as_double, as_float, as_int, as_long, err_of};
use crate::dex::CodeItem;
use crate::error;
use crate::error::{failure, failure_about, failure_text, ErrorView, VmError};
use crate::text;
use crate::value;
use crate::value::{nulls, push_value, set_value, ObjectId, Value, ValueView};

verus! {

// Words.

/// The word at an index of the code.
pub open spec fn word(code: Seq<u16>, index: int, pc: usize, opcode: u8) -> Result<
    u16,
    ErrorView,
> {
    if 0 <= index < code.len() {
        Ok(code[index])
    } else {
        Err(error::fault(pc, opcode, "instruction payload is truncated"@))
    }
}

pub fn code_word(code: &CodeItem, index: usize, pc: usize, opcode: u8) -> (r: Result<
    u16,
    VmError,
>)
    ensures
        err_of(r) == word(code.instructions@, index as int, pc, opcode),
{
    if index < code.instructions.len() {
        Ok(code.instructions[index])
    } else {
        Err(failure(pc, opcode, "instruction payload is truncated"))
    }
}

/// The word `offset` words behind the instruction.
pub fn operand(code: &CodeItem, pc: usize, offset: usize, opcode: u8) -> (r: Result<u16, VmError>)
    ensures
        err_of(r) == word(code.instructions@, pc + offset, pc, opcode),
        r is Ok ==> pc + offset < usize::MAX,
{
    let len = code.instructions.len();
    assert(len == code.instructions@.len());
    match pc.checked_add(offset) {
        Some(index) => code_word(code, index, pc, opcode),
        None => Err(failure(pc, opcode, "instruction payload is truncated")),
    }
}

/// Two words as one number, the low word first.
pub open spec fn pair(low: u16, high: u16) -> u32 {
    (low + 0x10000 * high) as u32
}

pub fn join_words(low: u16, high: u16) -> (r: u32)
    ensures
        r == pair(low, high),
{
    low as u32 + 0x10000 * high as u32
}

pub open spec fn signed16(w: u16) -> int {
    if w >= 0x8000 {
        w - 0x10000
    } else {
        w as int
    }
}

pub fn extend16(w: u16) -> (r: i32)
    ensures
        r == signed16(w),
{
    if w >= 0x8000 {
        w as i32 - 0x10000
    } else {
        w as i32
    }
}

pub open spec fn signed8(b: int) -> int {
    if b >= 0x80 {
        b - 0x100
    } else {
        b
    }
}

pub fn extend8(b: u16) -> (r: i32)
    ensures
        r == signed8(b as int),
{
    if b >= 0x80 {
        b as i32 - 0x100
    } else {
        b as i32
    }
}

// The parts of an instruction: the opcode in the low byte, then one byte or two nibbles.

pub open spec fn low_nibble(instruction: u16) -> int {
    instruction as int / 0x100 % 0x10
}

pub open spec fn high_nibble(instruction: u16) -> int {
    instruction as int / 0x1000
}

pub open spec fn high_byte(instruction: u16) -> int {
    instruction as int / 0x100
}

pub open spec fn low_byte(instruction: u16) -> int {
    instruction as int % 0x100
}

pub fn two_registers(instruction: u16) -> (r: (usize, usize))
    ensures
        r.0 == low_nibble(instruction),
        r.1 == high_nibble(instruction),
{
    ((instruction / 0x100 % 0x10) as usize, (instruction / 0x1000) as usize)
}

pub fn three_registers(instruction: u16, word: u16) -> (r: (usize, usize, usize))
    ensures
        r.0 == high_byte(instruction),
        r.1 == low_byte(word),
        r.2 == high_byte(word),
{
    ((instruction / 0x100) as usize, (word % 0x100) as usize, (word / 0x100) as usize)
}

pub fn byte_register(instruction: u16) -> (r: usize)
    ensures
        r == high_byte(instruction),
{
    (instruction / 0x100) as usize
}

// Registers.

pub open spec fn outside(kind: Seq<char>, index: int, pc: usize, opcode: u8) -> ErrorView {
    error::fault(pc, opcode, kind + text::decimal(index) + " is outside the frame"@)
}

fn outside_frame(kind: &str, index: usize, pc: usize, opcode: u8) -> (r: VmError)
    ensures
        r@ == outside(kind@, index as int, pc, opcode),
{
    failure_text(
        pc,
        opcode,
        text::join3(kind, text::decimal_unsigned(index as u64).as_str(), " is outside the frame"),
    )
}

pub open spec fn val_of(r: Result<Value, VmError>) -> Result<ValueView, ErrorView> {
    error::outcome(r)
}

pub open spec fn ref_of(r: Result<&Value, VmError>) -> Result<ValueView, ErrorView> {
    match r {
        Ok(v) => Ok(v@),
        Err(e) => Err(e@),
    }
}

/// What a register holds.
pub open spec fn register(registers: Seq<ValueView>, index: int, pc: usize, opcode: u8) -> Result<
    ValueView,
    ErrorView,
> {
    if 0 <= index < registers.len() {
        Ok(registers[index])
    } else {
        Err(outside("register v"@, index, pc, opcode))
    }
}

pub fn get_register(registers: &Vec<Value>, index: usize, pc: usize, opcode: u8) -> (r: Result<
    &Value,
    VmError,
>)
    ensures
        ref_of(r) == register(value::views(registers@), index as int, pc, opcode),
{
    if index < registers.len() {
        Ok(&registers[index])
    } else {
        Err(outside_frame("register v", index, pc, opcode))
    }
}

/// The registers with one of them changed.
pub open spec fn written(
    registers: Seq<ValueView>,
    index: int,
    value: ValueView,
    pc: usize,
    opcode: u8,
) -> Result<Seq<ValueView>, ErrorView> {
    if 0 <= index < registers.len() {
        Ok(registers.update(index, value))
    } else {
        Err(outside("register v"@, index, pc, opcode))
    }
}

pub open spec fn wrote(r: Result<(), VmError>, registers: Seq<ValueView>) -> Result<
    Seq<ValueView>,
    ErrorView,
> {
    match r {
        Ok(_) => Ok(registers),
        Err(e) => Err(e@),
    }
}

pub fn set_register(
    registers: &mut Vec<Value>,
    index: usize,
    value: Value,
    pc: usize,
    opcode: u8,
) -> (r: Result<(), VmError>)
    ensures
        wrote(r, value::views(final(registers)@)) == written(
            value::views(old(registers)@),
            index as int,
            value@,
            pc,
            opcode,
        ),
        r is Err ==> *final(registers) == *old(registers),
{
    if index < registers.len() {
        set_value(registers, index, value);
        Ok(())
    } else {
        Err(outside_frame("register v", index, pc, opcode))
    }
}

/// A wide value stands in the first of two registers.
pub open spec fn wide(registers: Seq<ValueView>, index: int, pc: usize, opcode: u8) -> Result<
    ValueView,
    ErrorView,
> {
    if 0 <= index && index + 1 < registers.len() {
        Ok(registers[index])
    } else {
        Err(outside("wide register v"@, index, pc, opcode))
    }
}

pub fn read_wide_register(registers: &Vec<Value>, index: usize, pc: usize, opcode: u8) -> (r:
    Result<&Value, VmError>)
    ensures
        ref_of(r) == wide(value::views(registers@), index as int, pc, opcode),
{
    if index < registers.len() && index + 1 < registers.len() {
        Ok(&registers[index])
    } else {
        Err(outside_frame("wide register v", index, pc, opcode))
    }
}

/// Writing a wide value empties the second register.
pub open spec fn written_wide(
    registers: Seq<ValueView>,
    index: int,
    value: ValueView,
    pc: usize,
    opcode: u8,
) -> Result<Seq<ValueView>, ErrorView> {
    if 0 <= index && index + 1 < registers.len() {
        Ok(registers.update(index, value).update(index + 1, ValueView::Void))
    } else {
        Err(outside("wide register v"@, index, pc, opcode))
    }
}

pub fn set_wide_register(
    registers: &mut Vec<Value>,
    index: usize,
    value: Value,
    pc: usize,
    opcode: u8,
) -> (r: Result<(), VmError>)
    ensures
        wrote(r, value::views(final(registers)@)) == written_wide(
            value::views(old(registers)@),
            index as int,
            value@,
            pc,
            opcode,
        ),
        r is Err ==> *final(registers) == *old(registers),
{
    if index < registers.len() && index + 1 < registers.len() {
        set_value(registers, index, value);
        set_value(registers, index + 1, Value::Void);
        Ok(())
    } else {
        Err(outside_frame("wide register v", index, pc, opcode))
    }
}

/// The object that a register refers to.
pub open spec fn reference(registers: Seq<ValueView>, index: int, pc: usize, opcode: u8) -> Result<
    ObjectId,
    ErrorView,
> {
    match register(registers, index, pc, opcode) {
        Err(e) => Err(e),
        Ok(ValueView::Object(id)) => Ok(id),
        Ok(ValueView::Null) => Err(error::fault(pc, opcode, "null object reference"@)),
        Ok(v) => Err(
            error::fault_about(
                pc,
                opcode,
                "value in v"@ + text::decimal(index) + " is not an object: "@,
                v,
            ),
        ),
    }
}

pub fn get_object(registers: &Vec<Value>, index: usize, pc: usize, opcode: u8) -> (r: Result<
    ObjectId,
    VmError,
>)
    ensures
        err_of(r) == reference(value::views(registers@), index as int, pc, opcode),
{
    match get_register(registers, index, pc, opcode)? {
        Value::Object(id) => Ok(*id),
        Value::Null => Err(failure(pc, opcode, "null object reference")),
        v => Err(
            failure_about(
                pc,
                opcode,
                text::join3(
                    "value in v",
                    text::decimal_unsigned(index as u64).as_str(),
                    " is not an object: ",
                ),
                v,
            ),
        ),
    }
}

/// What registers hold, in the order of a list of their numbers.
pub open spec fn gathered(
    registers: Seq<ValueView>,
    indices: Seq<int>,
    pc: usize,
    opcode: u8,
) -> Result<Seq<ValueView>, ErrorView>
    decreases indices.len(),
{
    if indices.len() == 0 {
        Ok(Seq::empty())
    } else {
        match gathered(registers, indices.drop_last(), pc, opcode) {
            Err(e) => Err(e),
            Ok(values) => match register(registers, indices.last(), pc, opcode) {
                Err(e) => Err(e),
                Ok(v) => Ok(values.push(v)),
            },
        }
    }
}

pub open spec fn args_of(r: Result<Vec<Value>, VmError>) -> Result<Seq<ValueView>, ErrorView> {
    match r {
        Ok(v) => Ok(value::views(v@)),
        Err(e) => Err(e@),
    }
}

pub open spec fn numbers(indices: Seq<usize>) -> Seq<int> {
    indices.map_values(|i: usize| i as int)
}

/// A register that is missing is the error of every longer list.
proof fn lemma_gather_error(
    registers: Seq<ValueView>,
    indices: Seq<int>,
    n: int,
    pc: usize,
    opcode: u8,
)
    requires
        0 <= n <= indices.len(),
        gathered(registers, indices.take(n), pc, opcode) is Err,
    ensures
        gathered(registers, indices, pc, opcode) == gathered(
            registers,
            indices.take(n),
            pc,
            opcode,
        ),
    decreases indices.len(),
{
    if n == indices.len() {
        assert(indices.take(n) =~= indices);
    } else {
        assert(indices.drop_last().take(n) =~= indices.take(n));
        lemma_gather_error(registers, indices.drop_last(), n, pc, opcode);
    }
}

fn gather(registers: &Vec<Value>, indices: &Vec<usize>, pc: usize, opcode: u8) -> (r: Result<
    Vec<Value>,
    VmError,
>)
    ensures
        args_of(r) == gathered(value::views(registers@), numbers(indices@), pc, opcode),
{
    let ghost all = numbers(indices@);
    let ghost held = value::views(registers@);
    let mut values: Vec<Value> = Vec::new();
    let mut i: usize = 0;
    assert(value::views(values@) =~= Seq::empty());
    while i < indices.len()
        invariant
            i <= indices.len(),
            all == numbers(indices@),
            held == value::views(registers@),
            gathered(held, all.take(i as int), pc, opcode) == Ok::<Seq<ValueView>, ErrorView>(
                value::views(values@),
            ),
        decreases indices.len() - i,
    {
        assert(all.take(i as int + 1).drop_last() =~= all.take(i as int));
        match get_register(registers, indices[i], pc, opcode) {
            Ok(v) => push_value(&mut values, v.clone()),
            Err(e) => {
                proof {
                    lemma_gather_error(held, all, i as int + 1, pc, opcode);
                }
                return Err(e);
            },
        }
        i += 1;
    }
    assert(all.take(i as int) =~= all);
    Ok(values)
}

/// The registers that an invoke names: up to five nibbles.
pub open spec fn named_registers(instruction: u16, word: u16) -> Seq<int> {
    let all = seq![
        word as int % 0x10,
        word as int / 0x10 % 0x10,
        word as int / 0x100 % 0x10,
        word as int / 0x1000,
        low_nibble(instruction),
    ];
    if high_nibble(instruction) < 5 {
        all.take(high_nibble(instruction))
    } else {
        all
    }
}

pub fn invoke_args(
    registers: &Vec<Value>,
    instruction: u16,
    word: u16,
    pc: usize,
    opcode: u8,
) -> (r: Result<Vec<Value>, VmError>)
    ensures
        args_of(r) == gathered(
            value::views(registers@),
            named_registers(instruction, word),
            pc,
            opcode,
        ),
{
    let count: u16 = instruction / 0x1000;
    let mut indices: Vec<usize> = Vec::new();
    if count > 0 {
        indices.push((word % 0x10) as usize);
    }
    if count > 1 {
        indices.push((word / 0x10 % 0x10) as usize);
    }
    if count > 2 {
        indices.push((word / 0x100 % 0x10) as usize);
    }
    if count > 3 {
        indices.push((word / 0x1000) as usize);
    }
    if count > 4 {
        indices.push((instruction / 0x100 % 0x10) as usize);
    }
    assert(numbers(indices@) =~= named_registers(instruction, word));
    gather(registers, &indices, pc, opcode)
}

/// A run of registers.
pub open spec fn run_of(first: int, count: nat) -> Seq<int> {
    Seq::new(count, |i: int| first + i)
}

pub fn range_args(registers: &Vec<Value>, first: u16, count: u16, pc: usize, opcode: u8) -> (r:
    Result<Vec<Value>, VmError>)
    requires
        count < 0x100,
    ensures
        args_of(r) == gathered(
            value::views(registers@),
            run_of(first as int, count as nat),
            pc,
            opcode,
        ),
{
    let mut indices: Vec<usize> = Vec::new();
    let mut i: u16 = 0;
    while i < count
        invariant
            i <= count < 0x100,
            numbers(indices@) =~= run_of(first as int, i as nat),
        decreases count - i,
    {
        let ghost before = numbers(indices@);
        let index = first as usize + i as usize;
        indices.push(index);
        assert(numbers(indices@) =~= before.push(index as int));
        i += 1;
        assert(before.push(index as int) =~= run_of(first as int, i as nat));
    }
    gather(registers, &indices, pc, opcode)
}

// Branches.

/// A branch goes to a word of the code, or to its end.
pub open spec fn branched(pc: usize, offset: int, len: nat, at: usize, opcode: u8) -> Result<
    usize,
    ErrorView,
> {
    if 0 <= pc + offset <= len {
        Ok((pc + offset) as usize)
    } else {
        Err(
            error::fault(
                at,
                opcode,
                "branch target outside code: pc="@ + text::decimal(pc as int) + " offset="@
                    + text::decimal(offset) + " target="@ + text::decimal(pc + offset) + " len="@
                    + text::decimal(len as int),
            ),
        )
    }
}

pub fn branch_target(pc: usize, offset: i32, len: usize, at: usize, opcode: u8) -> (r: Result<
    usize,
    VmError,
>)
    ensures
        err_of(r) == branched(pc, offset as int, len as nat, at, opcode),
{
    let target: i128 = pc as i128 + offset as i128;
    if target < 0 || target > len as i128 {
        let a = text::join3(
            "branch target outside code: pc=",
            text::decimal_unsigned(pc as u64).as_str(),
            " offset=",
        );
        let b = text::join3(a.as_str(), text::decimal_text(offset as i64).as_str(), " target=");
        let c = text::join3(b.as_str(), text::decimal_wide(target).as_str(), " len=");
        return Err(
            failure_text(
                at,
                opcode,
                text::join(c.as_str(), text::decimal_unsigned(len as u64).as_str()),
            ),
        );
    }
    Ok(target as usize)
}

// A frame in execution.

/// The registers of a method that runs, where it is, and what its last call gave.
#[derive(Debug)]
pub struct Activation {
    pub registers: Vec<Value>,
    pub pc: usize,
    pub result: Value,
}

pub struct ActivationView {
    pub registers: Seq<ValueView>,
    pub pc: usize,
    pub result: ValueView,
}

impl View for Activation {
    type V = ActivationView;

    open spec fn view(&self) -> ActivationView {
        ActivationView {
            registers: value::views(self.registers@),
            pc: self.pc,
            result: self.result@,
        }
    }
}

/// What an instruction makes of an activation.
pub type Stepped = Result<ActivationView, ErrorView>;

pub open spec fn stepped(r: Result<(), VmError>, after: ActivationView) -> Stepped {
    match r {
        Ok(_) => Ok(after),
        Err(e) => Err(e@),
    }
}

pub open spec fn skip(a: ActivationView, size: int) -> ActivationView {
    ActivationView { pc: (a.pc + size) as usize, ..a }
}

/// Writes a register and goes on.
pub open spec fn put(
    a: ActivationView,
    index: int,
    value: ValueView,
    size: int,
    opcode: u8,
) -> Stepped {
    match written(a.registers, index, value, a.pc, opcode) {
        Ok(registers) => Ok(skip(ActivationView { registers, ..a }, size)),
        Err(e) => Err(e),
    }
}

pub open spec fn put_wide(
    a: ActivationView,
    index: int,
    value: ValueView,
    size: int,
    opcode: u8,
) -> Stepped {
    match written_wide(a.registers, index, value, a.pc, opcode) {
        Ok(registers) => Ok(skip(ActivationView { registers, ..a }, size)),
        Err(e) => Err(e),
    }
}

pub open spec fn jump(a: ActivationView, offset: int, len: nat, opcode: u8) -> Stepped {
    match branched(a.pc, offset, len, a.pc, opcode) {
        Ok(pc) => Ok(ActivationView { pc, ..a }),
        Err(e) => Err(e),
    }
}

impl ActivationView {
    pub open spec fn get(self, index: int, opcode: u8) -> Result<ValueView, ErrorView> {
        register(self.registers, index, self.pc, opcode)
    }

    pub open spec fn integer(self, index: int, opcode: u8) -> Result<i32, ErrorView> {
        match self.get(index, opcode) {
            Ok(v) => convert::int_of(v, self.pc, opcode),
            Err(e) => Err(e),
        }
    }

    pub open spec fn long(self, index: int, opcode: u8) -> Result<i64, ErrorView> {
        match self.get(index, opcode) {
            Ok(v) => convert::long_of(v, self.pc, opcode),
            Err(e) => Err(e),
        }
    }

    pub open spec fn single(self, index: int, opcode: u8) -> Result<u32, ErrorView> {
        match self.get(index, opcode) {
            Ok(v) => convert::single_of(v, self.pc, opcode),
            Err(e) => Err(e),
        }
    }

    pub open spec fn double(self, index: int, opcode: u8) -> Result<u64, ErrorView> {
        match self.get(index, opcode) {
            Ok(v) => convert::double_of(v, self.pc, opcode),
            Err(e) => Err(e),
        }
    }
}

impl Activation {
    pub fn value(&self, index: usize, opcode: u8) -> (r: Result<Value, VmError>)
        ensures
            val_of(r) == self@.get(index as int, opcode),
    {
        let v = get_register(&self.registers, index, self.pc, opcode)?;
        Ok(v.clone())
    }

    pub fn integer(&self, index: usize, opcode: u8) -> (r: Result<i32, VmError>)
        ensures
            err_of(r) == self@.integer(index as int, opcode),
    {
        let v = get_register(&self.registers, index, self.pc, opcode)?;
        as_int(v, self.pc, opcode)
    }

    pub fn long(&self, index: usize, opcode: u8) -> (r: Result<i64, VmError>)
        ensures
            err_of(r) == self@.long(index as int, opcode),
    {
        let v = get_register(&self.registers, index, self.pc, opcode)?;
        as_long(v, self.pc, opcode)
    }

    pub fn single(&self, index: usize, opcode: u8) -> (r: Result<u32, VmError>)
        ensures
            err_of(r) == self@.single(index as int, opcode),
    {
        let v = get_register(&self.registers, index, self.pc, opcode)?;
        as_float(v, self.pc, opcode)
    }

    pub fn double(&self, index: usize, opcode: u8) -> (r: Result<u64, VmError>)
        ensures
            err_of(r) == self@.double(index as int, opcode),
    {
        let v = get_register(&self.registers, index, self.pc, opcode)?;
        as_double(v, self.pc, opcode)
    }

    pub fn put(&mut self, index: usize, value: Value, size: usize, opcode: u8) -> (r: Result<
        (),
        VmError,
    >)
        requires
            old(self).pc + size <= usize::MAX,
        ensures
            stepped(r, final(self)@) == put(old(self)@, index as int, value@, size as int, opcode),
    {
        set_register(&mut self.registers, index, value, self.pc, opcode)?;
        self.pc = self.pc + size;
        Ok(())
    }

    pub fn put_wide(&mut self, index: usize, value: Value, size: usize, opcode: u8) -> (r: Result<
        (),
        VmError,
    >)
        requires
            old(self).pc + size <= usize::MAX,
        ensures
            stepped(r, final(self)@) == put_wide(
                old(self)@,
                index as int,
                value@,
                size as int,
                opcode,
            ),
    {
        set_wide_register(&mut self.registers, index, value, self.pc, opcode)?;
        self.pc = self.pc + size;
        Ok(())
    }

    pub fn skip(&mut self, size: usize)
        requires
            old(self).pc + size <= usize::MAX,
        ensures
            final(self)@ == skip(old(self)@, size as int),
    {
        self.pc = self.pc + size;
    }

    pub fn jump(&mut self, offset: i32, code: &CodeItem, opcode: u8) -> (r: Result<(), VmError>)
        ensures
            stepped(r, final(self)@) == jump(
                old(self)@,
                offset as int,
                code.instructions@.len(),
                opcode,
            ),
    {
        let pc = branch_target(self.pc, offset, code.instructions.len(), self.pc, opcode)?;
        self.pc = pc;
        Ok(())
    }
}

/// The registers of a method at its entry: empty, but for the arguments in the last ones.
pub open spec fn entered(size: nat, ins: nat, args: Seq<ValueView>) -> Result<
    Seq<ValueView>,
    ErrorView,
> {
    if size < ins {
        Err(error::fault(0, 0, "register count is smaller than input count"@))
    } else if args.len() > ins {
        Err(error::fault(0, 0, "method argument exceeds input registers"@))
    } else {
        Ok(
            Seq::new(
                size,
                |i: int|
                    if size - ins <= i < size - ins + args.len() {
                        args[i - (size - ins)]
                    } else {
                        ValueView::Null
                    },
            ),
        )
    }
}

pub fn enter(code: &CodeItem, args: &Vec<Value>) -> (r: Result<Activation, VmError>)
    ensures
        match r {
            Ok(a) => {
                &&& entered(
                    code.registers_size as nat,
                    code.ins_size as nat,
                    value::views(args@),
                ) == Ok::<Seq<ValueView>, ErrorView>(a@.registers)
                &&& a@.pc == 0
                &&& a@.result == ValueView::Void
            },
            Err(e) => entered(
                code.registers_size as nat,
                code.ins_size as nat,
                value::views(args@),
            ) == Err::<Seq<ValueView>, ErrorView>(e@),
        },
{
    if code.registers_size < code.ins_size {
        return Err(failure(0, 0, "register count is smaller than input count"));
    }
    if args.len() > code.ins_size as usize {
        return Err(failure(0, 0, "method argument exceeds input registers"));
    }
    let size = code.registers_size as usize;
    let first: usize = size - code.ins_size as usize;
    let mut registers = nulls(size);
    let mut i: usize = 0;
    while i < args.len()
        invariant
            i <= args.len(),
            first + args.len() <= size,
            registers.len() == size,
            value::views(registers@) =~= Seq::new(
                size as nat,
                |j: int|
                    if first <= j < first + i {
                        value::views(args@)[j - first]
                    } else {
                        ValueView::Null
                    },
            ),
        decreases args.len() - i,
    {
        set_value(&mut registers, first + i, args[i].clone());
        i += 1;
    }
    let a = Activation { registers, pc: 0, result: Value::Void };
    assert(a@.registers =~= entered(
        code.registers_size as nat,
        code.ins_size as nat,
        value::views(args@),
    )->Ok_0);
    Ok(a)
}

} // verus!
