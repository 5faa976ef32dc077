//! Messages of errors and of the trace, and how they read.

use vstd::prelude::*;

use crate::spelling;
use crate::spelling::{Spelling, SpellingView};
use crate::text;
use crate::value;
use crate::value::{copy_values, Value, ValueView};

verus! {

/// A part of a message: text, a value, a list of values, or numbered registers with their
/// bits.
#[derive(Debug)]
pub enum Piece {
    Text(String),
    Debug(Value),
    List(Vec<Value>),
    Registers(Vec<Value>),
}

pub enum PieceView {
    Text(Seq<char>),
    Debug(ValueView),
    List(Seq<ValueView>),
    Registers(Seq<ValueView>),
}

impl View for Piece {
    type V = PieceView;

    open spec fn view(&self) -> PieceView {
        match self {
            Piece::Text(s) => PieceView::Text(s@),
            Piece::Debug(v) => PieceView::Debug(v@),
            Piece::List(v) => PieceView::List(value::views(v@)),
            Piece::Registers(v) => PieceView::Registers(value::views(v@)),
        }
    }
}

impl Clone for Piece {
    fn clone(&self) -> (r: Self)
        ensures
            r@ == self@,
    {
        match self {
            Piece::Text(s) => Piece::Text(s.clone()),
            Piece::Debug(v) => Piece::Debug(v.clone()),
            Piece::List(v) => Piece::List(copy_values(v)),
            Piece::Registers(v) => Piece::Registers(copy_values(v)),
        }
    }
}

pub type Message = Vec<Piece>;

pub type MessageView = Seq<PieceView>;

pub open spec fn message_view(pieces: Seq<Piece>) -> MessageView {
    pieces.map_values(|p: Piece| p@)
}

/// What went wrong, and at which instruction.
#[derive(Debug)]
pub struct VmError {
    pub pc: usize,
    pub opcode: u8,
    pub message: Message,
}

pub struct ErrorView {
    pub pc: usize,
    pub opcode: u8,
    pub message: MessageView,
}

impl View for VmError {
    type V = ErrorView;

    open spec fn view(&self) -> ErrorView {
        ErrorView { pc: self.pc, opcode: self.opcode, message: message_view(self.message@) }
    }
}

impl Clone for VmError {
    fn clone(&self) -> (r: Self)
        ensures
            r@ == self@,
    {
        let mut message: Message = Vec::new();
        let mut i: usize = 0;
        while i < self.message.len()
            invariant
                i <= self.message.len(),
                message_view(message@) =~= message_view(self.message@).take(i as int),
            decreases self.message.len() - i,
        {
            push_piece(&mut message, self.message[i].clone());
            i += 1;
        }
        assert(message_view(self.message@).take(i as int) =~= message_view(self.message@));
        VmError { pc: self.pc, opcode: self.opcode, message }
    }
}

/// What a computation gives: a value, or an error.
pub type Outcome = Result<ValueView, ErrorView>;

pub open spec fn outcome(r: Result<Value, VmError>) -> Outcome {
    match r {
        Ok(v) => Ok(v@),
        Err(e) => Err(e@),
    }
}

/// An error with a message of text alone.
pub open spec fn fault(pc: usize, opcode: u8, message: Seq<char>) -> ErrorView {
    ErrorView { pc, opcode, message: seq![PieceView::Text(message)] }
}

/// An error whose message ends in a value.
pub open spec fn fault_about(
    pc: usize,
    opcode: u8,
    message: Seq<char>,
    value: ValueView,
) -> ErrorView {
    ErrorView {
        pc,
        opcode,
        message: seq![PieceView::Text(message), PieceView::Debug(value)],
    }
}

pub open spec fn noted(e: ErrorView, note: Seq<char>) -> ErrorView {
    ErrorView { message: e.message.push(PieceView::Text(note)), ..e }
}

pub fn failure(pc: usize, opcode: u8, message: &str) -> (r: VmError)
    ensures
        r@ == fault(pc, opcode, message@),
{
    failure_text(pc, opcode, message.to_owned())
}

pub fn failure_text(pc: usize, opcode: u8, message: String) -> (r: VmError)
    ensures
        r@ == fault(pc, opcode, message@),
{
    let r = VmError { pc, opcode, message: vec![Piece::Text(message)] };
    assert(message_view(r.message@) =~= seq![PieceView::Text(message@)]);
    r
}

pub fn failure_about(pc: usize, opcode: u8, message: String, value: &Value) -> (r: VmError)
    ensures
        r@ == fault_about(pc, opcode, message@, value@),
{
    let r = VmError {
        pc,
        opcode,
        message: vec![Piece::Text(message), Piece::Debug(value.clone())],
    };
    assert(message_view(r.message@) =~= seq![
        PieceView::Text(message@),
        PieceView::Debug(value@),
    ]);
    r
}

pub fn push_piece(message: &mut Message, piece: Piece)
    ensures
        message_view(final(message)@) == message_view(old(message)@).push(piece@),
{
    message.push(piece);
    assert(message_view(message@) =~= message_view(old(message)@).push(piece@));
}

impl VmError {
    /// The same error with more text behind its message.
    pub fn note(self, note: String) -> (r: VmError)
        ensures
            r@ == noted(self@, note@),
    {
        let mut message = self.message;
        push_piece(&mut message, Piece::Text(note));
        VmError { pc: self.pc, opcode: self.opcode, message }
    }
}

// Reading a message.

/// What stands for the bits of a value in a trace.
pub open spec fn bits(value: ValueView) -> u64 {
    match value {
        ValueView::Void => 0,
        ValueView::Int(v) => v as u32 as u64,
        ValueView::Long(v) => v as u64,
        ValueView::Float(v) => v as u64,
        ValueView::Double(v) => v,
        ValueView::Object(v) => v as u64,
        ValueView::String(v) => text::fnv(vstd::utf8::encode_utf8(v)),
        ValueView::Null => 0,
    }
}

pub fn value_bits(value: &Value) -> (r: u64)
    ensures
        r == bits(value@),
{
    match value {
        Value::Void => 0,
        Value::Int(v) => *v as u32 as u64,
        Value::Long(v) => *v as u64,
        Value::Float(v) => *v as u64,
        Value::Double(v) => *v,
        Value::Object(v) => *v as u64,
        Value::String(v) => text::hash_text(v.as_str()),
        Value::Null => 0,
    }
}

/// The texts of floating-point values, each behind its value.
pub type FloatTexts = Vec<(Value, String)>;

pub type FloatTextsView = Seq<(ValueView, Seq<char>)>;

pub open spec fn float_texts_view(texts: Seq<(Value, String)>) -> FloatTextsView {
    texts.map_values(|t: (Value, String)| (t.0@, t.1@))
}

/// The first text that stands behind a value; nothing where there is none.
pub open spec fn text_of(texts: FloatTextsView, value: ValueView) -> Seq<char>
    decreases texts.len(),
{
    if texts.len() == 0 {
        Seq::empty()
    } else if texts[0].0 == value {
        texts[0].1
    } else {
        text_of(texts.skip(1), value)
    }
}

pub open spec fn is_floating(value: ValueView) -> bool {
    value is Float || value is Double
}

/// The text of a string in a debugging message: quoted and escaped.
pub uninterp spec fn quoted(s: Seq<char>) -> Seq<char>;

/// `str`'s `Debug`, through `format!`. The result is named, not described.
#[verifier::external_body]
fn quote(s: &str) -> (r: String)
    ensures
        r@ == quoted(s@),
{
    format!("{:?}", s)
}

/// How a value reads in a message, given the text of a floating-point number.
pub open spec fn shown(value: ValueView, number: Seq<char>) -> Seq<char> {
    match value {
        ValueView::Void => "Void"@,
        ValueView::Int(v) => "Int("@ + text::decimal(v as int) + ")"@,
        ValueView::Long(v) => "Long("@ + text::decimal(v as int) + ")"@,
        ValueView::Float(_) => "Float("@ + number + ")"@,
        ValueView::Double(_) => "Double("@ + number + ")"@,
        ValueView::Object(v) => "Object("@ + text::decimal(v as int) + ")"@,
        ValueView::String(s) => "String("@ + quoted(s) + ")"@,
        ValueView::Null => "Null"@,
    }
}

pub fn show(value: &Value, number: &str) -> (r: String)
    ensures
        r@ == shown(value@, number@),
{
    match value {
        Value::Void => "Void".to_owned(),
        Value::Int(v) => text::join3("Int(", text::decimal_text(*v as i64).as_str(), ")"),
        Value::Long(v) => text::join3("Long(", text::decimal_text(*v).as_str(), ")"),
        Value::Float(_) => text::join3("Float(", number, ")"),
        Value::Double(_) => text::join3("Double(", number, ")"),
        Value::Object(v) => text::join3(
            "Object(",
            text::decimal_unsigned(*v as u64).as_str(),
            ")",
        ),
        Value::String(s) => text::join3("String(", quote(s.as_str()).as_str(), ")"),
        Value::Null => "Null".to_owned(),
    }
}

/// A piece of a message, spelled out behind what stands before it.
pub open spec fn with_piece(before: SpellingView, piece: PieceView) -> SpellingView {
    match piece {
        PieceView::Text(s) => before.text(s),
        PieceView::Debug(v) => before.value(v),
        PieceView::List(values) => before.text("["@).list(values).text("]"@),
        PieceView::Registers(values) => before.registers(values),
    }
}

pub open spec fn spelled(message: MessageView) -> SpellingView
    decreases message.len(),
{
    if message.len() == 0 {
        spelling::blank()
    } else {
        with_piece(spelled(message.drop_last()), message.last())
    }
}

pub open spec fn message_text(message: MessageView, texts: FloatTextsView) -> Seq<char> {
    spelling::spelling_text(spelled(message), texts)
}

/// How an error reads.
pub open spec fn error_text(e: ErrorView, texts: FloatTextsView) -> Seq<char> {
    "Dalvik VM error at pc "@ + text::decimal(e.pc as int) + " opcode 0x"@ + text::padded(
        text::digits(e.opcode as nat, 16),
        2,
    ) + ": "@ + message_text(e.message, texts)
}

pub fn same_value(a: &Value, b: &Value) -> (r: bool)
    ensures
        r == (a@ == b@),
{
    match (a, b) {
        (Value::Void, Value::Void) => true,
        (Value::Int(x), Value::Int(y)) => *x == *y,
        (Value::Long(x), Value::Long(y)) => *x == *y,
        (Value::Float(x), Value::Float(y)) => *x == *y,
        (Value::Double(x), Value::Double(y)) => *x == *y,
        (Value::Object(x), Value::Object(y)) => *x == *y,
        (Value::String(x), Value::String(y)) => text::same(x.as_str(), y.as_str()),
        (Value::Null, Value::Null) => true,
        _ => false,
    }
}

fn find_text_of(texts: &FloatTexts, value: &Value) -> (r: String)
    ensures
        r@ == text_of(float_texts_view(texts@), value@),
{
    let ghost all = float_texts_view(texts@);
    let mut i: usize = 0;
    assert(all.skip(0) =~= all);
    while i < texts.len()
        invariant
            i <= texts.len(),
            all == float_texts_view(texts@),
            text_of(all, value@) == text_of(all.skip(i as int), value@),
        decreases texts.len() - i,
    {
        assert(all.skip(i as int)[0] == all[i as int]);
        assert(all.skip(i as int).skip(1) =~= all.skip(i as int + 1));
        if same_value(&texts[i].0, value) {
            return texts[i].1.clone();
        }
        i += 1;
    }
    assert(all.skip(i as int).len() == 0);
    String::new()
}

fn spell(message: &Message) -> (r: Spelling)
    ensures
        r@ == spelled(message_view(message@)),
{
    let ghost all = message_view(message@);
    let mut r = Spelling::new();
    let mut i: usize = 0;
    while i < message.len()
        invariant
            i <= message.len(),
            all == message_view(message@),
            r@ == spelled(all.take(i as int)),
        decreases message.len() - i,
    {
        assert(all.take(i as int + 1).drop_last() =~= all.take(i as int));
        assert(all.take(i as int + 1).last() == message[i as int]@);
        match &message[i] {
            Piece::Text(s) => r.add_text(s.as_str()),
            Piece::Debug(v) => r.add_value(v),
            Piece::List(values) => {
                r.add_text("[");
                r.add_list(values);
                r.add_text("]");
            },
            Piece::Registers(values) => r.add_registers(values),
        }
        i += 1;
    }
    assert(all.take(i as int) =~= all);
    r
}

/// The text of a message, given the texts of the floating-point values in it.
pub fn read_message(message: &Message, texts: &FloatTexts) -> (r: String)
    ensures
        r@ == message_text(message_view(message@), float_texts_view(texts@)),
{
    let s = spell(message);
    let ghost runs = s@.runs;
    let mut r = String::new();
    let mut i: usize = 0;
    while i < s.runs.len()
        invariant
            i <= s.runs.len(),
            runs == s@.runs,
            r@ == spelling::runs_text(runs.take(i as int), float_texts_view(texts@)),
        decreases s.runs.len() - i,
    {
        assert(runs.take(i as int + 1).drop_last() =~= runs.take(i as int));
        assert(runs.take(i as int + 1).last() == runs[i as int]);
        let number = find_text_of(texts, &s.runs[i].1);
        r = text::join3(r.as_str(), s.runs[i].0.as_str(), number.as_str());
        i += 1;
    }
    assert(runs.take(i as int) =~= runs);
    text::join(r.as_str(), s.tail.as_str())
}

// Equality.

/// Whether two messages say the same, however they are cut into pieces. A floating-point number
/// says the same as one that is written alike, and not the same as text that spells it out.
pub open spec fn same_message(a: MessageView, b: MessageView) -> bool {
    spelling::same_spelling(spelled(a), spelled(b))
}

pub fn messages_equal(a: &Message, b: &Message) -> (r: bool)
    ensures
        r == same_message(message_view(a@), message_view(b@)),
{
    spell(a) == spell(b)
}

/// Whether two errors came at the same instruction and say the same.
pub open spec fn same_error(a: ErrorView, b: ErrorView) -> bool {
    a.pc == b.pc && a.opcode == b.opcode && same_message(a.message, b.message)
}

impl PartialEq for VmError {
    fn eq(&self, other: &Self) -> (r: bool) {
        self.pc == other.pc && self.opcode == other.opcode && messages_equal(
            &self.message,
            &other.message,
        )
    }
}

impl vstd::std_specs::cmp::PartialEqSpecImpl for VmError {
    open spec fn obeys_eq_spec() -> bool {
        true
    }

    open spec fn eq_spec(&self, other: &Self) -> bool {
        same_error(self@, other@)
    }
}

impl Eq for VmError {

}

// What a message needs to be read.

/// The values whose texts a message needs, in the order in which they stand in it.
pub open spec fn floats_in(message: MessageView) -> Seq<ValueView>
    decreases message.len(),
{
    if message.len() == 0 {
        Seq::empty()
    } else {
        let rest = floats_in(message.drop_last());
        match message.last() {
            PieceView::Text(_) => rest,
            PieceView::Debug(v) => rest + floats_among(seq![v]),
            PieceView::List(values) => rest + floats_among(values),
            PieceView::Registers(values) => rest + floats_among(values),
        }
    }
}

pub open spec fn floats_among(values: Seq<ValueView>) -> Seq<ValueView> {
    values.filter(|v: ValueView| is_floating(v))
}

fn push_float(into: &mut Vec<Value>, value: &Value)
    ensures
        value::views(final(into)@) == if is_floating(value@) {
            value::views(old(into)@).push(value@)
        } else {
            value::views(old(into)@)
        },
{
    match value {
        Value::Float(_) | Value::Double(_) => value::push_value(into, value.clone()),
        _ => {},
    }
}

fn push_floats(into: &mut Vec<Value>, values: &Vec<Value>)
    ensures
        value::views(final(into)@) == value::views(old(into)@) + floats_among(
            value::views(values@),
        ),
{
    let ghost all = value::views(values@);
    let ghost before = value::views(into@);
    let mut i: usize = 0;
    assert(floats_among(all.take(0)) =~= Seq::empty()) by {
        reveal(Seq::filter);
    }
    while i < values.len()
        invariant
            i <= values.len(),
            all == value::views(values@),
            value::views(into@) =~= before + floats_among(all.take(i as int)),
        decreases values.len() - i,
    {
        push_float(into, &values[i]);
        proof {
            reveal(Seq::filter);
            assert(all.take(i as int + 1).drop_last() =~= all.take(i as int));
            assert(all.take(i as int + 1).last() == values[i as int]@);
        }
        i += 1;
    }
    assert(all.take(i as int) =~= all);
}

pub fn message_floats(message: &Message) -> (r: Vec<Value>)
    ensures
        value::views(r@) == floats_in(message_view(message@)),
{
    let ghost all = message_view(message@);
    let mut r: Vec<Value> = Vec::new();
    let mut i: usize = 0;
    assert(value::views(r@) =~= Seq::empty());
    while i < message.len()
        invariant
            i <= message.len(),
            all == message_view(message@),
            value::views(r@) == floats_in(all.take(i as int)),
        decreases message.len() - i,
    {
        assert(all.take(i as int + 1).drop_last() =~= all.take(i as int));
        assert(all.take(i as int + 1).last() == message[i as int]@);
        match &message[i] {
            Piece::Text(_) => {},
            Piece::Debug(v) => {
                let mut one: Vec<Value> = Vec::new();
                one.push(v.clone());
                assert(value::views(one@) =~= seq![v@]);
                push_floats(&mut r, &one);
            },
            Piece::List(values) => push_floats(&mut r, values),
            Piece::Registers(values) => push_floats(&mut r, values),
        }
        i += 1;
    }
    assert(all.take(i as int) =~= all);
    r
}

impl VmError {
    /// How the error reads, given the texts of the floating-point values in its message.
    pub fn describe(&self, texts: &FloatTexts) -> (r: String)
        ensures
            r@ == error_text(self@, float_texts_view(texts@)),
    {
        let place = text::join3(
            "Dalvik VM error at pc ",
            text::decimal_unsigned(self.pc as u64).as_str(),
            " opcode 0x",
        );
        let code = text::pad(text::digits_text(self.opcode as u64, 16), 2);
        text::join(
            text::join3(place.as_str(), code.as_str(), ": ").as_str(),
            read_message(&self.message, texts).as_str(),
        )
    }
}

} // verus!
