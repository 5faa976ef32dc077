//! Text with floating-point numbers in it that are yet to be written out.

use vstd::prelude::*;

use crate::error::{bits, show, shown, text_of, value_bits, FloatTextsView};
use crate::float;
use crate::table;
use crate::text;
use crate::value;
use crate::value::{Value, ValueView};

verus! {

/// Each number behind the text before it, and the text behind the last number.
pub struct Spelling {
    pub runs: Vec<(String, Value)>,
    pub tail: String,
}

pub struct SpellingView {
    pub runs: Seq<(Seq<char>, ValueView)>,
    pub tail: Seq<char>,
}

impl View for Spelling {
    type V = SpellingView;

    open spec fn view(&self) -> SpellingView {
        SpellingView { runs: table::named(self.runs@), tail: self.tail@ }
    }
}

pub open spec fn blank() -> SpellingView {
    SpellingView { runs: Seq::empty(), tail: Seq::empty() }
}

impl SpellingView {
    pub open spec fn text(self, s: Seq<char>) -> SpellingView {
        SpellingView { tail: self.tail + s, ..self }
    }

    pub open spec fn number(self, v: ValueView) -> SpellingView {
        SpellingView { runs: self.runs.push((self.tail, v)), tail: Seq::empty() }
    }

    /// A value, as it is shown.
    pub open spec fn value(self, v: ValueView) -> SpellingView {
        match v {
            ValueView::Float(_) => self.text("Float("@).number(v).text(")"@),
            ValueView::Double(_) => self.text("Double("@).number(v).text(")"@),
            _ => self.text(shown(v, Seq::empty())),
        }
    }

    /// Values with `, ` between them.
    pub open spec fn list(self, values: Seq<ValueView>) -> SpellingView
        decreases values.len(),
    {
        if values.len() == 0 {
            self
        } else if values.len() == 1 {
            self.value(values[0])
        } else {
            self.list(values.drop_last()).text(", "@).value(values.last())
        }
    }

    /// `r0=0x..(..)`: a value behind its number and its bits.
    pub open spec fn register(self, index: nat, v: ValueView) -> SpellingView {
        self.text(
            "r"@ + text::decimal(index as int) + "=0x"@ + text::digits(bits(v) as nat, 16) + "("@,
        ).value(v).text(")"@)
    }

    /// Registers with blanks between them.
    pub open spec fn registers(self, values: Seq<ValueView>) -> SpellingView
        decreases values.len(),
    {
        if values.len() == 0 {
            self
        } else if values.len() == 1 {
            self.register(0, values[0])
        } else {
            self.registers(values.drop_last()).text(" "@).register(
                (values.len() - 1) as nat,
                values.last(),
            )
        }
    }
}

impl Spelling {
    pub fn new() -> (r: Spelling)
        ensures
            r@ == blank(),
    {
        let r = Spelling { runs: Vec::new(), tail: String::new() };
        assert(r@.runs =~= Seq::empty());
        r
    }

    pub fn add_text(&mut self, s: &str)
        ensures
            final(self)@ == old(self)@.text(s@),
    {
        self.tail = text::join(self.tail.as_str(), s);
    }

    fn add_number(&mut self, v: &Value)
        ensures
            final(self)@ == old(self)@.number(v@),
    {
        let before = self.tail.clone();
        self.runs.push((before, v.clone()));
        self.tail = String::new();
        assert(self@.runs =~= old(self)@.number(v@).runs);
    }

    pub fn add_value(&mut self, v: &Value)
        ensures
            final(self)@ == old(self)@.value(v@),
    {
        match v {
            Value::Float(_) => {
                self.add_text("Float(");
                self.add_number(v);
                self.add_text(")");
            },
            Value::Double(_) => {
                self.add_text("Double(");
                self.add_number(v);
                self.add_text(")");
            },
            _ => {
                let s = show(v, "");
                proof {
                    reveal_strlit("");
                    assert(""@ =~= Seq::<char>::empty());
                }
                self.add_text(s.as_str());
            },
        }
    }

    pub fn add_list(&mut self, values: &Vec<Value>)
        ensures
            final(self)@ == old(self)@.list(value::views(values@)),
    {
        let ghost all = value::views(values@);
        let ghost before = self@;
        let mut i: usize = 0;
        while i < values.len()
            invariant
                i <= values.len(),
                all == value::views(values@),
                self@ == before.list(all.take(i as int)),
            decreases values.len() - i,
        {
            assert(all.take(i as int + 1).drop_last() =~= all.take(i as int));
            assert(all.take(i as int + 1).last() == values[i as int]@);
            if i > 0 {
                self.add_text(", ");
            }
            self.add_value(&values[i]);
            i += 1;
        }
        assert(all.take(i as int) =~= all);
    }

    fn add_register(&mut self, index: usize, v: &Value)
        ensures
            final(self)@ == old(self)@.register(index as nat, v@),
    {
        let head = text::join3("r", text::decimal_unsigned(index as u64).as_str(), "=0x");
        let hex = text::digits_text(value_bits(v), 16);
        self.add_text(text::join3(head.as_str(), hex.as_str(), "(").as_str());
        self.add_value(v);
        self.add_text(")");
    }

    pub fn add_registers(&mut self, values: &Vec<Value>)
        ensures
            final(self)@ == old(self)@.registers(value::views(values@)),
    {
        let ghost all = value::views(values@);
        let ghost before = self@;
        let mut i: usize = 0;
        while i < values.len()
            invariant
                i <= values.len(),
                all == value::views(values@),
                self@ == before.registers(all.take(i as int)),
            decreases values.len() - i,
        {
            assert(all.take(i as int + 1).drop_last() =~= all.take(i as int));
            assert(all.take(i as int + 1).last() == values[i as int]@);
            if i > 0 {
                self.add_text(" ");
            }
            self.add_register(i, &values[i]);
            i += 1;
        }
        assert(all.take(i as int) =~= all);
    }
}

// Equality.

/// Whether two floating-point numbers are written alike: they have the same bits, or both are
/// NaN.
pub open spec fn same_number(a: ValueView, b: ValueView) -> bool {
    match (a, b) {
        (ValueView::Float(x), ValueView::Float(y)) => x == y || float::single_nan(x)
            && float::single_nan(y),
        (ValueView::Double(x), ValueView::Double(y)) => x == y || float::double_nan(x)
            && float::double_nan(y),
        _ => a == b,
    }
}

fn is_same_number(a: &Value, b: &Value) -> (r: bool)
    ensures
        r == same_number(a@, b@),
{
    match (a, b) {
        (Value::Float(x), Value::Float(y)) => *x == *y || float::single_is_nan(*x)
            && float::single_is_nan(*y),
        (Value::Double(x), Value::Double(y)) => *x == *y || float::double_is_nan(*x)
            && float::double_is_nan(*y),
        _ => crate::error::same_value(a, b),
    }
}

/// Whether two spellings have the same text and, at the same places in it, numbers that are
/// written alike.
pub open spec fn same_spelling(a: SpellingView, b: SpellingView) -> bool {
    &&& a.tail == b.tail
    &&& a.runs.len() == b.runs.len()
    &&& forall|i: int|
        0 <= i < a.runs.len() ==> (#[trigger] a.runs[i]).0 == b.runs[i].0 && same_number(
            a.runs[i].1,
            b.runs[i].1,
        )
}

impl PartialEq for Spelling {
    fn eq(&self, other: &Self) -> (r: bool) {
        if self.runs.len() != other.runs.len() || !text::same(
            self.tail.as_str(),
            other.tail.as_str(),
        ) {
            return false;
        }
        let mut i: usize = 0;
        while i < self.runs.len()
            invariant
                i <= self.runs.len(),
                self.runs.len() == other.runs.len(),
                forall|j: int|
                    0 <= j < i ==> (#[trigger] self@.runs[j]).0 == other@.runs[j].0
                        && same_number(self@.runs[j].1, other@.runs[j].1),
            decreases self.runs.len() - i,
        {
            if !text::same(self.runs[i].0.as_str(), other.runs[i].0.as_str())
                || !is_same_number(&self.runs[i].1, &other.runs[i].1) {
                assert(!(self@.runs[i as int].0 == other@.runs[i as int].0 && same_number(
                    self@.runs[i as int].1,
                    other@.runs[i as int].1,
                )));
                return false;
            }
            i += 1;
        }
        true
    }
}

impl vstd::std_specs::cmp::PartialEqSpecImpl for Spelling {
    open spec fn obeys_eq_spec() -> bool {
        true
    }

    open spec fn eq_spec(&self, other: &Self) -> bool {
        same_spelling(self@, other@)
    }
}

impl Eq for Spelling {

}

// Reading.

pub open spec fn runs_text(runs: Seq<(Seq<char>, ValueView)>, texts: FloatTextsView) -> Seq<char>
    decreases runs.len(),
{
    if runs.len() == 0 {
        Seq::empty()
    } else {
        runs_text(runs.drop_last(), texts) + runs.last().0 + text_of(texts, runs.last().1)
    }
}

/// How a spelling reads, given the texts of its numbers.
pub open spec fn spelling_text(s: SpellingView, texts: FloatTextsView) -> Seq<char> {
    runs_text(s.runs, texts) + s.tail
}

} // verus!
