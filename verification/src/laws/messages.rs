//! Messages: which of them are equal, and how equal ones read.

use vstd::prelude::*;

use crate::error;
use crate::error::{ErrorView, FloatTextsView, MessageView, PieceView};
use crate::spelling;
use crate::spelling::SpellingView;
use crate::value::ValueView;

verus! {

// The numbers of a message.

pub open spec fn numbers_of(s: SpellingView) -> Seq<ValueView> {
    s.runs.map_values(|run: (Seq<char>, ValueView)| run.1)
}

proof fn lemma_value_numbers(s: SpellingView, v: ValueView)
    ensures
        numbers_of(s.value(v)) == numbers_of(s) + error::floats_among(seq![v]),
{
    reveal(Seq::filter);
    assert(seq![v].drop_last() =~= Seq::<ValueView>::empty());
    assert(error::floats_among(seq![v].drop_last()) =~= Seq::<ValueView>::empty());
    assert(numbers_of(s.value(v)) =~= numbers_of(s) + error::floats_among(seq![v]));
}

proof fn lemma_floats_push(values: Seq<ValueView>)
    requires
        values.len() > 0,
    ensures
        error::floats_among(values) == error::floats_among(values.drop_last())
            + error::floats_among(seq![values.last()]),
{
    reveal(Seq::filter);
    let one = seq![values.last()];
    assert(one.drop_last() =~= Seq::<ValueView>::empty());
    assert(error::floats_among(one.drop_last()) =~= Seq::<ValueView>::empty());
    assert(error::floats_among(values) =~= error::floats_among(values.drop_last())
        + error::floats_among(one));
}

proof fn lemma_list_numbers(s: SpellingView, values: Seq<ValueView>)
    ensures
        numbers_of(s.list(values)) == numbers_of(s) + error::floats_among(values),
    decreases values.len(),
{
    if values.len() == 0 {
        reveal(Seq::filter);
        assert(numbers_of(s) =~= numbers_of(s) + error::floats_among(values));
    } else {
        lemma_floats_push(values);
        if values.len() == 1 {
            lemma_value_numbers(s, values[0]);
            assert(values =~= seq![values[0]]);
        } else {
            let before = s.list(values.drop_last());
            lemma_list_numbers(s, values.drop_last());
            lemma_value_numbers(before.text(", "@), values.last());
            assert(numbers_of(before.text(", "@)) == numbers_of(before));
            assert(numbers_of(s.list(values)) =~= numbers_of(s) + error::floats_among(values));
        }
    }
}

proof fn lemma_register_numbers(s: SpellingView, index: nat, v: ValueView)
    ensures
        numbers_of(s.register(index, v)) == numbers_of(s) + error::floats_among(seq![v]),
{
    let head = "r"@ + crate::text::decimal(index as int) + "=0x"@ + crate::text::digits(
        error::bits(v) as nat,
        16,
    ) + "("@;
    lemma_value_numbers(s.text(head), v);
}

proof fn lemma_registers_numbers(s: SpellingView, values: Seq<ValueView>)
    ensures
        numbers_of(s.registers(values)) == numbers_of(s) + error::floats_among(values),
    decreases values.len(),
{
    if values.len() == 0 {
        reveal(Seq::filter);
        assert(numbers_of(s) =~= numbers_of(s) + error::floats_among(values));
    } else {
        lemma_floats_push(values);
        if values.len() == 1 {
            lemma_register_numbers(s, 0, values[0]);
            assert(values =~= seq![values[0]]);
        } else {
            let before = s.registers(values.drop_last());
            lemma_registers_numbers(s, values.drop_last());
            lemma_register_numbers(
                before.text(" "@),
                (values.len() - 1) as nat,
                values.last(),
            );
            assert(numbers_of(before.text(" "@)) == numbers_of(before));
            assert(numbers_of(s.registers(values)) =~= numbers_of(s) + error::floats_among(
                values,
            ));
        }
    }
}

/// The numbers that a message leaves to be written out are those that it asks the texts of, in
/// the same order.
pub proof fn a_message_asks_for_the_numbers_in_it(message: MessageView)
    ensures
        numbers_of(error::spelled(message)) == error::floats_in(message),
    decreases message.len(),
{
    if message.len() == 0 {
        assert(numbers_of(error::spelled(message)) =~= Seq::empty());
    } else {
        a_message_asks_for_the_numbers_in_it(message.drop_last());
        let before = error::spelled(message.drop_last());
        match message.last() {
            PieceView::Text(_) => {},
            PieceView::Debug(v) => lemma_value_numbers(before, v),
            PieceView::List(values) => lemma_list_numbers(before.text("["@), values),
            PieceView::Registers(values) => lemma_registers_numbers(before, values),
        }
    }
}

// What does not count.

/// It does not count where the text of a message is cut into pieces.
pub proof fn a_text_may_be_cut_anywhere(
    message: MessageView,
    head: Seq<char>,
    tail: Seq<char>,
)
    ensures
        error::spelled(message.push(PieceView::Text(head)).push(PieceView::Text(tail)))
            == error::spelled(message.push(PieceView::Text(head + tail))),
{
    let cut = message.push(PieceView::Text(head));
    assert(cut.drop_last() =~= message);
    assert(cut.push(PieceView::Text(tail)).drop_last() =~= cut);
    assert(message.push(PieceView::Text(head + tail)).drop_last() =~= message);
    reveal_with_fuel(error::spelled, 3);
    let before = error::spelled(message);
    assert(before.text(head).text(tail).tail =~= before.text(head + tail).tail);
    assert(error::spelled(cut) == before.text(head));
}

/// A value that ends a message reads there as it is shown.
pub proof fn a_value_reads_as_it_is_shown(
    message: MessageView,
    v: ValueView,
    texts: FloatTextsView,
)
    ensures
        error::message_text(message.push(PieceView::Debug(v)), texts) == error::message_text(
            message,
            texts,
        ) + error::shown(v, error::text_of(texts, v)),
{
    assert(message.push(PieceView::Debug(v)).drop_last() =~= message);
    let before = error::spelled(message);
    let after = before.value(v);
    if error::is_floating(v) {
        assert(after.runs.drop_last() =~= before.runs);
    }
    assert(spelling::spelling_text(after, texts) =~= spelling::spelling_text(before, texts)
        + error::shown(v, error::text_of(texts, v)));
}

/// Every error equals itself, two errors are equal both ways, and two that equal a third are
/// equal. So it is with NaN in a message too.
pub proof fn equality_of_errors_is_an_equivalence(a: ErrorView, b: ErrorView, c: ErrorView)
    ensures
        error::same_error(a, a),
        error::same_error(a, b) == error::same_error(b, a),
        error::same_error(a, b) && error::same_error(b, c) ==> error::same_error(a, c),
{
    let (p, q) = (error::spelled(a.message), error::spelled(b.message));
    if error::same_error(a, b) {
        assert(error::same_error(b, a)) by {
            assert forall|i: int| 0 <= i < q.runs.len() implies (#[trigger] q.runs[i]).0
                == p.runs[i].0 && spelling::same_number(q.runs[i].1, p.runs[i].1) by {
                assert(p.runs[i].0 == q.runs[i].0);
            }
        }
    }
    if error::same_error(b, a) {
        assert(error::same_error(a, b)) by {
            assert forall|i: int| 0 <= i < p.runs.len() implies (#[trigger] p.runs[i]).0
                == q.runs[i].0 && spelling::same_number(p.runs[i].1, q.runs[i].1) by {
                assert(q.runs[i].0 == p.runs[i].0);
            }
        }
    }
    if error::same_error(a, b) && error::same_error(b, c) {
        let r = error::spelled(c.message);
        assert forall|i: int| 0 <= i < p.runs.len() implies (#[trigger] p.runs[i]).0
            == r.runs[i].0 && spelling::same_number(p.runs[i].1, r.runs[i].1) by {
            assert(q.runs[i].0 == r.runs[i].0);
        }
    }
}

// Equal errors, and errors that read alike.

/// Whether numbers have the same text exactly if they are written alike, and no text of one
/// holds a bracket.
pub open spec fn written_apart(numbers: Seq<ValueView>, texts: FloatTextsView) -> bool {
    &&& forall|i: int, j: int|
        #![trigger numbers[i], numbers[j]]
        0 <= i < numbers.len() && 0 <= j < numbers.len() ==> (error::text_of(texts, numbers[i])
            == error::text_of(texts, numbers[j]) <==> spelling::same_number(
            numbers[i],
            numbers[j],
        ))
    &&& forall|i: int|
        0 <= i < numbers.len() ==> !error::text_of(texts, #[trigger] numbers[i]).contains(')')
}

/// Whether two spellings have as many numbers, with text of the same lengths before them.
pub open spec fn same_places(a: SpellingView, b: SpellingView) -> bool {
    &&& a.runs.len() == b.runs.len()
    &&& forall|i: int|
        0 <= i < a.runs.len() ==> (#[trigger] a.runs[i]).0.len() == b.runs[i].0.len()
}

spec fn bracketed(s: Seq<char>) -> bool {
    s.len() > 0 && s[0] == ')'
}

/// Whether a bracket stands behind every number.
spec fn closed(s: SpellingView) -> bool {
    &&& forall|i: int| 0 < i < s.runs.len() ==> bracketed((#[trigger] s.runs[i]).0)
    &&& s.runs.len() > 0 ==> bracketed(s.tail)
}

proof fn lemma_value_closed(s: SpellingView, v: ValueView)
    requires
        closed(s),
    ensures
        closed(s.value(v)),
{
    reveal_strlit(")");
    assert(")"@[0] == ')');
    let open = match v {
        ValueView::Float(_) => s.text("Float("@),
        _ => s.text("Double("@),
    };
    assert(closed(open));
    let after = s.value(v);
    if error::is_floating(v) {
        assert forall|i: int| 0 < i < after.runs.len() implies bracketed(
            (#[trigger] after.runs[i]).0,
        ) by {
            if i < s.runs.len() {
                assert(after.runs[i] == s.runs[i]);
            } else {
                assert(after.runs[i].0 == open.tail);
            }
        }
        assert(after.tail =~= ")"@);
    }
}

proof fn lemma_text_closed(s: SpellingView, t: Seq<char>)
    requires
        closed(s),
    ensures
        closed(s.text(t)),
{
}

proof fn lemma_list_closed(s: SpellingView, values: Seq<ValueView>)
    requires
        closed(s),
    ensures
        closed(s.list(values)),
    decreases values.len(),
{
    if values.len() == 1 {
        lemma_value_closed(s, values[0]);
    } else if values.len() > 1 {
        lemma_list_closed(s, values.drop_last());
        lemma_text_closed(s.list(values.drop_last()), ", "@);
        lemma_value_closed(s.list(values.drop_last()).text(", "@), values.last());
    }
}

proof fn lemma_register_closed(s: SpellingView, index: nat, v: ValueView)
    requires
        closed(s),
    ensures
        closed(s.register(index, v)),
{
    let head = "r"@ + crate::text::decimal(index as int) + "=0x"@ + crate::text::digits(
        error::bits(v) as nat,
        16,
    ) + "("@;
    lemma_text_closed(s, head);
    lemma_value_closed(s.text(head), v);
    lemma_text_closed(s.text(head).value(v), ")"@);
}

proof fn lemma_registers_closed(s: SpellingView, values: Seq<ValueView>)
    requires
        closed(s),
    ensures
        closed(s.registers(values)),
    decreases values.len(),
{
    if values.len() == 1 {
        lemma_register_closed(s, 0, values[0]);
    } else if values.len() > 1 {
        let before = s.registers(values.drop_last());
        lemma_registers_closed(s, values.drop_last());
        lemma_text_closed(before, " "@);
        lemma_register_closed(before.text(" "@), (values.len() - 1) as nat, values.last());
    }
}

proof fn lemma_message_closed(message: MessageView)
    ensures
        closed(error::spelled(message)),
    decreases message.len(),
{
    if message.len() > 0 {
        lemma_message_closed(message.drop_last());
        let before = error::spelled(message.drop_last());
        match message.last() {
            PieceView::Text(t) => lemma_text_closed(before, t),
            PieceView::Debug(v) => lemma_value_closed(before, v),
            PieceView::List(values) => {
                lemma_text_closed(before, "["@);
                lemma_list_closed(before.text("["@), values);
                lemma_text_closed(before.text("["@).list(values), "]"@);
            },
            PieceView::Registers(values) => lemma_registers_closed(before, values),
        }
    }
}

proof fn lemma_first_run(runs: Seq<(Seq<char>, ValueView)>, texts: FloatTextsView)
    requires
        runs.len() > 0,
    ensures
        spelling::runs_text(runs, texts) == runs[0].0 + (error::text_of(texts, runs[0].1)
            + spelling::runs_text(runs.skip(1), texts)),
    decreases runs.len(),
{
    if runs.len() == 1 {
        assert(spelling::runs_text(runs.drop_last(), texts) =~= Seq::empty());
        assert(spelling::runs_text(runs.skip(1), texts) =~= Seq::empty());
        assert(spelling::runs_text(runs, texts) =~= runs[0].0 + (error::text_of(
            texts,
            runs[0].1,
        ) + spelling::runs_text(runs.skip(1), texts)));
    } else {
        lemma_first_run(runs.drop_last(), texts);
        assert(runs.drop_last().skip(1) =~= runs.skip(1).drop_last());
        assert(runs.skip(1).last() == runs.last());
        assert(runs.drop_last()[0] == runs[0]);
        let (m, l) = (error::text_of(texts, runs[0].1), runs.last());
        let middle = spelling::runs_text(runs.skip(1).drop_last(), texts);
        assert(spelling::runs_text(runs.skip(1), texts) == middle + l.0 + error::text_of(
            texts,
            l.1,
        ));
        assert(spelling::runs_text(runs, texts) == runs[0].0 + (m + middle) + l.0
            + error::text_of(texts, l.1));
        assert(spelling::runs_text(runs, texts) =~= runs[0].0 + (error::text_of(
            texts,
            runs[0].1,
        ) + spelling::runs_text(runs.skip(1), texts)));
    }
}

/// Text of the same length in front can be taken off on both sides.
proof fn lemma_take_off(a: Seq<char>, p: Seq<char>, b: Seq<char>, q: Seq<char>)
    requires
        a + p == b + q,
        a.len() == b.len(),
    ensures
        a == b,
        p == q,
{
    assert forall|i: int| 0 <= i < a.len() implies a[i] == b[i] by {
        assert((a + p)[i] == a[i] && (b + q)[i] == b[i]);
    }
    assert((a + p).len() == a.len() + p.len() && (b + q).len() == b.len() + q.len());
    assert forall|i: int| 0 <= i < p.len() implies p[i] == q[i] by {
        assert((a + p)[a.len() + i] == p[i] && (b + q)[a.len() + i] == q[i]);
    }
    assert(a =~= b);
    assert(p =~= q);
}

/// Text without a bracket can be taken off in front of one.
proof fn lemma_up_to_bracket(a: Seq<char>, p: Seq<char>, b: Seq<char>, q: Seq<char>)
    requires
        a + p == b + q,
        !a.contains(')'),
        !b.contains(')'),
        bracketed(p),
        bracketed(q),
    ensures
        a == b,
        p == q,
{
    if a.len() < b.len() {
        assert((a + p)[a.len() as int] == p[0]);
        assert((b + q)[a.len() as int] == b[a.len() as int]);
    } else if b.len() < a.len() {
        assert((b + q)[b.len() as int] == q[0]);
        assert((a + p)[b.len() as int] == a[b.len() as int]);
    }
    lemma_take_off(a, p, b, q);
}

proof fn lemma_read_alike(a: SpellingView, b: SpellingView, texts: FloatTextsView)
    requires
        closed(a),
        closed(b),
        same_places(a, b),
        forall|i: int|
            0 <= i < a.runs.len() ==> !error::text_of(texts, (#[trigger] a.runs[i]).1).contains(
                ')',
            ) && !error::text_of(texts, b.runs[i].1).contains(')'),
        spelling::spelling_text(a, texts) == spelling::spelling_text(b, texts),
    ensures
        a.tail == b.tail,
        forall|i: int|
            0 <= i < a.runs.len() ==> (#[trigger] a.runs[i]).0 == b.runs[i].0 && error::text_of(
                texts,
                a.runs[i].1,
            ) == error::text_of(texts, b.runs[i].1),
    decreases a.runs.len(),
{
    if a.runs.len() == 0 {
        assert(spelling::spelling_text(a, texts) =~= a.tail);
        assert(spelling::spelling_text(b, texts) =~= b.tail);
    } else {
        let c = SpellingView { runs: a.runs.skip(1), ..a };
        let d = SpellingView { runs: b.runs.skip(1), ..b };
        lemma_first_run(a.runs, texts);
        lemma_first_run(b.runs, texts);
        let (x, y) = (a.runs[0], b.runs[0]);
        let (m, n) = (error::text_of(texts, x.1), error::text_of(texts, y.1));
        let (p, q) = (spelling::spelling_text(c, texts), spelling::spelling_text(d, texts));
        assert(spelling::spelling_text(a, texts) =~= x.0 + (m + p));
        assert(spelling::spelling_text(b, texts) =~= y.0 + (n + q));
        lemma_take_off(x.0, m + p, y.0, n + q);
        lemma_bracketed(c, texts, a);
        lemma_bracketed(d, texts, b);
        lemma_up_to_bracket(m, p, n, q);
        assert forall|i: int| 0 <= i < c.runs.len() implies (#[trigger] c.runs[i]).0.len()
            == d.runs[i].0.len() && !error::text_of(texts, c.runs[i].1).contains(')')
            && !error::text_of(texts, d.runs[i].1).contains(')') by {
            assert(c.runs[i] == a.runs[i + 1] && d.runs[i] == b.runs[i + 1]);
        }
        lemma_read_alike(c, d, texts);
        assert forall|i: int| 0 <= i < a.runs.len() implies (#[trigger] a.runs[i]).0
            == b.runs[i].0 && error::text_of(texts, a.runs[i].1) == error::text_of(
            texts,
            b.runs[i].1,
        ) by {
            if i > 0 {
                assert(c.runs[i - 1] == a.runs[i] && d.runs[i - 1] == b.runs[i]);
            }
        }
    }
}

/// Without its first number, a spelling goes on with a bracket.
proof fn lemma_bracketed(rest: SpellingView, texts: FloatTextsView, whole: SpellingView)
    requires
        whole.runs.len() > 0,
        closed(whole),
        rest == (SpellingView { runs: whole.runs.skip(1), ..whole }),
    ensures
        closed(rest),
        bracketed(spelling::spelling_text(rest, texts)),
{
    assert forall|i: int| 0 < i < rest.runs.len() implies bracketed(
        (#[trigger] rest.runs[i]).0,
    ) by {
        assert(rest.runs[i] == whole.runs[i + 1]);
    }
    if rest.runs.len() == 0 {
        assert(spelling::spelling_text(rest, texts) =~= rest.tail);
    } else {
        assert(rest.runs[0] == whole.runs[1]);
        lemma_first_run(rest.runs, texts);
    }
}

proof fn lemma_equal_reads_alike(
    a: Seq<(Seq<char>, ValueView)>,
    b: Seq<(Seq<char>, ValueView)>,
    texts: FloatTextsView,
)
    requires
        a.len() == b.len(),
        forall|i: int|
            0 <= i < a.len() ==> (#[trigger] a[i]).0 == b[i].0 && error::text_of(texts, a[i].1)
                == error::text_of(texts, b[i].1),
    ensures
        spelling::runs_text(a, texts) == spelling::runs_text(b, texts),
    decreases a.len(),
{
    if a.len() > 0 {
        assert forall|i: int| 0 <= i < a.len() - 1 implies (#[trigger] a.drop_last()[i]).0
            == b.drop_last()[i].0 && error::text_of(texts, a.drop_last()[i].1)
            == error::text_of(texts, b.drop_last()[i].1) by {
            assert(a[i].0 == b[i].0);
        }
        lemma_equal_reads_alike(a.drop_last(), b.drop_last(), texts);
        assert(a[a.len() - 1].0 == b[a.len() - 1].0);
    }
}

/// Errors that are equal read alike, given texts that are the same for numbers that are written
/// alike.
pub proof fn equal_errors_read_alike(a: ErrorView, b: ErrorView, texts: FloatTextsView)
    requires
        error::same_error(a, b),
        forall|v: ValueView, w: ValueView|
            error::floats_in(a.message).contains(v) && error::floats_in(b.message).contains(w)
                && #[trigger] spelling::same_number(v, w) ==> error::text_of(texts, v)
                == error::text_of(texts, w),
    ensures
        error::error_text(a, texts) == error::error_text(b, texts),
{
    let (p, q) = (error::spelled(a.message), error::spelled(b.message));
    a_message_asks_for_the_numbers_in_it(a.message);
    a_message_asks_for_the_numbers_in_it(b.message);
    assert forall|i: int| 0 <= i < p.runs.len() implies (#[trigger] p.runs[i]).0 == q.runs[i].0
        && error::text_of(texts, p.runs[i].1) == error::text_of(texts, q.runs[i].1) by {
        assert(numbers_of(p)[i] == p.runs[i].1);
        assert(numbers_of(q)[i] == q.runs[i].1);
        assert(error::floats_in(a.message).contains(p.runs[i].1));
        assert(error::floats_in(b.message).contains(q.runs[i].1));
        assert(spelling::same_number(p.runs[i].1, q.runs[i].1));
    }
    lemma_equal_reads_alike(p.runs, q.runs, texts);
}

/// Errors of the same instruction that read alike are equal, given texts that tell numbers
/// apart, where the messages have their numbers at the same places. Those without numbers do.
pub proof fn errors_that_read_alike_are_equal(a: ErrorView, b: ErrorView, texts: FloatTextsView)
    requires
        a.pc == b.pc,
        a.opcode == b.opcode,
        error::message_text(a.message, texts) == error::message_text(b.message, texts),
        written_apart(error::floats_in(a.message) + error::floats_in(b.message), texts),
        same_places(error::spelled(a.message), error::spelled(b.message)),
    ensures
        error::same_error(a, b),
{
    let (p, q) = (error::spelled(a.message), error::spelled(b.message));
    lemma_numbers_apart(a.message, b.message, p, q, texts);
    lemma_message_closed(a.message);
    lemma_message_closed(b.message);
    lemma_read_alike(p, q, texts);
    assert forall|i: int| 0 <= i < p.runs.len() implies (#[trigger] p.runs[i]).0 == q.runs[i].0
        && spelling::same_number(p.runs[i].1, q.runs[i].1) by {
        assert(error::text_of(texts, p.runs[i].1) == error::text_of(texts, q.runs[i].1));
    }
}

/// Whether the texts of two numbers hold no bracket, and are the same exactly if the numbers are
/// written alike.
spec fn told_apart(v: ValueView, w: ValueView, texts: FloatTextsView) -> bool {
    &&& !error::text_of(texts, v).contains(')')
    &&& !error::text_of(texts, w).contains(')')
    &&& (error::text_of(texts, v) == error::text_of(texts, w)) == spelling::same_number(v, w)
}

proof fn lemma_numbers_apart(
    a: MessageView,
    b: MessageView,
    p: SpellingView,
    q: SpellingView,
    texts: FloatTextsView,
)
    requires
        p == error::spelled(a),
        q == error::spelled(b),
        p.runs.len() == q.runs.len(),
        written_apart(error::floats_in(a) + error::floats_in(b), texts),
    ensures
        forall|i: int|
            0 <= i < p.runs.len() ==> told_apart((#[trigger] p.runs[i]).1, q.runs[i].1, texts),
{
    a_message_asks_for_the_numbers_in_it(a);
    a_message_asks_for_the_numbers_in_it(b);
    let all = error::floats_in(a) + error::floats_in(b);
    assert forall|i: int| 0 <= i < p.runs.len() implies told_apart(
        (#[trigger] p.runs[i]).1,
        q.runs[i].1,
        texts,
    ) by {
        assert(numbers_of(p)[i] == p.runs[i].1);
        assert(numbers_of(q)[i] == q.runs[i].1);
        assert(all[i] == p.runs[i].1);
        assert(all[p.runs.len() + i] == q.runs[i].1);
    }
}

/// Messages without numbers are equal exactly if they read alike.
pub proof fn messages_without_numbers_are_equal_as_they_read(
    a: MessageView,
    b: MessageView,
    texts: FloatTextsView,
)
    requires
        error::floats_in(a).len() == 0,
        error::floats_in(b).len() == 0,
    ensures
        error::same_message(a, b) == (error::message_text(a, texts) == error::message_text(
            b,
            texts,
        )),
{
    a_message_asks_for_the_numbers_in_it(a);
    a_message_asks_for_the_numbers_in_it(b);
    let (p, q) = (error::spelled(a), error::spelled(b));
    assert(numbers_of(p).len() == p.runs.len() && numbers_of(q).len() == q.runs.len());
    assert(spelling::spelling_text(p, texts) =~= p.tail);
    assert(spelling::spelling_text(q, texts) =~= q.tail);
}

} // verus!
