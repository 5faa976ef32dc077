//! Texts: searching, cutting and writing them, and the methods of strings.

use vstd::prelude::*;
use vstd::utf8::encode_utf8;

use crate::error::ErrorView;
use crate::framework::objects;
use crate::framework::strings;
use crate::framework::system;
use crate::host::AnswerView;
use crate::text;
use crate::value::{ObjectId, ObjectView, ValueView};
use crate::world::WorldView;

verus! {

// Searching.

/// Whether a text stands in another from a place on: what is before it, the text, and what is
/// behind it make up the whole.
pub open spec fn stands_at(s: Seq<char>, p: Seq<char>, at: int) -> bool {
    &&& 0 <= at
    &&& at + p.len() <= s.len()
    &&& s == s.take(at) + p + s.skip(at + p.len())
}

proof fn lemma_stands(s: Seq<char>, p: Seq<char>, at: int)
    ensures
        text::matches_at(s, p, at) == stands_at(s, p, at),
{
    if 0 <= at && at + p.len() <= s.len() {
        if s.subrange(at, at + p.len()) == p {
            assert(s =~= s.take(at) + p + s.skip(at + p.len()));
        }
        if stands_at(s, p, at) {
            assert(s.subrange(at, at + p.len()) =~= p) by {
                assert forall|i: int| 0 <= i < p.len() implies s[at + i] == p[i] by {
                    assert((s.take(at) + p + s.skip(at + p.len()))[at + i] == p[i]);
                }
            }
        }
    }
}

proof fn lemma_first(s: Seq<char>, p: Seq<char>, from: nat)
    ensures
        match text::first_match(s, p, from) {
            Some(i) => from <= i && stands_at(s, p, i as int) && forall|j: int|
                from <= j < i ==> !#[trigger] stands_at(s, p, j),
            None => forall|j: int| from <= j ==> !#[trigger] stands_at(s, p, j),
        },
    decreases s.len() + 1 - from,
{
    if from + p.len() <= s.len() {
        lemma_stands(s, p, from as int);
        if !text::matches_at(s, p, from as int) {
            lemma_first(s, p, from + 1);
        }
    }
}

/// A text starts with another where that one stands at its start, ends with it where it stands at
/// its end, and contains it where it stands anywhere. The first place is the least.
pub proof fn a_text_is_found_where_it_stands(s: Seq<char>, p: Seq<char>)
    ensures
        text::starts(s, p) <==> stands_at(s, p, 0),
        text::ends(s, p) <==> stands_at(s, p, s.len() - p.len()),
        text::contains(s, p) <==> exists|i: int| #[trigger] stands_at(s, p, i),
        match text::first_match(s, p, 0) {
            Some(i) => stands_at(s, p, i as int) && forall|j: int|
                j < i ==> !#[trigger] stands_at(s, p, j),
            None => forall|j: int| !#[trigger] stands_at(s, p, j),
        },
{
    lemma_stands(s, p, 0);
    lemma_stands(s, p, s.len() - p.len());
    lemma_first(s, p, 0);
}

/// Texts with another one between each two of them.
pub open spec fn joined(parts: Seq<Seq<char>>, separator: Seq<char>) -> Seq<char>
    decreases parts.len(),
{
    if parts.len() == 0 {
        Seq::empty()
    } else if parts.len() == 1 {
        parts[0]
    } else {
        parts[0] + separator + joined(parts.skip(1), separator)
    }
}

/// The parts that a text is split into are joined to it again, and none of them contains the
/// separator.
pub proof fn the_parts_of_a_text_make_it_up(s: Seq<char>, separator: Seq<char>)
    requires
        separator.len() > 0,
    ensures
        joined(text::split(s, separator), separator) == s,
        text::split(s, separator).len() > 0,
        forall|i: int|
            0 <= i < text::split(s, separator).len() ==> !text::contains(
                #[trigger] text::split(s, separator)[i],
                separator,
            ),
    decreases s.len(),
{
    let parts = text::split(s, separator);
    lemma_first(s, separator, 0);
    match text::first_match(s, separator, 0) {
        Some(i) => {
            let rest = s.skip((i + separator.len()) as int);
            the_parts_of_a_text_make_it_up(rest, separator);
            let tail = text::split(rest, separator);
            assert(parts.skip(1) =~= tail);
            assert(parts[0] == s.take(i as int));
            assert(joined(parts, separator) =~= s);
            let head = s.take(i as int);
            assert(!text::contains(head, separator)) by {
                lemma_first(head, separator, 0);
                if text::contains(head, separator) {
                    let j = text::first_match(head, separator, 0)->0;
                    assert(stands_at(s, separator, j as int)) by {
                        assert(s =~= s.take(j as int) + separator + s.skip(
                            (j + separator.len()) as int,
                        )) by {
                            assert(head.take(j as int) =~= s.take(j as int));
                            assert forall|k: int| 0 <= k < separator.len() implies s[j + k]
                                == separator[k] by {
                                assert(head[j + k] == (head.take(j as int) + separator
                                    + head.skip((j + separator.len()) as int))[j + k]);
                            }
                        }
                    }
                }
            }
            assert forall|k: int| 0 <= k < parts.len() implies !text::contains(
                #[trigger] parts[k],
                separator,
            ) by {
                if k > 0 {
                    assert(parts[k] == tail[k - 1]);
                }
            }
        },
        None => {
            assert(parts =~= seq![s]);
        },
    }
}

/// A text without a separator is split into its characters.
pub proof fn a_text_is_its_characters(s: Seq<char>)
    ensures
        text::singles(s).len() == s.len(),
        forall|i: int|
            0 <= i < s.len() ==> #[trigger] text::singles(s)[i] == seq![s[i]],
{
}

/// Two texts are equal but for their case where each pair of characters is the same, or the same
/// letter of the alphabet in either case.
pub proof fn case_is_ignored_letter_by_letter(s: Seq<char>, t: Seq<char>)
    ensures
        text::lower_all(s) == text::lower_all(t) <==> s.len() == t.len() && forall|i: int|
            0 <= i < s.len() ==> same_letter(#[trigger] s[i], t[i]),
{
    if text::lower_all(s) == text::lower_all(t) {
        assert(text::lower_all(s).len() == s.len() && text::lower_all(t).len() == t.len());
        assert forall|i: int| 0 <= i < s.len() implies same_letter(#[trigger] s[i], t[i]) by {
            assert(text::lower_all(s)[i] == text::lower(s[i]));
            assert(text::lower_all(t)[i] == text::lower(t[i]));
        }
    }
    if s.len() == t.len() && (forall|i: int|
        0 <= i < s.len() ==> same_letter(#[trigger] s[i], t[i])) {
        assert(text::lower_all(s) =~= text::lower_all(t)) by {
            assert forall|i: int| 0 <= i < s.len() implies text::lower(#[trigger] s[i])
                == text::lower(t[i]) by {
                assert(same_letter(s[i], t[i]));
            }
        }
    }
}

/// Whether two characters are the same, or a capital letter and its small one.
pub open spec fn same_letter(a: char, b: char) -> bool {
    ||| a == b
    ||| 'A' <= a <= 'Z' && b as int == a as int + 32
    ||| 'A' <= b <= 'Z' && a as int == b as int + 32
}

// Numbers.

/// What a character is worth as a digit.
pub open spec fn digit_worth(c: char) -> int {
    if '0' <= c <= '9' {
        c as int - 48
    } else {
        c as int - 87
    }
}

/// What digits are worth in a base.
pub open spec fn digits_worth(s: Seq<char>, base: int) -> int
    decreases s.len(),
{
    if s.len() == 0 {
        0
    } else {
        digits_worth(s.drop_last(), base) * base + digit_worth(s.last())
    }
}

/// The digits of a number are worth the number, and the first one is no zero but for zero itself.
pub proof fn digits_write_their_number(n: nat, base: nat)
    requires
        2 <= base <= 16,
    ensures
        digits_worth(text::digits(n, base), base as int) == n,
        text::digits(n, base).len() > 0,
        n > 0 ==> text::digits(n, base)[0] != '0',
        n == 0 ==> text::digits(n, base) == seq!['0'],
        forall|i: int|
            0 <= i < text::digits(n, base).len() ==> 0 <= digit_worth(
                #[trigger] text::digits(n, base)[i],
            ) < base,
    decreases n,
{
    let s = text::digits(n, base);
    assert forall|d: int| 0 <= d < base implies digit_worth(#[trigger] text::digit(d)) == d by {};
    if n < base {
        assert(s.drop_last() =~= Seq::<char>::empty());
        assert(digits_worth(s.drop_last(), base as int) == 0);
        assert(0 * base == 0) by (nonlinear_arith);
        assert(s[0] == text::digit(n as int));
    } else {
        assert(n / base < n) by (nonlinear_arith)
            requires
                n >= base,
                base >= 2,
        ;
        assert(n / base > 0) by (nonlinear_arith)
            requires
                n >= base,
                base >= 2,
        ;
        digits_write_their_number(n / base, base);
        let t = text::digits(n / base, base);
        assert(s.drop_last() =~= t);
        vstd::arithmetic::div_mod::lemma_fundamental_div_mod(n as int, base as int);
        vstd::arithmetic::div_mod::lemma_mod_bound(n as int, base as int);
        assert((n / base) * base + n % base == n) by (nonlinear_arith)
            requires
                n == base * (n / base) + n % base,
        ;
        assert(s.last() == text::digit((n % base) as int));
        assert(s[0] == t[0]);
        assert forall|i: int| 0 <= i < s.len() implies 0 <= digit_worth(#[trigger] s[i])
            < base by {
            if i < t.len() {
                assert(s[i] == t[i]);
            }
        }
    }
}

/// An integer is written as its digits, behind a minus where it is negative.
pub proof fn an_integer_is_written_with_its_sign(n: int)
    ensures
        n >= 0 ==> digits_worth(text::decimal(n), 10) == n,
        n < 0 ==> text::decimal(n)[0] == '-' && digits_worth(text::decimal(n).skip(1), 10) == -n,
{
    if n < 0 {
        digits_write_their_number((-n) as nat, 10);
        assert(text::decimal(n).skip(1) =~= text::digits((-n) as nat, 10));
    } else {
        digits_write_their_number(n as nat, 10);
    }
}

/// Zeros in front of a text bring it to a width, and not beyond.
pub proof fn padding_adds_zeros_in_front(s: Seq<char>, width: nat)
    ensures
        s.len() >= width ==> text::padded(s, width) == s,
        s.len() < width ==> text::padded(s, width).len() == width && text::padded(s, width).skip(
            width - s.len(),
        ) == s && forall|i: int|
            0 <= i < width - s.len() ==> #[trigger] text::padded(s, width)[i] == '0',
    decreases width - s.len(),
{
    if s.len() < width {
        let longer = seq!['0'] + s;
        padding_adds_zeros_in_front(longer, width);
        let p = text::padded(longer, width);
        if longer.len() < width {
            assert(p.skip(width - longer.len()) =~= longer);
            assert(p.skip(width - s.len()) =~= s) by {
                assert forall|i: int| 0 <= i < s.len() implies p[width - s.len() + i] == s[i] by {
                    assert(p.skip(width - longer.len())[i + 1] == longer[i + 1]);
                }
            }
            assert(p.skip(width - longer.len())[0] == '0');
        } else {
            assert(p =~= longer);
            assert(longer.skip(1) =~= s);
        }
    }
}

// Strings.

/// These names are different.
proof fn lemma_string_methods()
    ensures
        "length"@ != "valueOf"@,
        "toString"@ != "valueOf"@,
        "toString"@ != "length"@,
        "charAt"@ != "valueOf"@,
        "charAt"@ != "length"@,
        "charAt"@ != "toString"@,
        "concat"@ != "valueOf"@,
        "concat"@ != "length"@,
        "concat"@ != "toString"@,
        "concat"@ != "charAt"@,
        "equals"@ != "valueOf"@,
        "equals"@ != "length"@,
        "equals"@ != "toString"@,
        "equals"@ != "charAt"@,
        "equals"@ != "concat"@,
        "equalsIgnoreCase"@ != "valueOf"@,
        "equalsIgnoreCase"@ != "length"@,
        "equalsIgnoreCase"@ != "toString"@,
        "equalsIgnoreCase"@ != "charAt"@,
        "equalsIgnoreCase"@ != "concat"@,
        "equalsIgnoreCase"@ != "equals"@,
        "startsWith"@ != "valueOf"@,
        "startsWith"@ != "length"@,
        "startsWith"@ != "toString"@,
        "startsWith"@ != "charAt"@,
        "startsWith"@ != "concat"@,
        "startsWith"@ != "equals"@,
        "startsWith"@ != "equalsIgnoreCase"@,
        "endsWith"@ != "valueOf"@,
        "endsWith"@ != "length"@,
        "endsWith"@ != "toString"@,
        "endsWith"@ != "charAt"@,
        "endsWith"@ != "concat"@,
        "endsWith"@ != "equals"@,
        "endsWith"@ != "equalsIgnoreCase"@,
        "endsWith"@ != "startsWith"@,
        "contains"@ != "valueOf"@,
        "contains"@ != "length"@,
        "contains"@ != "toString"@,
        "contains"@ != "charAt"@,
        "contains"@ != "concat"@,
        "contains"@ != "equals"@,
        "contains"@ != "equalsIgnoreCase"@,
        "contains"@ != "startsWith"@,
        "contains"@ != "endsWith"@,
        "split"@ != "valueOf"@,
        "split"@ != "length"@,
        "split"@ != "toString"@,
        "split"@ != "charAt"@,
        "split"@ != "concat"@,
        "split"@ != "equals"@,
        "split"@ != "equalsIgnoreCase"@,
        "split"@ != "startsWith"@,
        "split"@ != "endsWith"@,
        "split"@ != "contains"@,
        "indexOf"@ != "valueOf"@,
        "indexOf"@ != "length"@,
        "indexOf"@ != "toString"@,
        "indexOf"@ != "charAt"@,
        "indexOf"@ != "concat"@,
        "indexOf"@ != "equals"@,
        "indexOf"@ != "equalsIgnoreCase"@,
        "indexOf"@ != "startsWith"@,
        "indexOf"@ != "endsWith"@,
        "indexOf"@ != "contains"@,
        "indexOf"@ != "split"@,
{
    reveal_strlit("valueOf");
    reveal_strlit("length");
    reveal_strlit("toString");
    reveal_strlit("charAt");
    reveal_strlit("concat");
    reveal_strlit("equals");
    reveal_strlit("equalsIgnoreCase");
    reveal_strlit("startsWith");
    reveal_strlit("endsWith");
    reveal_strlit("contains");
    reveal_strlit("split");
    reveal_strlit("indexOf");
    assert("valueOf"@.len() == 7);
    assert("length"@.len() == 6);
    assert("toString"@.len() == 8);
    assert("charAt"@.len() == 6);
    assert("concat"@.len() == 6);
    assert("equals"@.len() == 6);
    assert("equalsIgnoreCase"@.len() == 16);
    assert("startsWith"@.len() == 10);
    assert("endsWith"@.len() == 8);
    assert("contains"@.len() == 8);
    assert("split"@.len() == 5);
    assert("indexOf"@.len() == 7);
    assert("charAt"@[0] == 'c' && "length"@[0] == 'l');
    assert("concat"@[0] == 'c' && "length"@[0] == 'l');
    assert("concat"@[1] == 'o' && "charAt"@[1] == 'h');
    assert("equals"@[0] == 'e' && "length"@[0] == 'l');
    assert("equals"@[0] == 'e' && "charAt"@[0] == 'c');
    assert("equals"@[0] == 'e' && "concat"@[0] == 'c');
    assert("endsWith"@[0] == 'e' && "toString"@[0] == 't');
    assert("contains"@[0] == 'c' && "toString"@[0] == 't');
    assert("contains"@[0] == 'c' && "endsWith"@[0] == 'e');
    assert("indexOf"@[0] == 'i' && "valueOf"@[0] == 'v');
}

/// A string, or a value that is one.
pub open spec fn reads_as(w: WorldView, v: ValueView, s: Seq<char>) -> bool {
    match v {
        ValueView::String(t) => t == s,
        ValueView::Object(id) => w.object(id) == Some(ObjectView::String(s)) || w.object(id) == Some(
            ObjectView::StringBuilder(s),
        ),
        _ => false,
    }
}

proof fn lemma_read(w: WorldView, args: Seq<ValueView>, answers: Seq<AnswerView>, s: Seq<char>, t: Seq<char>)
    requires
        args.len() > 0,
        reads_as(w, args[0], s),
    ensures
        strings::first_text(w, args, answers) == s,
        args.len() > 1 && reads_as(w, args[1], t) ==> strings::second_text(w, args, answers) == t,
{
}

/// Whether a method gives a truth and changes nothing.
pub open spec fn tells(w: WorldView, r: (WorldView, Result<ValueView, ErrorView>), b: bool) -> bool {
    &&& r.0 == w
    &&& b ==> r.1 == Ok::<ValueView, ErrorView>(ValueView::Int(1))
    &&& !b ==> r.1 == Ok::<ValueView, ErrorView>(ValueView::Int(0))
}

/// Whether a method gives a new string, behind all objects that there were.
pub open spec fn gives_string(
    w: WorldView,
    r: (WorldView, Result<ValueView, ErrorView>),
    s: Seq<char>,
) -> bool {
    &&& r.1 == Ok::<ValueView, ErrorView>(ValueView::Object(w.heap.len() as ObjectId))
    &&& r.0.heap.len() == w.heap.len() + 1
    &&& r.0.heap.last() == ObjectView::String(s)
    &&& r.0.heap.drop_last() == w.heap
}

/// What the methods of a string say of its text and another one.
pub proof fn a_string_is_compared_with_another(
    w: WorldView,
    args: Seq<ValueView>,
    answers: Seq<AnswerView>,
    s: Seq<char>,
    t: Seq<char>,
)
    requires
        args.len() > 1,
        reads_as(w, args[0], s),
        reads_as(w, args[1], t),
    ensures
        tells(w, strings::string(w, "equals"@, args, answers), s == t),
        tells(w, strings::string(w, "startsWith"@, args, answers), stands_at(s, t, 0)),
        tells(w, strings::string(w, "endsWith"@, args, answers), stands_at(s, t, s.len() - t.len())),
        tells(
            w,
            strings::string(w, "contains"@, args, answers),
            exists|i: int| #[trigger] stands_at(s, t, i),
        ),
        tells(
            w,
            strings::string(w, "equalsIgnoreCase"@, args, answers),
            s.len() == t.len() && forall|i: int|
                0 <= i < s.len() ==> same_letter(#[trigger] s[i], t[i]),
        ),
        gives_string(w, strings::string(w, "concat"@, args, answers), s + t),
{
    lemma_string_methods();
    lemma_read(w, args, answers, s, t);
    a_text_is_found_where_it_stands(s, t);
    case_is_ignored_letter_by_letter(s, t);
    assert(w.heap.push(ObjectView::String(s + t)).drop_last() =~= w.heap);
}

/// The place of a text in a string is counted in bytes, and is -1 where it does not stand in it.
pub proof fn a_text_is_located_in_a_string(
    w: WorldView,
    args: Seq<ValueView>,
    answers: Seq<AnswerView>,
    s: Seq<char>,
    t: Seq<char>,
    at: int,
)
    requires
        args.len() > 1,
        reads_as(w, args[0], s),
        reads_as(w, args[1], t),
        forall|j: int| j < at ==> !#[trigger] stands_at(s, t, j),
        stands_at(s, t, at) || forall|j: int| !#[trigger] stands_at(s, t, j),
        encode_utf8(s.take(at)).len() <= i32::MAX,
    ensures
        ({
            let (after, r) = strings::string(w, "indexOf"@, args, answers);
            &&& after == w
            &&& r matches Ok(ValueView::Int(n)) && if stands_at(s, t, at) {
                n == encode_utf8(s.take(at)).len()
            } else {
                n == -1
            }
        }),
{
    lemma_string_methods();
    lemma_read(w, args, answers, s, t);
    a_text_is_found_where_it_stands(s, t);
    match text::first_match(s, t, 0) {
        Some(i) => {
            if stands_at(s, t, at) {
                if i < at {
                    assert(!stands_at(s, t, i as int));
                }
                assert(i == at);
            } else {
                assert(!stands_at(s, t, i as int));
            }
        },
        None => {},
    }
}

/// A string has as many characters as its text, and each of them where the text has it.
pub proof fn a_string_has_the_characters_of_its_text(
    w: WorldView,
    args: Seq<ValueView>,
    answers: Seq<AnswerView>,
    s: Seq<char>,
    index: i32,
)
    requires
        args.len() > 1,
        reads_as(w, args[0], s),
        args[1] == ValueView::Int(index),
        s.len() <= i32::MAX,
    ensures
        ({
            let (after, r) = strings::string(w, "length"@, args, answers);
            after == w && (r matches Ok(ValueView::Int(n)) && n == s.len())
        }),
        ({
            let (after, r) = strings::string(w, "charAt"@, args, answers);
            &&& after == w
            &&& r matches Ok(ValueView::Int(n)) && if 0 <= index < s.len() {
                n == s[index as int] as i32
            } else {
                n == 0
            }
        }),
        gives_string(w, strings::string(w, "valueOf"@, args, answers), s),
{
    lemma_string_methods();
    lemma_read(w, args, answers, s, Seq::empty());
    assert(w.heap.push(ObjectView::String(s)).drop_last() =~= w.heap);
}

proof fn lemma_strings_made(w: WorldView, texts: Seq<Seq<char>>)
    requires
        w.heap.len() + texts.len() <= u32::MAX,
    ensures
        ({
            let (after, values) = system::strings_made(w, texts);
            &&& values.len() == texts.len()
            &&& after.heap.len() == w.heap.len() + texts.len()
            &&& forall|i: int| 0 <= i < w.heap.len() ==> #[trigger] after.heap[i] == w.heap[i]
            &&& forall|i: int|
                0 <= i < texts.len() ==> (#[trigger] values[i] matches ValueView::Object(id)
                    && id == w.heap.len() + i) && after.heap[w.heap.len() + i]
                    == ObjectView::String(texts[i])
        }),
    decreases texts.len(),
{
    if texts.len() > 0 {
        lemma_strings_made(w, texts.drop_last());
    }
}

/// Splitting a string gives an array of new strings, in order: its parts, or its characters where
/// the separator is empty.
pub proof fn a_string_is_split_into_its_parts(
    w: WorldView,
    args: Seq<ValueView>,
    answers: Seq<AnswerView>,
    s: Seq<char>,
    t: Seq<char>,
)
    requires
        args.len() > 1,
        reads_as(w, args[0], s),
        reads_as(w, args[1], t),
        w.heap.len() + text::split(s, t).len() + s.len() < u32::MAX,
    ensures
        ({
            let parts = if t.len() == 0 {
                text::singles(s)
            } else {
                text::split(s, t)
            };
            let (after, r) = strings::string(w, "split"@, args, answers);
            &&& r matches Ok(ValueView::Object(id)) && id == after.heap.len() - 1
            &&& after.heap.last() matches ObjectView::Array { component, values } && component
                == "Ljava/lang/String;"@ && values.len() == parts.len() && forall|i: int|
                0 <= i < parts.len() ==> (#[trigger] values[i] matches ValueView::Object(id)
                    && after.object(id) == Some(ObjectView::String(parts[i])))
        }),
{
    lemma_string_methods();
    lemma_read(w, args, answers, s, t);
    let parts = if t.len() == 0 {
        text::singles(s)
    } else {
        text::split(s, t)
    };
    lemma_strings_made(w, parts);
    let (made, values) = system::strings_made(w, parts);
    let (after, r) = strings::string(w, "split"@, args, answers);
    assert forall|i: int| 0 <= i < parts.len() implies (#[trigger] values[i] matches ValueView::Object(
        id,
    ) && after.object(id) == Some(ObjectView::String(parts[i]))) by {
        assert(made.heap[w.heap.len() + i] == ObjectView::String(parts[i]));
        assert(after.heap[w.heap.len() + i] == made.heap[w.heap.len() + i]);
    }
}

/// These names are different.
proof fn lemma_builder_methods()
    ensures
        "toString"@ != "append"@,
        "length"@ != "append"@,
        "length"@ != "toString"@,
{
    reveal_strlit("append");
    reveal_strlit("toString");
    reveal_strlit("length");
    assert("append"@.len() == 6);
    assert("toString"@.len() == 8);
    assert("length"@.len() == 6);
    assert("length"@[0] == 'l' && "append"@[0] == 'a');
}

/// A builder takes texts, numbers and other strings behind what it has, and is as long as all of
/// them.
pub proof fn a_builder_grows_at_its_end(
    w: WorldView,
    builder: ObjectId,
    v: ValueView,
    answers: Seq<AnswerView>,
    s: Seq<char>,
)
    requires
        w.object(builder) == Some(ObjectView::StringBuilder(s)),
        v is String || v is Int || v is Long,
        s.len() < i32::MAX,
    ensures
        ({
            let args = seq![ValueView::Object(builder), v];
            let more = match v {
                ValueView::String(t) => t,
                ValueView::Int(n) => text::decimal(n as int),
                ValueView::Long(n) => text::decimal(n as int),
                _ => Seq::empty(),
            };
            let (after, r) = strings::builder(w, builder, "append"@, args, answers);
            &&& r == Ok::<ValueView, ErrorView>(ValueView::Object(builder))
            &&& after.object(builder) == Some(ObjectView::StringBuilder(s + more))
            &&& after.heap.len() == w.heap.len()
            &&& forall|i: int|
                0 <= i < w.heap.len() && i != builder ==> #[trigger] after.heap[i] == w.heap[i]
        }),
        ({
            let args = seq![ValueView::Object(builder), v];
            let (after, r) = strings::builder(w, builder, "length"@, args, answers);
            after == w && (r matches Ok(ValueView::Int(n)) && n == s.len())
        }),
{
    lemma_builder_methods();
    let args = seq![ValueView::Object(builder), v];
    assert(crate::value::at(args, 1) == Some(v));
}

/// A new builder has the text that it was made with, or none.
pub proof fn a_builder_starts_with_its_text(w: WorldView, builder: ObjectId, s: Seq<char>)
    requires
        builder < w.heap.len(),
    ensures
        objects::construct(
            w,
            "Ljava/lang/StringBuilder;"@,
            seq![ValueView::Object(builder), ValueView::String(s)],
        ).object(builder) == Some(ObjectView::StringBuilder(s)),
        objects::construct(
            w,
            "Ljava/lang/StringBuilder;"@,
            seq![ValueView::Object(builder)],
        ).object(builder) == Some(ObjectView::StringBuilder(Seq::empty())),
        objects::construct(
            w,
            "Ljava/util/ArrayList;"@,
            seq![ValueView::Object(builder)],
        ).object(builder) == Some(ObjectView::Collection(Seq::empty())),
{
    reveal_strlit("Ljava/lang/StringBuilder;");
    reveal_strlit("Ljava/util/ArrayList;");
    reveal_strlit("Ljava/util/LinkedList;");
    reveal_strlit("Ljava/util/HashMap;");
    reveal_strlit("Ljava/util/Vector;");
    assert("Ljava/lang/StringBuilder;"@.len() == 25 && "Ljava/util/ArrayList;"@.len() == 21);
    assert("Ljava/util/LinkedList;"@.len() == 22 && "Ljava/util/HashMap;"@.len() == 19);
    assert("Ljava/util/Vector;"@.len() == 18);
    let made = seq![ValueView::Object(builder), ValueView::String(s)];
    assert(crate::value::at(made, 0) == Some(ValueView::Object(builder)));
    assert(crate::value::at(made, 1) == Some(ValueView::String(s)));
    let bare = seq![ValueView::Object(builder)];
    assert(crate::value::at(bare, 0) == Some(ValueView::Object(builder)));
    assert(crate::value::at(bare, 1) is None);
}

} // verus!
