//! Text: digits, searching, splitting and the like, over sequences of characters.

use vstd::prelude::*;
use vstd::std_specs::iter::*;
use vstd::string::*;
use vstd::utf8::*;

verus! {

/// The character of the digit `d` in bases up to sixteen.
pub open spec fn digit(d: int) -> char {
    if d < 10 {
        (48 + d) as char
    } else {
        (87 + d) as char
    }
}

/// `n` in the given base, most significant digit first, without leading zeros.
pub open spec fn digits(n: nat, base: nat) -> Seq<char>
    decreases n,
{
    if n < base || base < 2 {
        seq![digit(n as int)]
    } else {
        proof {
            assert(n / base < n) by (nonlinear_arith)
                requires
                    n >= base,
                    base >= 2,
            ;
        }
        digits(n / base, base).push(digit((n % base) as int))
    }
}

/// `n` in decimal, with a sign only where it is negative.
pub open spec fn decimal(n: int) -> Seq<char> {
    if n < 0 {
        seq!['-'] + digits((-n) as nat, 10)
    } else {
        digits(n as nat, 10)
    }
}

/// `s` with zeros in front of it up to `width` characters.
pub open spec fn padded(s: Seq<char>, width: nat) -> Seq<char>
    decreases width - s.len(),
{
    if s.len() < width {
        padded(seq!['0'] + s, width)
    } else {
        s
    }
}

fn digit_text(d: u128) -> (r: &'static str)
    requires
        d < 16,
    ensures
        r@ == seq![digit(d as int)],
{
    proof {
        reveal_strlit("0");
        reveal_strlit("1");
        reveal_strlit("2");
        reveal_strlit("3");
        reveal_strlit("4");
        reveal_strlit("5");
        reveal_strlit("6");
        reveal_strlit("7");
        reveal_strlit("8");
        reveal_strlit("9");
        reveal_strlit("a");
        reveal_strlit("b");
        reveal_strlit("c");
        reveal_strlit("d");
        reveal_strlit("e");
        reveal_strlit("f");
    }
    match d {
        0 => "0",
        1 => "1",
        2 => "2",
        3 => "3",
        4 => "4",
        5 => "5",
        6 => "6",
        7 => "7",
        8 => "8",
        9 => "9",
        10 => "a",
        11 => "b",
        12 => "c",
        13 => "d",
        14 => "e",
        _ => "f",
    }
}

fn digits_wide(n: u128, base: u128) -> (r: String)
    requires
        2 <= base <= 16,
    ensures
        r@ == digits(n as nat, base as nat),
    decreases n,
{
    if n < base {
        digit_text(n).to_owned()
    } else {
        assert(n / base < n) by (nonlinear_arith)
            requires
                base >= 2,
                n >= base,
        ;
        let mut r = digits_wide(n / base, base);
        let last = digit_text(n % base);
        r.append(last);
        assert(r@ =~= digits((n / base) as nat, base as nat).push(digit((n % base) as int)));
        r
    }
}

/// Writes `n` in the given base.
pub fn digits_text(n: u64, base: u64) -> (r: String)
    requires
        2 <= base <= 16,
    ensures
        r@ == digits(n as nat, base as nat),
{
    digits_wide(n as u128, base as u128)
}

/// Writes `n` in decimal.
pub fn decimal_wide(n: i128) -> (r: String)
    requires
        n > i128::MIN,
    ensures
        r@ == decimal(n as int),
{
    if n < 0 {
        let mut r = "-".to_owned();
        let rest = digits_wide((-n) as u128, 10);
        r.append(rest.as_str());
        proof {
            reveal_strlit("-");
            assert("-"@ =~= seq!['-']);
        }
        r
    } else {
        digits_wide(n as u128, 10)
    }
}

/// Writes `n` in decimal.
pub fn decimal_text(n: i64) -> (r: String)
    ensures
        r@ == decimal(n as int),
{
    decimal_wide(n as i128)
}

/// Writes the unsigned `n` in decimal.
pub fn decimal_unsigned(n: u64) -> (r: String)
    ensures
        r@ == decimal(n as int),
{
    digits_text(n, 10)
}

/// Puts zeros in front of `s` up to `width` characters.
pub fn pad(s: String, width: usize) -> (r: String)
    ensures
        r@ == padded(s@, width as nat),
    decreases width - s@.len(),
{
    if s.as_str().unicode_len() < width {
        let mut longer = "0".to_owned();
        longer.append(s.as_str());
        proof {
            reveal_strlit("0");
            assert("0"@ =~= seq!['0']);
        }
        pad(longer, width)
    } else {
        s
    }
}

/// `a` followed by `b`.
pub fn join(a: &str, b: &str) -> (r: String)
    ensures
        r@ == a@ + b@,
{
    let mut r = a.to_owned();
    r.append(b);
    r
}

/// `a`, `b` and `c` in a row.
pub fn join3(a: &str, b: &str, c: &str) -> (r: String)
    ensures
        r@ == a@ + b@ + c@,
{
    let mut r = a.to_owned();
    r.append(b);
    r.append(c);
    r
}

/// Whether two texts are the same.
pub fn same(a: &str, b: &str) -> (r: bool)
    ensures
        r == (a@ == b@),
{
    let x = a.as_bytes();
    let y = b.as_bytes();
    proof {
        encode_utf8_decode_utf8(a@);
        encode_utf8_decode_utf8(b@);
    }
    if x.len() != y.len() {
        return false;
    }
    let n: usize = x.len();
    for i in 0..n
        invariant
            n == x@.len(),
            n == y@.len(),
            x@ == encode_utf8(a@),
            y@ == encode_utf8(b@),
            forall|j: int| 0 <= j < i ==> x@[j] == y@[j],
    {
        if x[i] != y[i] {
            return false;
        }
    }
    assert(x@ =~= y@);
    true
}

/// The characters of a text.
pub fn chars_of(s: &str) -> (r: Vec<char>)
    ensures
        r@ == s@,
{
    let mut rest = s.chars();
    let mut out: Vec<char> = Vec::new();
    let ghost mut i: int = 0;
    proof {
        assert(s@.skip(0) =~= s@);
        axiom_spec_iter(s);
    }
    loop
        invariant
            0 <= i <= s@.len(),
            IteratorSpec::remaining(&rest) == s@.skip(i),
            out@ == s@.take(i),
        decreases s@.len() - i,
    {
        match rest.next() {
            None => {
                assert(s@.take(i) =~= s@);
                return out;
            },
            Some(c) => {
                proof {
                    assert(s@.skip(i)[0] == s@[i]);
                    assert(s@.skip(i).drop_first() =~= s@.skip(i + 1));
                    assert(s@.take(i + 1) =~= s@.take(i).push(c));
                    i = i + 1;
                }
                out.push(c);
            },
        }
    }
}

/// `p` stands in `s` at position `at`.
pub open spec fn matches_at(s: Seq<char>, p: Seq<char>, at: int) -> bool {
    0 <= at && at + p.len() <= s.len() && s.subrange(at, at + p.len()) == p
}

pub open spec fn starts(s: Seq<char>, p: Seq<char>) -> bool {
    matches_at(s, p, 0)
}

pub open spec fn ends(s: Seq<char>, p: Seq<char>) -> bool {
    matches_at(s, p, s.len() - p.len())
}

/// The first position from `from` on at which `p` stands in `s`.
pub open spec fn first_match(s: Seq<char>, p: Seq<char>, from: nat) -> Option<nat>
    decreases s.len() + 1 - from,
{
    if from + p.len() > s.len() {
        None
    } else if matches_at(s, p, from as int) {
        Some(from)
    } else {
        first_match(s, p, from + 1)
    }
}

pub open spec fn contains(s: Seq<char>, p: Seq<char>) -> bool {
    first_match(s, p, 0) is Some
}

/// The parts of `s` between the occurrences of `sep`, taken from the left.
pub open spec fn split(s: Seq<char>, sep: Seq<char>) -> Seq<Seq<char>>
    decreases s.len(),
{
    match first_match(s, sep, 0) {
        Some(i) if sep.len() > 0 && i + sep.len() <= s.len() => seq![s.take(i as int)] + split(
            s.skip((i + sep.len()) as int),
            sep,
        ),
        _ => seq![s],
    }
}

fn chars_match_at(s: &Vec<char>, p: &Vec<char>, at: usize) -> (r: bool)
    ensures
        r == matches_at(s@, p@, at as int),
{
    if p.len() > s.len() || at > s.len() - p.len() {
        return false;
    }
    let n: usize = p.len();
    for i in 0..n
        invariant
            n == p@.len(),
            n <= s.len(),
            at <= s.len() - n,
            forall|j: int| 0 <= j < i ==> s@[at + j] == p@[j],
    {
        if s[at + i] != p[i] {
            assert(s@.subrange(at as int, at + p@.len())[i as int] == s@[at + i]);
            return false;
        }
    }
    assert(s@.subrange(at as int, at + p@.len()) =~= p@);
    true
}

fn chars_find(s: &Vec<char>, p: &Vec<char>, from: usize) -> (r: Option<usize>)
    ensures
        match r {
            Some(i) => first_match(s@, p@, from as nat) == Some(i as nat) && matches_at(
                s@,
                p@,
                i as int,
            ) && i >= from,
            None => first_match(s@, p@, from as nat) is None,
        },
    decreases s@.len() - from,
{
    if p.len() > s.len() || from > s.len() - p.len() {
        None
    } else if chars_match_at(s, p, from) {
        Some(from)
    } else if from == s.len() {
        proof {
            assert(p@.len() == 0);
            assert(s@.subrange(from as int, from as int) =~= p@);
        }
        None
    } else {
        chars_find(s, p, from + 1)
    }
}

/// Whether `s` begins with `p`.
pub fn starts_with(s: &str, p: &str) -> (r: bool)
    ensures
        r == starts(s@, p@),
{
    let mut a = s.chars();
    let mut b = p.chars();
    let ghost mut i: int = 0;
    proof {
        assert(s@.skip(0) =~= s@);
        assert(p@.skip(0) =~= p@);
        axiom_spec_iter(s);
        axiom_spec_iter(p);
    }
    loop
        invariant
            0 <= i <= p@.len(),
            i <= s@.len(),
            IteratorSpec::remaining(&a) == s@.skip(i),
            IteratorSpec::remaining(&b) == p@.skip(i),
            s@.subrange(0, i) == p@.subrange(0, i),
        decreases p@.len() - i,
    {
        let y = b.next();
        let x = a.next();
        match (x, y) {
            (_, None) => {
                assert(p@.subrange(0, i) =~= p@);
                return true;
            },
            (None, Some(_)) => {
                return false;
            },
            (Some(d), Some(c)) => {
                proof {
                    assert(p@.skip(i)[0] == p@[i]);
                    assert(s@.skip(i)[0] == s@[i]);
                }
                if c != d {
                    proof {
                        if starts(s@, p@) {
                            assert(s@.subrange(0, p@.len() as int)[i] == p@[i]);
                        }
                    }
                    return false;
                }
                proof {
                    assert(s@.skip(i).drop_first() =~= s@.skip(i + 1));
                    assert(p@.skip(i).drop_first() =~= p@.skip(i + 1));
                    assert(s@.subrange(0, i + 1) =~= s@.subrange(0, i).push(c));
                    assert(p@.subrange(0, i + 1) =~= p@.subrange(0, i).push(c));
                    i = i + 1;
                }
            },
        }
    }
}

/// Whether `s` ends with `p`.
pub fn ends_with(s: &str, p: &str) -> (r: bool)
    ensures
        r == ends(s@, p@),
{
    let x = chars_of(s);
    let y = chars_of(p);
    if y.len() > x.len() {
        false
    } else {
        chars_match_at(&x, &y, x.len() - y.len())
    }
}

/// Whether `p` stands somewhere in `s`.
pub fn contains_text(s: &str, p: &str) -> (r: bool)
    ensures
        r == contains(s@, p@),
{
    chars_find(&chars_of(s), &chars_of(p), 0).is_some()
}

/// The position at which `p` first stands in `s`, in bytes of UTF-8.
pub fn find_text(s: &str, p: &str) -> (r: Option<usize>)
    ensures
        r == (match first_match(s@, p@, 0) {
            Some(i) => Some(encode_utf8(s@.take(i as int)).len() as usize),
            None => None,
        }),
{
    match chars_find(&chars_of(s), &chars_of(p), 0) {
        Some(i) => {
            let head = s.substring_char(0, i);
            proof {
                assert(s@.subrange(0, i as int) =~= s@.take(i as int));
            }
            Some(head.len())
        },
        None => None,
    }
}

/// Cuts `s` at every occurrence of `sep`.
pub fn split_text(s: &str, sep: &str) -> (r: Vec<String>)
    ensures
        r.deep_view() == split(s@, sep@),
    decreases s@.len(),
{
    let n: usize = sep.unicode_len();
    match chars_find(&chars_of(s), &chars_of(sep), 0) {
        Some(i) if n > 0 => {
            let head = s.substring_char(0, i).to_owned();
            let total: usize = s.unicode_len();
            let tail = s.substring_char(i + n, total);
            proof {
                assert(s@.subrange(0, i as int) =~= s@.take(i as int));
                assert(s@.subrange(i + n, total as int) =~= s@.skip(i + n));
            }
            let mut parts: Vec<String> = Vec::new();
            parts.push(head);
            let mut rest = split_text(tail, sep);
            let ghost rest_view = rest.deep_view();
            let ghost first = parts@;
            parts.append(&mut rest);
            assert(parts.deep_view() =~= seq![s@.take(i as int)] + rest_view);
            parts
        },
        _ => {
            let mut parts: Vec<String> = Vec::new();
            parts.push(s.to_owned());
            assert(parts.deep_view() =~= seq![s@]);
            parts
        },
    }
}

/// The text of the single character of `s` at `i`.
pub open spec fn singles(s: Seq<char>) -> Seq<Seq<char>> {
    Seq::new(s.len(), |i: int| seq![s[i]])
}

/// The characters of `s`, each as a text of its own.
pub fn single_texts(s: &str) -> (r: Vec<String>)
    ensures
        r.deep_view() == singles(s@),
{
    let n: usize = s.unicode_len();
    let mut out: Vec<String> = Vec::new();
    for i in 0..n
        invariant
            n == s@.len(),
            out.deep_view() == singles(s@).take(i as int),
    {
        let c = s.substring_char(i, i + 1).to_owned();
        assert(c@ =~= seq![s@[i as int]]);
        let ghost before = out.deep_view();
        out.push(c);
        assert(out.deep_view() =~= before.push(c@));
        assert(singles(s@).take(i + 1) =~= singles(s@).take(i as int).push(seq![s@[i as int]]));
    }
    assert(singles(s@).take(n as int) =~= singles(s@));
    out
}

/// The lower-case form of an ASCII letter; any other character as it is.
pub open spec fn lower(c: char) -> char {
    if 'A' <= c && c <= 'Z' {
        ((c as int) + 32) as char
    } else {
        c
    }
}

pub open spec fn lower_all(s: Seq<char>) -> Seq<char> {
    s.map_values(|c: char| lower(c))
}

fn lower_char(c: char) -> (r: u32)
    ensures
        r == lower(c) as u32,
{
    if 'A' <= c && c <= 'Z' {
        c as u32 + 32
    } else {
        c as u32
    }
}

/// Whether two texts are the same up to the case of ASCII letters.
pub fn same_ignoring_case(a: &str, b: &str) -> (r: bool)
    ensures
        r == (lower_all(a@) == lower_all(b@)),
{
    let x = chars_of(a);
    let y = chars_of(b);
    if x.len() != y.len() {
        assert(lower_all(a@).len() != lower_all(b@).len());
        return false;
    }
    let n: usize = x.len();
    for i in 0..n
        invariant
            n == x@.len(),
            n == y@.len(),
            x@ == a@,
            y@ == b@,
            forall|j: int| 0 <= j < i ==> lower(x@[j]) == lower(y@[j]),
    {
        if lower_char(x[i]) != lower_char(y[i]) {
            assert(lower_all(a@)[i as int] != lower_all(b@)[i as int]);
            return false;
        }
    }
    assert(lower_all(a@) =~= lower_all(b@));
    true
}

/// `s` with every full stop turned into a slash.
pub open spec fn slashed(s: Seq<char>) -> Seq<char> {
    s.map_values(|c: char| if c == '.' { '/' } else { c })
}

pub fn slashes_for_stops(s: &str) -> (r: String)
    ensures
        r@ == slashed(s@),
{
    let n: usize = s.unicode_len();
    let mut out = String::new();
    for i in 0..n
        invariant
            n == s@.len(),
            out@ == slashed(s@).take(i as int),
    {
        assert(slashed(s@).take(i + 1) =~= slashed(s@).take(i as int).push(slashed(s@)[i as int]));
        if s.get_char(i) == '.' {
            out.append("/");
            proof {
                reveal_strlit("/");
                assert("/"@ =~= seq!['/']);
            }
        } else {
            let c = s.substring_char(i, i + 1);
            out.append(c);
            assert(c@ =~= seq![s@[i as int]]);
        }
        assert(out@ =~= slashed(s@).take(i + 1));
    }
    assert(slashed(s@).take(n as int) =~= slashed(s@));
    out
}

/// The number that the digits of `s` write in decimal, where it has no other characters.
pub open spec fn number(s: Seq<char>) -> Option<nat>
    decreases s.len(),
{
    if s.len() == 0 {
        Some(0)
    } else {
        match number(s.drop_last()) {
            Some(n) if '0' <= s.last() && s.last() <= '9' => Some(
                n * 10 + (s.last() as int - 48) as nat,
            ),
            _ => None,
        }
    }
}

/// The integer that `s` writes: an optional sign, then one digit or more.
pub open spec fn integer(s: Seq<char>) -> Option<int> {
    if s.len() == 0 {
        None
    } else if s[0] == '-' || s[0] == '+' {
        if s.len() == 1 {
            None
        } else {
            match number(s.skip(1)) {
                Some(n) => Some(if s[0] == '-' { -(n as int) } else { n as int }),
                None => None,
            }
        }
    } else {
        match number(s) {
            Some(n) => Some(n as int),
            None => None,
        }
    }
}

pub proof fn lemma_number_prefix(s: Seq<char>, i: int)
    requires
        0 <= i <= s.len(),
    ensures
        number(s.take(i)) is None ==> number(s) is None,
        number(s.take(i)) is Some && number(s) is Some ==> number(s)->0 >= number(s.take(i))->0,
    decreases s.len() - i,
{
    if i < s.len() {
        assert(s.take(i + 1).drop_last() =~= s.take(i));
        lemma_number_prefix(s, i + 1);
    } else {
        assert(s.take(i) =~= s);
    }
}

/// The digits of `s` from `from` on as a number, where that is at most `limit`.
fn parse_digits(s: &Vec<char>, from: usize, limit: u64) -> (r: Option<u64>)
    requires
        from <= s@.len(),
        limit <= 0x8000_0000_0000_0000,
    ensures
        match r {
            Some(n) => number(s@.skip(from as int)) == Some(n as nat) && n <= limit,
            None => match number(s@.skip(from as int)) {
                Some(n) => n > limit,
                None => true,
            },
        },
{
    let ghost whole = s@.skip(from as int);
    let mut value: u64 = 0;
    let n: usize = s.len();
    for i in from..n
        invariant
            from <= i <= n,
            n == s@.len(),
            whole == s@.skip(from as int),
            limit <= 0x8000_0000_0000_0000,
            number(whole.take(i - from)) == Some(value as nat),
            value <= limit,
    {
        let c = s[i];
        proof {
            assert(whole.take(i - from + 1).drop_last() =~= whole.take(i - from));
            assert(whole.take(i - from + 1).last() == c);
            lemma_number_prefix(whole, i - from + 1);
        }
        if !('0' <= c && c <= '9') {
            return None;
        }
        let d: u64 = (c as u32 - 48) as u64;
        let next: u128 = value as u128 * 10 + d as u128;
        if next > limit as u128 {
            return None;
        }
        value = next as u64;
    }
    proof {
        assert(whole.take(n - from) =~= whole);
    }
    Some(value)
}

/// Reads a signed integer between `-below` and `above`.
fn parse_between(s: &str, below: u64, above: u64) -> (r: Option<i128>)
    requires
        below <= 0x8000_0000_0000_0000,
        above <= 0x8000_0000_0000_0000,
    ensures
        r == (match integer(s@) {
            Some(n) if -below <= n && n <= above => Some(n as i128),
            _ => None,
        }),
{
    let c = chars_of(s);
    if c.len() == 0 {
        return None;
    }
    if c[0] == '-' || c[0] == '+' {
        if c.len() == 1 {
            return None;
        }
        let limit: u64 = if c[0] == '-' {
            below
        } else {
            above
        };
        match parse_digits(&c, 1, limit) {
            Some(n) => {
                if c[0] == '-' {
                    Some(-(n as i128))
                } else {
                    Some(n as i128)
                }
            },
            None => None,
        }
    } else {
        assert(s@.skip(0) =~= s@);
        match parse_digits(&c, 0, above) {
            Some(n) => Some(n as i128),
            None => None,
        }
    }
}

/// Reads a 32-bit integer: an optional sign and digits, in range.
pub fn parse_int(s: &str) -> (r: Option<i32>)
    ensures
        r == (match integer(s@) {
            Some(n) if i32::MIN <= n && n <= i32::MAX => Some(n as i32),
            _ => None,
        }),
{
    match parse_between(s, 0x8000_0000, 0x7fff_ffff) {
        Some(n) => Some(n as i32),
        None => None,
    }
}

/// Reads a 64-bit integer: an optional sign and digits, in range.
pub fn parse_long(s: &str) -> (r: Option<i64>)
    ensures
        r == (match integer(s@) {
            Some(n) if i64::MIN <= n && n <= i64::MAX => Some(n as i64),
            _ => None,
        }),
{
    match parse_between(s, 0x8000_0000_0000_0000, 0x7fff_ffff_ffff_ffff) {
        Some(n) => Some(n as i64),
        None => None,
    }
}

/// The FNV-1a hash of bytes, in 64 bits.
pub open spec fn fnv(bytes: Seq<u8>) -> u64
    decreases bytes.len(),
{
    if bytes.len() == 0 {
        0xcbf29ce484222325
    } else {
        (fnv(bytes.drop_last()) ^ (bytes.last() as u64)).wrapping_mul(0x100000001b3)
    }
}

/// Hashes the UTF-8 bytes of a text.
pub fn hash_text(s: &str) -> (r: u64)
    ensures
        r == fnv(encode_utf8(s@)),
{
    let bytes = s.as_bytes();
    let n: usize = bytes.len();
    let mut hash: u64 = 0xcbf29ce484222325;
    for i in 0..n
        invariant
            n == bytes@.len(),
            hash == fnv(bytes@.take(i as int)),
    {
        assert(bytes@.take(i + 1).drop_last() =~= bytes@.take(i as int));
        assert(bytes@.take(i + 1).last() == bytes@[i as int]);
        hash = (hash ^ bytes[i] as u64).wrapping_mul(0x100000001b3);
    }
    assert(bytes@.take(n as int) =~= bytes@);
    hash
}

} // verus!
