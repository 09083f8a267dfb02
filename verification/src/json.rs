//! JSON text for the values that go over the wire: string literals and
//! integers, written and read back.

use crate::text::{
    all_digits, decimal_text, digit_char, digit_of, digits_text, digits_value, is_digit,
};
use vstd::prelude::*;
use vstd::string::StrSliceExecFns;

verus! {

/// Whether `c` is one of the control characters that JSON does not allow
/// bare inside a string.
pub open spec fn is_control(c: char) -> bool {
    (c as u32) < 0x20
}

/// The letter that follows the backslash in the two-character escape of `c`,
/// for the characters that have such an escape.
pub open spec fn escape_letter(c: char) -> Option<char> {
    if c == '"' {
        Some('"')
    } else if c == '\\' {
        Some('\\')
    } else if c as u32 == 0x08 {
        Some('b')
    } else if c as u32 == 0x09 {
        Some('t')
    } else if c as u32 == 0x0a {
        Some('n')
    } else if c as u32 == 0x0c {
        Some('f')
    } else if c as u32 == 0x0d {
        Some('r')
    } else {
        None
    }
}

/// The character that a two-character escape with this letter stands for.
pub open spec fn letter_char(letter: char) -> Option<char> {
    if letter == '"' {
        Some('"')
    } else if letter == '\\' {
        Some('\\')
    } else if letter == 'b' {
        Some(0x08u8 as char)
    } else if letter == 't' {
        Some(0x09u8 as char)
    } else if letter == 'n' {
        Some(0x0au8 as char)
    } else if letter == 'f' {
        Some(0x0cu8 as char)
    } else if letter == 'r' {
        Some(0x0du8 as char)
    } else {
        None
    }
}

/// The hexadecimal digit, in lower case, for a number below sixteen.
pub open spec fn hex_digit(n: nat) -> char {
    if n < 10 {
        digit_char(n)
    } else if n == 10 {
        'a'
    } else if n == 11 {
        'b'
    } else if n == 12 {
        'c'
    } else if n == 13 {
        'd'
    } else if n == 14 {
        'e'
    } else {
        'f'
    }
}

/// The number that a lower-case hexadecimal digit stands for.
pub open spec fn hex_value(c: char) -> Option<nat> {
    if is_digit(c) {
        Some((c as u32 - 48) as nat)
    } else if 97 <= c as u32 <= 102 {
        Some((c as u32 - 87) as nat)
    } else {
        None
    }
}

/// How one character is written inside a JSON string: a quote, a backslash
/// and five of the control characters as a backslash and a letter, any other
/// control character as `\u00` and two hexadecimal digits, and everything
/// else as itself.
pub open spec fn escaped(c: char) -> Seq<char> {
    match escape_letter(c) {
        Some(letter) => seq!['\\', letter],
        None => if is_control(c) {
            seq![
                '\\',
                'u',
                '0',
                '0',
                hex_digit((c as u32 / 16) as nat),
                hex_digit((c as u32 % 16) as nat),
            ]
        } else {
            seq![c]
        },
    }
}

/// How a text is written inside a JSON string: character by character.
pub open spec fn escaped_text(s: Seq<char>) -> Seq<char>
    decreases s.len(),
{
    if s.len() == 0 {
        Seq::empty()
    } else {
        escaped(s[0]) + escaped_text(s.drop_first())
    }
}

/// The JSON string literal for a text: the escaped text between double
/// quotes.
pub open spec fn json_string(s: Seq<char>) -> Seq<char> {
    seq!['"'] + escaped_text(s) + seq!['"']
}

/// What reading one character at the front of the inside of a JSON string
/// gives: the character and how many characters of `s` write it. Only the
/// forms of [`escaped`] are read; a closing quote or a bare control character
/// is no character.
pub open spec fn first_char(s: Seq<char>) -> Option<(char, int)> {
    if s.len() == 0 {
        None
    } else if s[0] == '\\' {
        if s.len() >= 2 && letter_char(s[1]) is Some {
            Some((letter_char(s[1])->0, 2))
        } else if s.len() >= 6 && s[1] == 'u' && s[2] == '0' && s[3] == '0' && hex_value(s[4])
            is Some && hex_value(s[5]) is Some {
            let v = hex_value(s[4])->0 * 16 + hex_value(s[5])->0;
            if v < 0x20 && escape_letter(v as char) is None {
                Some((v as char, 6))
            } else {
                None
            }
        } else {
            None
        }
    } else if s[0] == '"' || is_control(s[0]) {
        None
    } else {
        Some((s[0], 1))
    }
}

/// What reading the inside of a JSON string up to its closing quote gives:
/// the text and how many characters of `s` were read, the quote included.
pub open spec fn unescaped(s: Seq<char>) -> Option<(Seq<char>, int)>
    decreases s.len(),
{
    if s.len() > 0 && s[0] == '"' {
        Some((Seq::empty(), 1))
    } else {
        match first_char(s) {
            Some((c, w)) => if 1 <= w <= s.len() {
                match unescaped(s.skip(w)) {
                    Some((t, n)) => Some((seq![c] + t, w + n)),
                    None => None,
                }
            } else {
                None
            },
            None => None,
        }
    }
}

/// Reading the written form of a character gives the character back.
pub proof fn lemma_first_char_of_escaped(c: char, rest: Seq<char>)
    ensures
        first_char(escaped(c) + rest) == Some((c, escaped(c).len() as int)),
        1 <= escaped(c).len() <= 6,
{
    if escape_letter(c) is None && is_control(c) {
        let high = (c as u32 / 16) as nat;
        let low = (c as u32 % 16) as nat;
        assert(hex_value(hex_digit(high)) == Some(high));
        assert(hex_value(hex_digit(low)) == Some(low));
    }
}

/// The digit for the value of a hexadecimal digit is that digit.
proof fn lemma_hex_digit_of_value(c: char)
    requires
        hex_value(c) is Some,
    ensures
        hex_digit(hex_value(c)->0) == c,
        hex_value(c)->0 < 16,
{
    let n = hex_value(c)->0;
    assert(n < 16);
    assert(hex_digit(n) as u32 == c as u32);
}

/// A character that was read is written the way it was read.
pub proof fn lemma_escaped_of_first_char(s: Seq<char>)
    requires
        first_char(s) is Some,
    ensures
        ({
            let (c, w) = first_char(s)->0;
            1 <= w <= s.len() && s.subrange(0, w) == escaped(c)
        }),
{
    if s[0] == '\\' && !(s.len() >= 2 && letter_char(s[1]) is Some) {
        lemma_hex_digit_of_value(s[4]);
        lemma_hex_digit_of_value(s[5]);
    }
}

/// Reading a written text up to the quote behind it gives the text back.
pub proof fn lemma_unescaped_of_escaped(t: Seq<char>, rest: Seq<char>)
    ensures
        unescaped(escaped_text(t) + seq!['"'] + rest) == Some(
            (t, escaped_text(t).len() as int + 1),
        ),
    decreases t.len(),
{
    if t.len() > 0 {
        let s = escaped_text(t) + seq!['"'] + rest;
        let after = escaped_text(t.drop_first()) + seq!['"'] + rest;
        lemma_first_char_of_escaped(t[0], after);
        assert(s.skip(escaped(t[0]).len() as int) =~= after);
        lemma_unescaped_of_escaped(t.drop_first(), rest);
    }
}

/// What was read up to a closing quote is a written text and the quote.
pub proof fn lemma_escaped_of_unescaped(s: Seq<char>)
    requires
        unescaped(s) is Some,
    ensures
        ({
            let (t, n) = unescaped(s)->0;
            1 <= n <= s.len() && s.subrange(0, n) == escaped_text(t) + seq!['"']
        }),
    decreases s.len(),
{
    if !(s.len() > 0 && s[0] == '"') {
        let (c, w) = first_char(s)->0;
        let (t, n) = unescaped(s.skip(w))->0;
        lemma_escaped_of_first_char(s);
        lemma_escaped_of_unescaped(s.skip(w));
        assert((seq![c] + t).drop_first() =~= t);
        assert(s.subrange(0, w + n) =~= s.subrange(0, w) + s.skip(w).subrange(0, n));
    }
}

/// Calls `serde_json::to_string` on a `str`: the JSON string literal for the
/// text, as [`json_string`] states it. For a `str` the call cannot fail: the
/// serializer fails only where its writer does, and here it writes into a
/// byte vector.
#[verifier::external_body]
pub(crate) fn serialize_str(s: &str) -> (r: Option<String>)
    ensures
        r is Some,
        r matches Some(literal) ==> literal@ == json_string(s@),
{
    serde_json::to_string(s).ok()
}

/// The JSON string literal for `s`.
pub fn quote(s: &str) -> (r: String)
    ensures
        r@ == json_string(s@),
{
    match serialize_str(s) {
        Some(literal) => literal,
        None => String::new(),
    }
}

/// Calls `String::push`: the character joins the end of the text.
#[verifier::external_body]
pub(crate) fn push_char(s: &mut String, c: char)
    ensures
        final(s)@ == old(s)@.push(c),
{
    s.push(c)
}

/// The number that a lower-case hexadecimal digit stands for.
fn hex_of(c: char) -> (r: Option<u8>)
    ensures
        match r {
            Some(v) => hex_value(c) == Some(v as nat) && v < 16,
            None => hex_value(c) is None,
        },
{
    let code = c as u32;
    if 48 <= code && code <= 57 {
        Some((code - 48) as u8)
    } else if 97 <= code && code <= 102 {
        Some((code - 87) as u8)
    } else {
        None
    }
}

/// Reads one character of the inside of a JSON string at `text[at]`: the
/// character and how many characters of `text` write it.
fn read_char(text: &Vec<char>, at: usize) -> (r: Option<(char, usize)>)
    requires
        at <= text.len(),
    ensures
        match r {
            Some((c, w)) => first_char(text@.skip(at as int)) == Some((c, w as int)) && 1 <= w
                && at + w <= text.len(),
            None => first_char(text@.skip(at as int)) is None,
        },
{
    let len = text.len();
    if at >= len {
        return None;
    }
    let c = text[at];
    if c == '\\' {
        if len - at < 2 {
            return None;
        }
        let letter = text[at + 1];
        if letter == '"' {
            Some(('"', 2))
        } else if letter == '\\' {
            Some(('\\', 2))
        } else if letter == 'b' {
            Some((0x08u8 as char, 2))
        } else if letter == 't' {
            Some((0x09u8 as char, 2))
        } else if letter == 'n' {
            Some((0x0au8 as char, 2))
        } else if letter == 'f' {
            Some((0x0cu8 as char, 2))
        } else if letter == 'r' {
            Some((0x0du8 as char, 2))
        } else if letter == 'u' && len - at >= 6 {
            if text[at + 2] != '0' || text[at + 3] != '0' {
                return None;
            }
            let high = match hex_of(text[at + 4]) {
                Some(v) => v,
                None => { return None; },
            };
            let low = match hex_of(text[at + 5]) {
                Some(v) => v,
                None => { return None; },
            };
            let v: u8 = high * 16 + low;
            if v >= 0x20 || v == 0x08 || v == 0x09 || v == 0x0a || v == 0x0c || v == 0x0d {
                return None;
            }
            let decoded = v as char;
            Some((decoded, 6))
        } else {
            None
        }
    } else if c == '"' || (c as u32) < 0x20 {
        None
    } else {
        Some((c, 1))
    }
}

/// Reads the inside of a JSON string from `text[at]` up to its closing
/// quote: the text, and the position behind the quote.
pub(crate) fn read_string(text: &Vec<char>, at: usize) -> (r: Option<(String, usize)>)
    requires
        at <= text.len(),
    ensures
        match r {
            Some((t, end)) => at < end <= text.len() && unescaped(text@.skip(at as int)) == Some(
                (t@, end - at),
            ),
            None => unescaped(text@.skip(at as int)) is None,
        },
{
    let len = text.len();
    let mut out = String::new();
    let mut i = at;
    loop
        invariant
            len == text.len(),
            at <= i <= len,
            unescaped(text@.skip(at as int)) == (match unescaped(text@.skip(i as int)) {
                Some((t, n)) => Some((out@ + t, (i - at) + n)),
                None => None,
            }),
        decreases len - i,
    {
        let ghost here = text@.skip(i as int);
        if i < len && text[i] == '"' {
            return Some((out, i + 1));
        }
        match read_char(text, i) {
            None => {
                return None;
            },
            Some((c, w)) => {
                proof {
                    assert(here.skip(w as int) =~= text@.skip(i + w));
                }
                push_char(&mut out, c);
                i = i + w;
            },
        }
    }
}

/// How many digits stand at the front of `s`.
pub open spec fn digit_run(s: Seq<char>) -> int
    decreases s.len(),
{
    if s.len() > 0 && is_digit(s[0]) {
        1 + digit_run(s.drop_first())
    } else {
        0
    }
}

/// Whether `body` is how a number is written: one digit or more, and no
/// zero in front of another digit.
pub open spec fn canonical_digits(body: Seq<char>) -> bool {
    body.len() >= 1 && all_digits(body) && (body.len() > 1 ==> body[0] != '0')
}

/// What reading a 32-bit integer at the front of `s` gives: the number and
/// how many characters of `s` write it. The number is read in the one form in
/// which it is written: a `-` for a negative number, then all the digits that
/// follow, without a zero in front and without `-0`.
pub open spec fn int_reading(s: Seq<char>) -> Option<(int, int)> {
    let negative = s.len() > 0 && s[0] == '-';
    let from: int = if negative {
        1
    } else {
        0
    };
    let k = digit_run(s.skip(from));
    let body = s.subrange(from, from + k);
    let magnitude = digits_value(body) as int;
    let value = if negative {
        -magnitude
    } else {
        magnitude
    };
    if k == 0 || (k > 1 && body[0] == '0') || (negative && magnitude == 0) || value < i32::MIN
        || value > i32::MAX {
        None
    } else {
        Some((value, from + k))
    }
}

proof fn lemma_digit_char(d: nat)
    requires
        d < 10,
    ensures
        is_digit(digit_char(d)),
        digit_of(digit_char(d)) == d,
{
}

proof fn lemma_digit_of(c: char)
    requires
        is_digit(c),
    ensures
        digit_of(c) < 10,
        digit_char(digit_of(c)) == c,
{
    let d = digit_of(c);
    assert(d < 10);
    assert(digit_char(d) as u32 == c as u32);
}

/// The digits at the front of a text are digits, and what follows them is
/// none.
pub proof fn lemma_digit_run(s: Seq<char>)
    ensures
        0 <= digit_run(s) <= s.len(),
        all_digits(s.subrange(0, digit_run(s))),
        digit_run(s) < s.len() ==> !is_digit(s[digit_run(s)]),
    decreases s.len(),
{
    if s.len() > 0 && is_digit(s[0]) {
        let tail = s.drop_first();
        lemma_digit_run(tail);
        let k = digit_run(tail);
        assert forall|i: int| 0 <= i < k + 1 implies is_digit(
            #[trigger] s.subrange(0, k + 1)[i],
        ) by {
            if i > 0 {
                assert(s.subrange(0, k + 1)[i] == tail.subrange(0, k)[i - 1]);
            }
        }
    }
}

/// Digits followed by something else are the digits at the front.
pub proof fn lemma_digit_run_of(a: Seq<char>, rest: Seq<char>)
    requires
        all_digits(a),
        rest.len() == 0 || !is_digit(rest[0]),
    ensures
        digit_run(a + rest) == a.len(),
    decreases a.len(),
{
    if a.len() > 0 {
        assert((a + rest).drop_first() =~= a.drop_first() + rest);
        lemma_digit_run_of(a.drop_first(), rest);
    }
}

/// A number is written in digits, without a zero in front, and its digits
/// have the number as their value.
pub proof fn lemma_digits_text(n: nat)
    ensures
        canonical_digits(digits_text(n)),
        digits_value(digits_text(n)) == n,
    decreases n,
{
    let t = digits_text(n);
    if n < 10 {
        lemma_digit_char(n);
        assert(digits_value(t.drop_last()) == 0);
    } else {
        let init = digits_text(n / 10);
        lemma_digits_text(n / 10);
        lemma_digit_char(n % 10);
        assert(t.drop_last() =~= init);
        if init.len() == 1 {
            assert(digits_value(init.drop_last()) == 0);
        }
    }
}

proof fn lemma_leading_digit(body: Seq<char>)
    requires
        body.len() >= 1,
        all_digits(body),
        body[0] != '0',
    ensures
        digits_value(body) >= 1,
    decreases body.len(),
{
    if body.len() == 1 {
        lemma_digit_of(body[0]);
    } else {
        lemma_leading_digit(body.drop_last());
    }
}

/// Digits without a zero in front are how their value is written.
pub proof fn lemma_canonical_digits(body: Seq<char>)
    requires
        canonical_digits(body),
    ensures
        digits_text(digits_value(body)) == body,
    decreases body.len(),
{
    lemma_digit_of(body.last());
    if body.len() == 1 {
        assert(digits_value(body.drop_last()) == 0);
    } else {
        lemma_canonical_digits(body.drop_last());
        lemma_leading_digit(body.drop_last());
    }
}

/// Reading a written 32-bit integer, with no digit behind it, gives the
/// integer back.
pub proof fn lemma_int_reading_of_text(n: int, rest: Seq<char>)
    requires
        i32::MIN <= n <= i32::MAX,
        rest.len() == 0 || !is_digit(rest[0]),
    ensures
        int_reading(decimal_text(n) + rest) == Some((n, decimal_text(n).len() as int)),
{
    let s = decimal_text(n) + rest;
    if n < 0 {
        let digits = digits_text((-n) as nat);
        lemma_digits_text((-n) as nat);
        assert(s.skip(1) =~= digits + rest);
        lemma_digit_run_of(digits, rest);
        assert(s.subrange(1, 1 + digits.len() as int) =~= digits);
    } else {
        let digits = digits_text(n as nat);
        lemma_digits_text(n as nat);
        assert(s.skip(0) =~= digits + rest);
        lemma_digit_run_of(digits, rest);
        assert(s.subrange(0, digits.len() as int) =~= digits);
    }
}

/// What was read as an integer is how that integer is written.
pub proof fn lemma_text_of_int_reading(s: Seq<char>)
    requires
        int_reading(s) is Some,
    ensures
        ({
            let (v, n) = int_reading(s)->0;
            &&& 1 <= n <= s.len()
            &&& i32::MIN <= v <= i32::MAX
            &&& s.subrange(0, n) == decimal_text(v)
            &&& n < s.len() ==> !is_digit(s[n])
        }),
{
    let negative = s.len() > 0 && s[0] == '-';
    let from: int = if negative {
        1
    } else {
        0
    };
    let k = digit_run(s.skip(from));
    let body = s.subrange(from, from + k);
    lemma_digit_run(s.skip(from));
    assert(s.skip(from).subrange(0, k) =~= body);
    lemma_canonical_digits(body);
}

/// Reads a 32-bit integer at `text[at]`: the number, and the position behind
/// its last digit.
pub(crate) fn read_int(text: &Vec<char>, at: usize) -> (r: Option<(i32, usize)>)
    requires
        at <= text.len(),
    ensures
        match r {
            Some((v, end)) => at < end <= text.len() && int_reading(text@.skip(at as int)) == Some(
                (v as int, end - at),
            ),
            None => int_reading(text@.skip(at as int)) is None,
        },
{
    let len = text.len();
    let ghost s = text@.skip(at as int);
    let negative = at < len && text[at] == '-';
    let from: usize = if negative {
        at + 1
    } else {
        at
    };
    let ghost digits = text@.skip(from as int);
    proof {
        assert(s.skip(from - at) =~= digits);
    }
    let mut i: usize = from;
    let mut magnitude: u64 = 0;
    let mut too_large = false;
    while i < len && 48 <= text[i] as u32 && text[i] as u32 <= 57
        invariant
            len == text.len(),
            from <= i <= len,
            digits == text@.skip(from as int),
            digit_run(digits) == (i - from) + digit_run(text@.skip(i as int)),
            !too_large ==> magnitude == digits_value(text@.subrange(from as int, i as int))
                && magnitude <= 2147483648,
            too_large ==> digits_value(text@.subrange(from as int, i as int)) > 2147483648,
        decreases len - i,
    {
        let ghost before = text@.subrange(from as int, i as int);
        let ghost now = text@.subrange(from as int, i + 1);
        let digit = (text[i] as u32 - 48) as u64;
        proof {
            assert(text@.skip(i as int).drop_first() =~= text@.skip(i + 1));
            assert(now.drop_last() =~= before);
        }
        if !too_large {
            magnitude = magnitude * 10 + digit;
            if magnitude > 2147483648 {
                too_large = true;
            }
        }
        i = i + 1;
    }
    let ghost k = i - from;
    let ghost body = text@.subrange(from as int, i as int);
    proof {
        assert(s.subrange(from - at, from - at + k) =~= body);
    }
    if i == from {
        return None;
    }
    if i - from > 1 && text[from] == '0' {
        return None;
    }
    if too_large {
        return None;
    }
    if negative {
        if magnitude == 0 {
            return None;
        }
        let value: i64 = -(magnitude as i64);
        Some((value as i32, i))
    } else {
        if magnitude > 2147483647 {
            return None;
        }
        Some((magnitude as i32, i))
    }
}

/// What reading a JSON string literal at the front of `s` gives: the text
/// and how many characters of `s` write it, both quotes included.
pub open spec fn string_reading(s: Seq<char>) -> Option<(Seq<char>, int)> {
    if s.len() > 0 && s[0] == '"' {
        match unescaped(s.skip(1)) {
            Some((t, n)) => Some((t, n + 1)),
            None => None,
        }
    } else {
        None
    }
}

/// Reading a string literal gives its text back.
pub proof fn lemma_string_reading_of_literal(t: Seq<char>, rest: Seq<char>)
    ensures
        string_reading(json_string(t) + rest) == Some((t, json_string(t).len() as int)),
{
    assert((json_string(t) + rest).skip(1) =~= escaped_text(t) + seq!['"'] + rest);
    lemma_unescaped_of_escaped(t, rest);
}

/// What was read as a string literal is the literal of the text read.
pub proof fn lemma_literal_of_string_reading(s: Seq<char>)
    requires
        string_reading(s) is Some,
    ensures
        ({
            let (t, n) = string_reading(s)->0;
            2 <= n <= s.len() && s.subrange(0, n) == json_string(t)
        }),
{
    let (_, n) = string_reading(s)->0;
    lemma_escaped_of_unescaped(s.skip(1));
    assert(s.subrange(0, n) =~= seq!['"'] + s.skip(1).subrange(0, n - 1));
}

/// Reads a JSON string literal at `text[at]`: the text, and the position
/// behind the closing quote.
pub(crate) fn read_quoted(text: &Vec<char>, at: usize) -> (r: Option<(String, usize)>)
    requires
        at <= text.len(),
    ensures
        match r {
            Some((t, end)) => at < end <= text.len() && string_reading(text@.skip(at as int))
                == Some((t@, end - at)),
            None => string_reading(text@.skip(at as int)) is None,
        },
{
    if at >= text.len() || text[at] != '"' {
        return None;
    }
    proof {
        assert(text@.skip(at as int).skip(1) =~= text@.skip(at + 1));
    }
    read_string(text, at + 1)
}

/// What follows `literal` at the front of `s`, if `s` starts with it.
pub open spec fn after(s: Seq<char>, literal: Seq<char>) -> Option<Seq<char>> {
    if literal.len() <= s.len() && s.subrange(0, literal.len() as int) == literal {
        Some(s.skip(literal.len() as int))
    } else {
        None
    }
}

/// What reading `lead` and then a string literal at the front of `s` gives:
/// the text of the literal, and what follows it.
pub open spec fn string_after(s: Seq<char>, lead: Seq<char>) -> Option<(Seq<char>, Seq<char>)> {
    match after(s, lead) {
        None => None,
        Some(value) => match string_reading(value) {
            None => None,
            Some((t, n)) => Some((t, value.skip(n))),
        },
    }
}

/// What reading `lead` and then a 32-bit integer at the front of `s` gives:
/// the number, and what follows it.
pub open spec fn int_after(s: Seq<char>, lead: Seq<char>) -> Option<(int, Seq<char>)> {
    match after(s, lead) {
        None => None,
        Some(value) => match int_reading(value) {
            None => None,
            Some((v, n)) => Some((v, value.skip(n))),
        },
    }
}

/// Reading a lead and the string literal behind it gives the text back.
pub proof fn lemma_string_after_written(lead: Seq<char>, t: Seq<char>, rest: Seq<char>)
    ensures
        string_after(lead + json_string(t) + rest, lead) == Some((t, rest)),
{
    let value = json_string(t) + rest;
    let s = lead + json_string(t) + rest;
    assert(s.subrange(0, lead.len() as int) =~= lead);
    assert(s.skip(lead.len() as int) =~= value);
    lemma_string_reading_of_literal(t, rest);
}

/// What was read as a lead and a string literal is the lead, the literal of
/// the text read, and the rest.
pub proof fn lemma_written_of_string_after(s: Seq<char>, lead: Seq<char>)
    requires
        string_after(s, lead) is Some,
    ensures
        ({
            let (t, rest) = string_after(s, lead)->0;
            s == lead + json_string(t) + rest
        }),
{
    lemma_literal_of_string_reading(after(s, lead)->0);
}

/// Reading a lead and the integer behind it gives the integer back, where no
/// digit follows it.
pub proof fn lemma_int_after_written(lead: Seq<char>, v: int, rest: Seq<char>)
    requires
        i32::MIN <= v <= i32::MAX,
        rest.len() == 0 || !is_digit(rest[0]),
    ensures
        int_after(lead + decimal_text(v) + rest, lead) == Some((v, rest)),
{
    let value = decimal_text(v) + rest;
    let s = lead + decimal_text(v) + rest;
    assert(s.subrange(0, lead.len() as int) =~= lead);
    assert(s.skip(lead.len() as int) =~= value);
    lemma_int_reading_of_text(v, rest);
}

/// What was read as a lead and an integer is the lead, the integer as it is
/// written, and the rest.
pub proof fn lemma_written_of_int_after(s: Seq<char>, lead: Seq<char>)
    requires
        int_after(s, lead) is Some,
    ensures
        ({
            let (v, rest) = int_after(s, lead)->0;
            i32::MIN <= v <= i32::MAX && s == lead + decimal_text(v) + rest
        }),
{
    lemma_text_of_int_reading(after(s, lead)->0);
}

/// Compares `text` from `at` on with `literal`: the position behind it where
/// it stands there.
pub(crate) fn expect(text: &Vec<char>, at: usize, literal: &str) -> (r: Option<usize>)
    requires
        at <= text.len(),
    ensures
        match r {
            Some(end) => end == at + literal@.len() && end <= text.len() && after(
                text@.skip(at as int),
                literal@,
            ) == Some(text@.skip(end as int)),
            None => after(text@.skip(at as int), literal@) is None,
        },
{
    let n = literal.unicode_len();
    let ghost here = text@.skip(at as int);
    if text.len() - at < n {
        return None;
    }
    let mut j: usize = 0;
    while j < n
        invariant
            n == literal@.len(),
            at + n <= text.len(),
            j <= n,
            here == text@.skip(at as int),
            forall|k: int| 0 <= k < j ==> text@[at + k] == literal@[k],
        decreases n - j,
    {
        if text[at + j] != literal.get_char(j) {
            return None;
        }
        j = j + 1;
    }
    proof {
        assert(here.subrange(0, n as int) =~= literal@);
    }
    Some(at + n)
}

/// Reads `lead` and then a string literal at `text[at]`: the text of the
/// literal, and the position behind it.
pub(crate) fn read_string_after(text: &Vec<char>, at: usize, lead: &str) -> (r: Option<
    (String, usize),
>)
    requires
        at <= text.len(),
    ensures
        match r {
            Some((t, end)) => end <= text.len() && string_after(text@.skip(at as int), lead@)
                == Some((t@, text@.skip(end as int))),
            None => string_after(text@.skip(at as int), lead@) is None,
        },
{
    match expect(text, at, lead) {
        Some(from) => read_quoted(text, from),
        None => None,
    }
}

/// Reads `lead` and then a 32-bit integer at `text[at]`: the number, and the
/// position behind it.
pub(crate) fn read_int_after(text: &Vec<char>, at: usize, lead: &str) -> (r: Option<(i32, usize)>)
    requires
        at <= text.len(),
    ensures
        match r {
            Some((v, end)) => end <= text.len() && int_after(text@.skip(at as int), lead@) == Some(
                (v as int, text@.skip(end as int)),
            ),
            None => int_after(text@.skip(at as int), lead@) is None,
        },
{
    match expect(text, at, lead) {
        Some(from) => read_int(text, from),
        None => None,
    }
}

} // verus!
