//! Text helpers shared by the other modules: comparison, decimal numbers,
//! lower-casing, trimming and splitting.

use vstd::prelude::*;
use vstd::string::StrSliceExecFns;
use vstd::string::StringExecFns;

verus! {

/// Whether `c` is one of the ASCII digits `0` to `9`.
pub open spec fn is_digit(c: char) -> bool {
    48 <= c as u32 && c as u32 <= 57
}

/// The number that the digit `c` stands for.
pub open spec fn digit_of(c: char) -> nat {
    (c as u32 - 48) as nat
}

/// The character that writes the digit `d` (below ten).
pub open spec fn digit_char(d: nat) -> char {
    if d == 0 {
        '0'
    } else if d == 1 {
        '1'
    } else if d == 2 {
        '2'
    } else if d == 3 {
        '3'
    } else if d == 4 {
        '4'
    } else if d == 5 {
        '5'
    } else if d == 6 {
        '6'
    } else if d == 7 {
        '7'
    } else if d == 8 {
        '8'
    } else {
        '9'
    }
}

/// Whether every character of `s` is an ASCII digit.
pub open spec fn all_digits(s: Seq<char>) -> bool {
    forall|i: int| 0 <= i < s.len() ==> is_digit(#[trigger] s[i])
}

/// The value of a run of decimal digits, most significant first.
pub open spec fn digits_value(s: Seq<char>) -> nat
    decreases s.len(),
{
    if s.len() == 0 {
        0
    } else {
        digits_value(s.drop_last()) * 10 + digit_of(s.last())
    }
}

/// What reading `s` as a decimal integer between `lo` and `hi` gives: an
/// optional sign (`+` always, `-` only where `signed`), then one or more ASCII
/// digits and nothing else; the value must lie in the range.
pub open spec fn decimal_reading(s: Seq<char>, signed: bool, lo: int, hi: int) -> Option<int> {
    let negative = signed && s.len() > 0 && s[0] == '-';
    let has_sign = s.len() > 0 && (s[0] == '+' || negative);
    let body = if has_sign {
        s.subrange(1, s.len() as int)
    } else {
        s
    };
    let value = if negative {
        -(digits_value(body) as int)
    } else {
        digits_value(body) as int
    };
    if body.len() == 0 || !all_digits(body) || value < lo || value > hi {
        None
    } else {
        Some(value)
    }
}

/// The decimal digits of `n`, most significant first, without leading zeros.
pub open spec fn digits_text(n: nat) -> Seq<char>
    decreases n,
{
    if n < 10 {
        seq![digit_char(n)]
    } else {
        digits_text(n / 10).push(digit_char(n % 10))
    }
}

/// The decimal text of `n`, with a leading `-` for a negative number.
pub open spec fn decimal_text(n: int) -> Seq<char> {
    if n < 0 {
        seq!['-'] + digits_text((-n) as nat)
    } else {
        digits_text(n as nat)
    }
}

/// The lower-case form of a text, as `str::to_lowercase` computes it.
pub uninterp spec fn lowercase(s: Seq<char>) -> Seq<char>;

/// A text without its leading and trailing white space, as `str::trim`
/// computes it.
pub uninterp spec fn trimmed(s: Seq<char>) -> Seq<char>;

/// The pieces of `s` between occurrences of `sep`, in order. A text without
/// `sep` is one piece; two adjacent separators enclose an empty piece.
pub open spec fn split_on(s: Seq<char>, sep: char) -> Seq<Seq<char>>
    decreases s.len(),
{
    if s.len() == 0 {
        seq![Seq::<char>::empty()]
    } else if s.last() == sep {
        split_on(s.drop_last(), sep).push(Seq::<char>::empty())
    } else {
        let before = split_on(s.drop_last(), sep);
        before.drop_last().push(before.last().push(s.last()))
    }
}

/// The characters of a text, one by one.
pub(crate) fn chars_of(s: &str) -> (r: Vec<char>)
    ensures
        r@ == s@,
{
    let mut chars: Vec<char> = Vec::new();
    for c in it: s.chars()
        invariant
            chars@ == it.seq().take(it.index() as int),
    {
        chars.push(c);
    }
    chars
}

/// Whether two texts hold the same characters in the same order.
pub(crate) fn same_text(a: &str, b: &str) -> (r: bool)
    ensures
        r == (a@ == b@),
{
    let left = chars_of(a);
    let right = chars_of(b);
    if left.len() != right.len() {
        return false;
    }
    let mut i: usize = 0;
    while i < left.len()
        invariant
            left@ == a@,
            right@ == b@,
            left@.len() == right@.len(),
            i <= left@.len(),
            forall|k: int| 0 <= k < i ==> left@[k] == right@[k],
        decreases left@.len() - i,
    {
        if left[i] != right[i] {
            return false;
        }
        i = i + 1;
    }
    proof {
        assert(a@ =~= b@);
    }
    true
}

/// Calls `str::to_lowercase`; the result is named by [`lowercase`].
#[verifier::external_body]
pub(crate) fn to_lowercase(s: &str) -> (r: String)
    ensures
        r@ == lowercase(s@),
{
    s.to_lowercase()
}

/// Calls `str::trim`; the result is named by [`trimmed`].
#[verifier::external_body]
pub(crate) fn trim(s: &str) -> (r: &str)
    ensures
        r@ == trimmed(s@),
{
    s.trim()
}

/// The digits at the front of a run of digits are worth no more than the
/// whole run.
proof fn lemma_digits_value_grows(s: Seq<char>, i: int)
    requires
        all_digits(s),
        0 <= i <= s.len(),
    ensures
        digits_value(s.subrange(0, i)) <= digits_value(s),
    decreases s.len() - i,
{
    if i < s.len() {
        lemma_digits_value_grows(s, i + 1);
        assert(s.subrange(0, i + 1).drop_last() =~= s.subrange(0, i));
    } else {
        assert(s.subrange(0, i) =~= s);
    }
}

/// Largest magnitude that [`parse_decimal`] reads.
const DECIMAL_LIMIT: i128 = 0x1_0000_0000_0000_0000;

/// Reads a decimal integer between `lo` and `hi`: an optional sign (`+`
/// always, `-` only where `signed`), then one or more ASCII digits and
/// nothing else.
fn parse_decimal(s: &str, signed: bool, lo: i128, hi: i128) -> (r: Option<i128>)
    requires
        -DECIMAL_LIMIT <= lo <= hi <= DECIMAL_LIMIT,
    ensures
        match r {
            Some(v) => decimal_reading(s@, signed, lo as int, hi as int) == Some(v as int),
            None => decimal_reading(s@, signed, lo as int, hi as int) is None,
        },
{
    let text = chars_of(s);
    let len = text.len();
    let negative = signed && len > 0 && text[0] == '-';
    let has_sign = len > 0 && (text[0] == '+' || negative);
    let from: usize = if has_sign {
        1
    } else {
        0
    };
    let ghost body = if has_sign {
        s@.subrange(1, len as int)
    } else {
        s@
    };
    let mut magnitude: i128 = 0;
    let mut i: usize = from;
    while i < len
        invariant
            len == text@.len(),
            text@ == s@,
            from <= i <= len,
            negative <==> (signed && s@.len() > 0 && s@[0] == '-'),
            has_sign <==> (s@.len() > 0 && (s@[0] == '+' || negative)),
            body == (if has_sign {
                s@.subrange(1, s@.len() as int)
            } else {
                s@
            }),
            body.len() == len - from,
            forall|k: int| 0 <= k < body.len() ==> body[k] == text@[from + k],
            all_digits(body.subrange(0, i - from)),
            magnitude == digits_value(body.subrange(0, i - from)),
            0 <= magnitude <= DECIMAL_LIMIT,
            -DECIMAL_LIMIT <= lo <= hi <= DECIMAL_LIMIT,
        decreases len - i,
    {
        let code = text[i] as u32;
        if code < 48 || code > 57 {
            proof {
                assert(!is_digit(body[i - from]));
            }
            return None;
        }
        let ghost read = body.subrange(0, i + 1 - from);
        proof {
            assert(read.drop_last() =~= body.subrange(0, i - from));
        }
        magnitude = magnitude * 10 + (code - 48) as i128;
        if magnitude > DECIMAL_LIMIT {
            proof {
                if all_digits(body) {
                    lemma_digits_value_grows(body, i + 1 - from);
                }
            }
            return None;
        }
        i = i + 1;
    }
    proof {
        assert(body.subrange(0, len - from) =~= body);
    }
    if i == from {
        return None;
    }
    let value = if negative {
        -magnitude
    } else {
        magnitude
    };
    if value < lo || value > hi {
        None
    } else {
        Some(value)
    }
}

/// Reads a `u16` as `str::parse` does: an optional `+`, then ASCII digits
/// whose value fits in sixteen bits; anything else is no number.
pub(crate) fn parse_u16(s: &str) -> (r: Option<u16>)
    ensures
        r is Some <==> decimal_reading(s@, false, 0, u16::MAX as int) is Some,
        r matches Some(v) ==> decimal_reading(s@, false, 0, u16::MAX as int) == Some(v as int),
{
    match parse_decimal(s, false, 0, u16::MAX as i128) {
        Some(v) => Some(v as u16),
        None => None,
    }
}

/// Reads a `usize` as `str::parse` does: an optional `+`, then ASCII digits
/// whose value fits in a `usize`; anything else is no number.
pub(crate) fn parse_usize(s: &str) -> (r: Option<usize>)
    ensures
        r is Some <==> decimal_reading(s@, false, 0, usize::MAX as int) is Some,
        r matches Some(v) ==> decimal_reading(s@, false, 0, usize::MAX as int) == Some(v as int),
{
    match parse_decimal(s, false, 0, usize::MAX as i128) {
        Some(v) => Some(v as usize),
        None => None,
    }
}

/// Reads an `i64` as `str::parse` does: an optional `+` or `-`, then ASCII
/// digits whose signed value fits in sixty-four bits; anything else is no
/// number.
pub(crate) fn parse_i64(s: &str) -> (r: Option<i64>)
    ensures
        r is Some <==> decimal_reading(s@, true, i64::MIN as int, i64::MAX as int) is Some,
        r matches Some(v) ==> decimal_reading(s@, true, i64::MIN as int, i64::MAX as int) == Some(
            v as int,
        ),
{
    match parse_decimal(s, true, i64::MIN as i128, i64::MAX as i128) {
        Some(v) => Some(v as i64),
        None => None,
    }
}

/// Reads an `i32` as `str::parse` does: an optional `+` or `-`, then ASCII
/// digits whose signed value fits in thirty-two bits; anything else is no
/// number.
pub(crate) fn parse_i32(s: &str) -> (r: Option<i32>)
    ensures
        r is Some <==> decimal_reading(s@, true, i32::MIN as int, i32::MAX as int) is Some,
        r matches Some(v) ==> decimal_reading(s@, true, i32::MIN as int, i32::MAX as int) == Some(
            v as int,
        ),
{
    match parse_decimal(s, true, i32::MIN as i128, i32::MAX as i128) {
        Some(v) => Some(v as i32),
        None => None,
    }
}

/// The text `"true"` or `"false"` as a boolean; any other text is none.
pub open spec fn bool_reading(s: Seq<char>) -> Option<bool> {
    if s == "true"@ {
        Some(true)
    } else if s == "false"@ {
        Some(false)
    } else {
        None
    }
}

/// Reads a boolean written as `true` or `false`.
pub fn parse_bool(s: &str) -> (r: Option<bool>)
    ensures
        r == bool_reading(s@),
{
    if same_text(s, "true") {
        Some(true)
    } else if same_text(s, "false") {
        Some(false)
    } else {
        None
    }
}

/// The one-character text of a digit below ten.
fn digit_str(d: u64) -> (r: &'static str)
    requires
        d < 10,
    ensures
        r@ == seq![digit_char(d as nat)],
{
    proof {
        reveal_strlit("0");
        reveal_strlit("1");
        reveal_strlit("2");
        reveal_strlit("3");
        reveal_strlit("4");
        reveal_strlit("5");
        reveal_strlit("6");
        reveal_strlit("7");
        reveal_strlit("8");
        reveal_strlit("9");
    }
    let r = if d == 0 {
        "0"
    } else if d == 1 {
        "1"
    } else if d == 2 {
        "2"
    } else if d == 3 {
        "3"
    } else if d == 4 {
        "4"
    } else if d == 5 {
        "5"
    } else if d == 6 {
        "6"
    } else if d == 7 {
        "7"
    } else if d == 8 {
        "8"
    } else {
        "9"
    };
    r
}

/// Appends the decimal digits of `n` to `out`.
fn push_digits(out: &mut String, n: u64)
    ensures
        final(out)@ == old(out)@ + digits_text(n as nat),
    decreases n,
{
    if n >= 10 {
        push_digits(out, n / 10);
    }
    out.append(digit_str(n % 10));
}

/// Writes `n` in decimal.
pub fn decimal_string(n: i64) -> (r: String)
    ensures
        r@ == decimal_text(n as int),
{
    let mut out = String::new();
    if n < 0 {
        proof {
            reveal_strlit("-");
        }
        out.append("-");
        let magnitude: u64 = if n == i64::MIN {
            9223372036854775808u64
        } else {
            (-n) as u64
        };
        push_digits(&mut out, magnitude);
    } else {
        push_digits(&mut out, n as u64);
    }
    out
}

/// Splits `s` at every `sep`, keeping empty pieces.
pub fn split(s: &str, sep: char) -> (r: Vec<String>)
    ensures
        r.deep_view() == split_on(s@, sep),
{
    let len = s.unicode_len();
    let mut pieces: Vec<String> = Vec::new();
    let mut start: usize = 0;
    let mut i: usize = 0;
    proof {
        assert(s@.subrange(0, 0) =~= Seq::<char>::empty());
    }
    while i < len
        invariant
            len == s@.len(),
            start <= i <= len,
            split_on(s@.subrange(0, i as int), sep) == pieces.deep_view().push(
                s@.subrange(start as int, i as int),
            ),
        decreases len - i,
    {
        let c = s.get_char(i);
        let ghost before = s@.subrange(0, i as int);
        let ghost next = s@.subrange(0, i + 1);
        proof {
            assert(next.drop_last() =~= before);
        }
        if c == sep {
            let piece = String::from_str(s.substring_char(start, i));
            pieces.push(piece);
            proof {
                assert(s@.subrange(i + 1, i + 1) =~= Seq::<char>::empty());
            }
            start = i + 1;
        } else {
            proof {
                let prior = split_on(before, sep);
                assert(prior.last().push(c) =~= s@.subrange(start as int, i + 1));
            }
        }
        i = i + 1;
    }
    let last = String::from_str(s.substring_char(start, len));
    pieces.push(last);
    proof {
        assert(s@.subrange(0, len as int) =~= s@);
    }
    pieces
}

} // verus!
