use vstd::prelude::*;
use crate::lexer::{is_digit, same_letter, spells};
use crate::text::chars_of;

verus! {

/// The value of a run of decimal digits; 0 for the empty run.
pub open spec fn digits_value(s: Seq<char>) -> int
    decreases s.len(),
{
    if s.len() == 0 {
        0
    } else {
        digits_value(s.drop_last()) * 10 + (s.last() as int - '0' as int)
    }
}

/// Every character is an ASCII digit.
pub open spec fn all_digits(s: Seq<char>) -> bool {
    forall|i: int| 0 <= i < s.len() ==> is_digit(#[trigger] s[i])
}

/// Whether the text starts with a sign.
pub open spec fn signed(s: Seq<char>) -> bool {
    s.len() > 0 && (s[0] == '+' || s[0] == '-')
}

/// The integer that a text denotes: an optional sign, then at least one
/// decimal digit and nothing else, with a value that fits in 64 bits.
pub open spec fn int_of_text(s: Seq<char>) -> Option<i64> {
    let digits = if signed(s) {
        s.drop_first()
    } else {
        s
    };
    let value = if s.len() > 0 && s[0] == '-' {
        -digits_value(digits)
    } else {
        digits_value(digits)
    };
    if digits.len() > 0 && all_digits(digits) && i64::MIN <= value <= i64::MAX {
        Some(value as i64)
    } else {
        None
    }
}

/// Reads a 64-bit integer from its decimal text.
///
/// Wraps `str::parse::<i64>` of the standard library, which accepts an
/// optional sign followed by decimal digits, and rejects the empty text, a
/// text with any other character, and a value outside the 64-bit range.
#[verifier::external_body]
pub(crate) fn parse_int(text: &str) -> (r: Option<i64>)
    ensures
        r == int_of_text(text@),
{
    match text.parse::<i64>() {
        Ok(v) => Some(v),
        Err(_) => None,
    }
}

/// The index at which the run of digits that starts at `from` ends.
pub open spec fn digits_end(s: Seq<char>, from: int) -> int
    decreases s.len() - from,
{
    if 0 <= from < s.len() && is_digit(s[from]) {
        digits_end(s, from + 1)
    } else {
        from
    }
}

/// An exponent stands at `at` and runs to the end of the text: `e` or `E`,
/// an optional sign, and at least one digit.
pub open spec fn exponent_at(s: Seq<char>, at: int) -> bool {
    let digits = if at + 1 < s.len() && (s[at + 1] == '+' || s[at + 1] == '-') {
        at + 2
    } else {
        at + 1
    };
    0 <= at < s.len() && (s[at] == 'e' || s[at] == 'E') && digits_end(s, digits) > digits
        && digits_end(s, digits) == s.len()
}

/// A decimal number stands at `start` and runs to the end of the text:
/// digits with at most one `.` among them, at least one digit in all, and
/// an optional exponent.
pub open spec fn decimal_at(s: Seq<char>, start: int) -> bool {
    let whole = digits_end(s, start);
    let dot = whole < s.len() && s[whole] == '.';
    let end = if dot {
        digits_end(s, whole + 1)
    } else {
        whole
    };
    let digits = if dot {
        end - start - 1
    } else {
        end - start
    };
    digits > 0 && (end == s.len() || exponent_at(s, end))
}

/// Whether a text is the decimal form of a floating-point number: an
/// optional sign, then `inf`, `infinity` or `nan` in any case, or a decimal
/// number.
pub open spec fn float_text(s: Seq<char>) -> bool {
    let start: int = if signed(s) {
        1
    } else {
        0
    };
    spells(s.skip(start), "inf"@) || spells(s.skip(start), "infinity"@) || spells(
        s.skip(start),
        "nan"@,
    ) || decimal_at(s, start)
}

fn scan_digits(text: &Vec<char>, from: usize) -> (end: usize)
    requires
        from <= text.len(),
    ensures
        end == digits_end(text@, from as int),
        from <= end <= text.len(),
{
    let mut i: usize = from;
    while i < text.len() && text[i] >= '0' && text[i] <= '9'
        invariant
            from <= i <= text.len(),
            digits_end(text@, from as int) == digits_end(text@, i as int),
        decreases text.len() - i,
    {
        i += 1;
    }
    i
}

fn spells_from(text: &Vec<char>, start: usize, word: &str) -> (r: bool)
    requires
        start <= text.len(),
    ensures
        r == spells(text@.skip(start as int), word@),
{
    let n: usize = word.unicode_len();
    if text.len() - start != n {
        return false;
    }
    let ghost tail = text@.skip(start as int);
    let mut i: usize = 0;
    while i < n
        invariant
            i <= n,
            start + n == text.len(),
            n == word@.len(),
            tail == text@.skip(start as int),
            forall|j: int| 0 <= j < i ==> same_letter(#[trigger] tail[j], word@[j]),
        decreases n - i,
    {
        let c: char = text[start + i];
        let w: char = word.get_char(i);
        assert(tail[i as int] == c);
        let same: bool = c == w || (c >= 'A' && c <= 'Z' && c as u32 + 32 == w as u32);
        if !same {
            return false;
        }
        i += 1;
    }
    true
}

fn is_sign(c: char) -> (r: bool)
    ensures
        r == (c == '+' || c == '-'),
{
    c == '+' || c == '-'
}

/// Decides whether a text is the decimal form of a floating-point number.
pub fn is_float_text(text: &str) -> (r: bool)
    ensures
        r == float_text(text@),
{
    let chars = chars_of(text);
    let n: usize = chars.len();
    let start: usize = if n > 0 && is_sign(chars[0]) {
        1
    } else {
        0
    };
    if spells_from(&chars, start, "inf") || spells_from(&chars, start, "infinity") || spells_from(
        &chars,
        start,
        "nan",
    ) {
        return true;
    }
    let whole: usize = scan_digits(&chars, start);
    let dot: bool = whole < n && chars[whole] == '.';
    let end: usize = if dot {
        scan_digits(&chars, whole + 1)
    } else {
        whole
    };
    let digits: usize = if dot {
        end - start - 1
    } else {
        end - start
    };
    if digits == 0 {
        return false;
    }
    if end == n {
        return true;
    }
    if !(chars[end] == 'e' || chars[end] == 'E') {
        return false;
    }
    let first: usize = if end + 1 < n && is_sign(chars[end + 1]) {
        end + 2
    } else {
        end + 1
    };
    let last: usize = scan_digits(&chars, first);
    last > first && last == n
}

} // verus!
