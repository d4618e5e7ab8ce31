//! What this library relies on when it hands text to the standard library:
//! appending to a string, trimming, splitting at commas and reading decimal
//! numbers.

use std::time::Duration;
use vstd::prelude::*;

verus! {

/// `String::push`: the character is appended to the end of the string.
#[verifier::external_body]
pub(crate) fn push_char(text: &mut String, c: char)
    ensures
        final(text)@ == old(text)@.push(c),
{
    text.push(c)
}

/// What `str::trim` leaves of a text: the text without the whitespace at its
/// start and at its end, where Unicode's `White_Space` property says what
/// whitespace is.
pub uninterp spec fn trimmed(text: Seq<char>) -> Seq<char>;

/// Whether `c` is a visible character of ASCII: any from `'!'` to `'~'`.
/// None of them is whitespace.
pub open spec fn is_graphic(c: char) -> bool {
    '!' <= c && c <= '~'
}

/// Whether a text has nothing to trim for certain: it is empty, or it
/// begins and ends with a visible character of ASCII.
pub open spec fn is_trim(text: Seq<char>) -> bool {
    text.len() == 0 || (is_graphic(text[0]) && is_graphic(text.last()))
}

/// `str::trim`: the text without the whitespace around it. The contract
/// gives that result its name, and says of it only that a text which is
/// empty, or begins and ends with a visible character of ASCII, comes back
/// as it is.
#[verifier::external_body]
pub(crate) fn trim(text: &str) -> (inner: &str)
    ensures
        inner@ == trimmed(text@),
        is_trim(text@) ==> inner@ == text@,
{
    text.trim()
}

/// The pieces of a text between its commas. The empty text is one empty
/// piece; a comma closes the piece before it and opens an empty one; any
/// other character extends the last piece.
pub open spec fn pieces(text: Seq<char>) -> Seq<Seq<char>>
    decreases text.len(),
{
    if text.len() == 0 {
        seq![Seq::empty()]
    } else {
        let before = pieces(text.drop_last());
        if text.last() == ',' {
            before.push(Seq::empty())
        } else {
            before.drop_last().push(before.last().push(text.last()))
        }
    }
}

/// `str::split` at `','`: the pieces between the commas, from the left,
/// empty ones included.
#[verifier::external_body]
pub(crate) fn split_commas(text: &str) -> (parts: Vec<&str>)
    ensures
        parts@.len() == pieces(text@).len(),
        forall|i: int| 0 <= i < parts@.len() ==> parts@[i]@ == pieces(text@)[i],
{
    text.split(',').collect()
}

/// Whether `c` is one of the ten decimal digits.
pub open spec fn is_digit(c: char) -> bool {
    '0' <= c && c <= '9'
}

/// Whether the text holds decimal digits and nothing else.
pub open spec fn all_digits(text: Seq<char>) -> bool {
    forall|i: int| 0 <= i < text.len() ==> is_digit(#[trigger] text[i])
}

/// The number that a sequence of decimal digits writes.
pub open spec fn digits_value(digits: Seq<char>) -> nat
    decreases digits.len(),
{
    if digits.len() == 0 {
        0
    } else {
        (digits_value(digits.drop_last()) * 10 + (digits.last() as u32 - '0' as u32)) as nat
    }
}

/// The unsigned number that a text writes, when it writes one that is at
/// most `max`: one or more decimal digits, after at most one `+`, and
/// nothing else.
pub open spec fn number(text: Seq<char>, max: nat) -> Option<nat> {
    let digits = if text.len() > 0 && text[0] == '+' {
        text.skip(1)
    } else {
        text
    };
    if digits.len() > 0 && all_digits(digits) && digits_value(digits) <= max {
        Some(digits_value(digits))
    } else {
        None
    }
}

/// `str::parse` to a `usize`: the number that the text writes in decimal
/// digits, with or without a `+` before them, and nothing for a text that
/// writes none or one too large for a `usize`.
#[verifier::external_body]
pub(crate) fn parse_usize(text: &str) -> (n: Option<usize>)
    ensures
        n == (match number(text@, usize::MAX as nat) {
            Some(value) => Some(value as usize),
            None => None,
        }),
{
    text.parse::<usize>().ok()
}

/// `str::parse` to a `u64`: the number that the text writes in decimal
/// digits, with or without a `+` before them, and nothing for a text that
/// writes none or one too large for a `u64`.
#[verifier::external_body]
pub(crate) fn parse_u64(text: &str) -> (n: Option<u64>)
    ensures
        n == (match number(text@, u64::MAX as nat) {
            Some(value) => Some(value as u64),
            None => None,
        }),
{
    text.parse::<u64>().ok()
}

/// The span of time that `Duration::from_millis` makes of a number of
/// milliseconds.
pub uninterp spec fn millis(ms: u64) -> Duration;

/// `Duration::from_millis`: the span of that many milliseconds. The
/// contract gives that result its name and says no more of it.
#[verifier::external_body]
pub(crate) fn duration_from_millis(ms: u64) -> (span: Duration)
    ensures
        span == millis(ms),
{
    Duration::from_millis(ms)
}

} // verus!
