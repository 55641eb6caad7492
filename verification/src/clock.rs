//! The wall clock of the machine, read as text.

use vstd::prelude::*;
use vstd::string::*;

verus! {

/// The letters that name a field of date or time in a pattern.
pub open spec fn is_field_letter(c: char) -> bool {
    c == 'H' || c == 'M' || c == 'S' || c == 'd' || c == 'm' || c == 'Y'
}

/// A pattern that the clock can fill in: every `%` in it is followed by the
/// letter of a field (hour, minute, second, day, month or year).
pub open spec fn is_stamp_pattern(pattern: Seq<char>) -> bool {
    forall|i: int|
        0 <= i < pattern.len() && pattern[i] == '%' ==> i + 1 < pattern.len() && is_field_letter(
            #[trigger] pattern[i + 1],
        )
}

/// A decimal digit.
pub open spec fn is_digit(c: char) -> bool {
    '0' <= c <= '9'
}

/// A time of day written as two digits each for hour, minute and second,
/// with colons between them.
pub open spec fn is_clock_text(text: Seq<char>) -> bool {
    &&& text.len() == 8
    &&& is_digit(text[0])
    &&& is_digit(text[1])
    &&& text[2] == ':'
    &&& is_digit(text[3])
    &&& is_digit(text[4])
    &&& text[5] == ':'
    &&& is_digit(text[6])
    &&& is_digit(text[7])
}

/// A year as the clock writes it: at least four digits, behind a sign where
/// the year lies before the year 0 or after the year 9999.
pub open spec fn is_year_text(text: Seq<char>) -> bool {
    let digits = if text.len() > 0 && (text[0] == '+' || text[0] == '-') {
        text.skip(1)
    } else {
        text
    };
    digits.len() >= 4 && forall|i: int| 0 <= i < digits.len() ==> is_digit(#[trigger] digits[i])
}

/// A date and time written as day, month and year with hyphens between
/// them, a space, and hour, minute and second with hyphens between them; all
/// but the year have two digits.
pub open spec fn is_stamp_text(text: Seq<char>) -> bool {
    let n = text.len() as int;
    &&& n >= 19
    &&& is_digit(text[0])
    &&& is_digit(text[1])
    &&& text[2] == '-'
    &&& is_digit(text[3])
    &&& is_digit(text[4])
    &&& text[5] == '-'
    &&& is_year_text(text.subrange(6, n - 9))
    &&& text[n - 9] == ' '
    &&& is_digit(text[n - 8])
    &&& is_digit(text[n - 7])
    &&& text[n - 6] == '-'
    &&& is_digit(text[n - 5])
    &&& is_digit(text[n - 4])
    &&& text[n - 3] == '-'
    &&& is_digit(text[n - 2])
    &&& is_digit(text[n - 1])
}

/// The pattern of a time of day.
pub open spec fn clock_pattern() -> Seq<char> {
    "%H:%M:%S"@
}

/// The pattern of the date and time that name a recording.
pub open spec fn stamp_pattern() -> Seq<char> {
    "%d-%m-%Y %H-%M-%S"@
}

/// Reads the local time with `chrono::Local::now` and writes it out with
/// `chrono::DateTime::format`, which fills the fields of `pattern` in.
///
/// Not proved. The contract claims that the call returns for every pattern
/// whose fields are among hour, minute, second, day, month and year, and that
/// it writes each of these fields but the year with two digits, zero-padded,
/// the year with four digits or more (behind a sign outside 0..=9999), and
/// the other characters of the pattern as they are. This is stated for the
/// two patterns that the library uses. The call reads the system clock, so
/// the text differs from call to call.
#[verifier::external_body]
fn local_time_text(pattern: &str) -> (text: String)
    requires
        is_stamp_pattern(pattern@),
    ensures
        pattern@ == clock_pattern() ==> is_clock_text(text@),
        pattern@ == stamp_pattern() ==> is_stamp_text(text@),
{
    chrono::Local::now().format(pattern).to_string()
}

/// The local time of day at the moment of the call, as `hh:mm:ss`.
pub fn clock_text() -> (text: String)
    ensures
        is_clock_text(text@),
{
    proof {
        reveal_strlit("%H:%M:%S");
    }
    local_time_text("%H:%M:%S")
}

/// The local date and time at the moment of the call, as day-month-year
/// hour-minute-second.
pub fn stamp_text() -> (text: String)
    ensures
        is_stamp_text(text@),
{
    proof {
        reveal_strlit("%d-%m-%Y %H-%M-%S");
    }
    local_time_text("%d-%m-%Y %H-%M-%S")
}

} // verus!
