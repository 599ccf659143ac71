//! The text of a modification time, in the time zone of the machine.

use vstd::prelude::*;
use vstd::string::*;

use crate::entry::Timestamp;

verus! {

/// Whether chrono has a calendar date and time for the instant that lies
/// `secs` seconds and `nanos` nanoseconds after the Unix epoch: whether
/// `chrono::DateTime::from_timestamp(secs, nanos)` is `Some`.
pub uninterp spec fn has_calendar_time(secs: i64, nanos: u32) -> bool;

/// The pattern of the text: year, month, day, hour and minute.
pub open spec fn minute_pattern() -> Seq<char> {
    "%Y-%m-%d %H:%M"@
}

/// Whether `c` is a decimal digit.
pub open spec fn is_digit(c: char) -> bool {
    c == '0' || c == '1' || c == '2' || c == '3' || c == '4' || c == '5' || c == '6' || c == '7'
        || c == '8' || c == '9'
}

/// Whether `text` has the shape of a date and a time to the minute,
/// `YYYY-MM-DD HH:MM`: month, day, hour and minute of two digits each, after
/// a year of four digits, or of a sign and four digits or more.
pub open spec fn is_minute_text(text: Seq<char>) -> bool {
    let year = text.len() - 12;
    &&& text.len() >= 16
    &&& (is_digit(text[0]) && year == 4) || ((text[0] == '+' || text[0] == '-') && year >= 5)
    &&& forall|i: int| 1 <= i < year ==> is_digit(#[trigger] text[i])
    &&& text[year] == '-'
    &&& is_digit(text[year + 1])
    &&& is_digit(text[year + 2])
    &&& text[year + 3] == '-'
    &&& is_digit(text[year + 4])
    &&& is_digit(text[year + 5])
    &&& text[year + 6] == ' '
    &&& is_digit(text[year + 7])
    &&& is_digit(text[year + 8])
    &&& text[year + 9] == ':'
    &&& is_digit(text[year + 10])
    &&& is_digit(text[year + 11])
}

/// Makes the instant with `chrono::DateTime::from_timestamp`, moves it
/// into the zone `chrono::Local` with `DateTime::with_timezone`, and writes
/// it with `DateTime::format` and `to_string`.
///
/// Trusted: there is a text exactly when `from_timestamp` has a date and
/// time for the instant, and the text has the shape that chrono documents
/// for the parts of the pattern: `%Y` gives four digits, or a sign and at
/// least four digits for a year outside 0 to 9999; `%m`, `%d`, `%H` and
/// `%M` give two digits each. Which date and time the text shows is not
/// claimed: it depends on the time zone of the machine. The pattern is held
/// to the one of this library, whose parts chrono can all write. chrono
/// stops the program where the time zone data of the machine gives no
/// usable offset for the instant.
#[verifier::external_body]
fn local_text(secs: i64, nanos: u32, pattern: &str) -> (text: Option<String>)
    requires
        pattern@ == minute_pattern(),
    ensures
        text is Some <==> has_calendar_time(secs, nanos),
        text is Some ==> is_minute_text(text->Some_0@),
{
    match chrono::DateTime::from_timestamp(secs, nanos) {
        Some(utc) => Some(utc.with_timezone(&chrono::Local).format(pattern).to_string()),
        None => None,
    }
}

/// The local date and time of `at`, to the minute, as `YYYY-MM-DD HH:MM`;
/// nothing where the instant lies outside the calendar.
pub fn format_modified(at: Timestamp) -> (text: Option<String>)
    ensures
        text is Some <==> has_calendar_time(at.secs, at.nanos),
        text is Some ==> is_minute_text(text->Some_0@),
{
    local_text(at.secs, at.nanos, "%Y-%m-%d %H:%M")
}

/// The failure that is reported of an entry whose modification time has
/// no text.
pub open spec fn time_error() -> Seq<char> {
    "modification time out of range"@
}

/// The text of [`time_error`].
pub(crate) fn time_error_text() -> (text: String)
    ensures
        text@ == time_error(),
{
    String::from_str("modification time out of range")
}

} // verus!
