//! The modification-time column, shown in the local time zone of the machine.

use std::fmt::Write;
use vstd::prelude::*;
use crate::entry::Timestamp;

verus! {

/// How a modification time is shown: abbreviated month, day of the month
/// padded with a blank, and hours and minutes on the 24-hour clock.
pub const MODIFIED_PATTERN: &'static str = "%b %e %H:%M";

/// Whether `c` is a letter of the Latin alphabet.
pub open spec fn is_letter(c: char) -> bool {
    ('a' <= c && c <= 'z') || ('A' <= c && c <= 'Z')
}

/// Whether `c` is a decimal digit.
pub open spec fn is_digit(c: char) -> bool {
    '0' <= c && c <= '9'
}

/// Whether `text` has the form of `MODIFIED_PATTERN`: three letters for the
/// month, a blank, the day in two places with a blank before a single digit,
/// a blank, and hours and minutes in two digits each with a colon between
/// them.
pub open spec fn is_month_day_time(text: Seq<char>) -> bool {
    &&& text.len() == 12
    &&& is_letter(text[0]) && is_letter(text[1]) && is_letter(text[2])
    &&& text[3] == ' '
    &&& (text[4] == ' ' || is_digit(text[4])) && is_digit(text[5])
    &&& text[6] == ' '
    &&& is_digit(text[7]) && is_digit(text[8])
    &&& text[9] == ':'
    &&& is_digit(text[10]) && is_digit(text[11])
}

/// Whether the calendar can show the instant that lies `secs` seconds and
/// `nanos` nanoseconds from the epoch: it is within eight million million
/// seconds of the epoch, some 253,000 years to either side.
pub open spec fn is_calendar_time(secs: int, nanos: int) -> bool {
    -8_000_000_000_000 <= secs <= 8_000_000_000_000 && 0 <= nanos < 1_000_000_000
}

/// Whether the calendar can show `instant`, given in nanoseconds since the
/// epoch.
pub open spec fn is_calendar_instant(instant: int) -> bool {
    is_calendar_time(instant / 1_000_000_000, instant % 1_000_000_000)
}

/// Turns an instant into text with chrono: `DateTime::from_timestamp` makes
/// the instant, `DateTime::with_timezone` moves it to `Local`, and
/// `DateTime::format` lays it out after `pattern`. It gives none where chrono
/// cannot hold the instant or cannot follow the pattern. Which month, day,
/// hour and minute the text shows depends on the time zone the machine is
/// set to, and nothing is claimed of that. Two things are claimed, both for
/// `MODIFIED_PATTERN` alone. The text has the form of the pattern: chrono
/// writes `%b` as a month name of three letters, `%e` as the day in two
/// places padded with a blank, `%H` and `%M` in two digits each, and the
/// blanks and the colon as they stand. And there is a text for every instant
/// within eight million million seconds of the epoch: chrono holds every
/// instant from the year 262144 BCE to the year 262142 CE.
#[verifier::external_body]
fn format_local_time(secs: i64, nanos: u32, pattern: &str) -> (text: Option<String>)
    ensures
        text matches Some(shown) ==> (pattern@ == MODIFIED_PATTERN@ ==> is_month_day_time(shown@)),
        pattern@ == MODIFIED_PATTERN@ && is_calendar_time(secs as int, nanos as int)
            ==> text is Some,
{
    let utc = chrono::DateTime::from_timestamp(secs, nanos)?;
    let mut text = String::new();
    match write!(text, "{}", utc.with_timezone(&chrono::Local).format(pattern)) {
        Ok(()) => Some(text),
        Err(_) => None,
    }
}

/// Whether a text can stand in the time column: it has the form of
/// `MODIFIED_PATTERN`, or it is empty where no time can be shown at all.
pub open spec fn is_time_text(text: Seq<char>) -> bool {
    text.len() == 0 || is_month_day_time(text)
}

/// The text that stands in the time column: the formatted modification time
/// where there is one; else the formatted present moment; else nothing.
pub open spec fn chosen_time_text(shown: Option<String>, now: Option<String>) -> Seq<char> {
    match shown {
        Some(text) => text@,
        None => match now {
            Some(text) => text@,
            None => Seq::empty(),
        },
    }
}

/// Picks the text of the time column from the formatted modification time
/// and the formatted present moment.
pub fn choose_time_text(shown: Option<String>, now: Option<String>) -> (text: String)
    ensures
        text@ == chosen_time_text(shown, now),
{
    match shown {
        Some(text) => text,
        None => match now {
            Some(text) => text,
            None => String::new(),
        },
    }
}

/// The time column for an entry modified at `modified`, in local time. An
/// instant that the calendar cannot show is replaced by the present moment
/// `now`, which the caller read from the clock. The column shows a time
/// wherever the calendar can show one of the two instants, and is empty only
/// where it can show neither.
pub fn modified_text(modified: Timestamp, now: Timestamp) -> (text: String)
    ensures
        is_time_text(text@),
        is_calendar_instant(modified@) || is_calendar_instant(now@) ==> is_month_day_time(text@),
{
    let shown = format_local_time(modified.secs(), modified.nanos(), MODIFIED_PATTERN);
    let present = if shown.is_none() {
        format_local_time(now.secs(), now.nanos(), MODIFIED_PATTERN)
    } else {
        None
    };
    choose_time_text(shown, present)
}

} // verus!
