//! Calendar dates: reading a `YYYY-MM-DD` booking date, the UTC day of an
//! event's timestamp, and the one comparator that decides whether a booking
//! lands on a day other than the event's own.

use vstd::prelude::*;

verus! {

/// A calendar date of the proleptic Gregorian calendar.
#[derive(Clone, Copy, Debug, PartialEq, Eq, Structural)]
pub struct CalendarDate {
    pub year: i32,
    pub month: u32,
    pub day: u32,
}

/// The date that a `YYYY-MM-DD` string denotes, if it denotes one.
pub uninterp spec fn parsed_date(s: Seq<char>) -> Option<CalendarDate>;

/// The UTC calendar day that contains the instant `ms` milliseconds after the
/// Unix epoch, if that instant is within the representable range.
pub uninterp spec fn utc_date_of_millis(ms: int) -> Option<CalendarDate>;

/// Relies on chrono's `NaiveDate::parse_from_str` with the pattern `%Y-%m-%d`,
/// whose result depends on the text alone.
#[verifier::external_body]
fn parse_date(s: &str) -> (r: Option<CalendarDate>)
    ensures
        r == parsed_date(s@),
{
    match chrono::NaiveDate::parse_from_str(s, "%Y-%m-%d") {
        Ok(d) => Some(CalendarDate {
            year: chrono::Datelike::year(&d),
            month: chrono::Datelike::month(&d),
            day: chrono::Datelike::day(&d),
        }),
        Err(_) => None,
    }
}

/// Relies on chrono's `DateTime::from_timestamp_millis` and
/// `DateTime::date_naive`: the UTC day of a millisecond timestamp.
#[verifier::external_body]
fn date_of_millis(ms: i64) -> (r: Option<CalendarDate>)
    ensures
        r == utc_date_of_millis(ms as int),
{
    match chrono::DateTime::from_timestamp_millis(ms) {
        Some(t) => {
            let d = t.date_naive();
            Some(CalendarDate {
                year: chrono::Datelike::year(&d),
                month: chrono::Datelike::month(&d),
                day: chrono::Datelike::day(&d),
            })
        },
        None => None,
    }
}

/// Whether two dates are the same day; `None` when either is missing.
pub open spec fn same_day_of(a: Option<CalendarDate>, b: Option<CalendarDate>) -> Option<bool> {
    match (a, b) {
        (Some(x), Some(y)) => Some(x == y),
        _ => None,
    }
}

/// Whether an event that happened at `ms` and a booking onto `to_date` fall
/// on the same calendar day; `None` when either date cannot be read.
pub open spec fn same_day_spec(ms: int, to_date: Seq<char>) -> Option<bool> {
    same_day_of(utc_date_of_millis(ms), parsed_date(to_date))
}

/// Whether a booking onto `to_date` of an event that happened at `ms` must be
/// recorded in the membership of that day: the two days differ.
pub open spec fn attach_spec(ms: int, to_date: Seq<char>) -> Option<bool> {
    match same_day_spec(ms, to_date) {
        Some(same) => Some(!same),
        None => None,
    }
}

/// Whether `s` is a date in the form `YYYY-MM-DD`.
pub fn is_valid_date(s: &str) -> (r: bool)
    ensures
        r == parsed_date(s@).is_some(),
{
    parse_date(s).is_some()
}

/// Compares two dates that may be missing.
pub fn same_day(a: Option<CalendarDate>, b: Option<CalendarDate>) -> (r: Option<bool>)
    ensures
        r == same_day_of(a, b),
{
    match (a, b) {
        (Some(x), Some(y)) => Some(x == y),
        _ => None,
    }
}

/// Whether the event timestamp `timestamp` (milliseconds since the epoch) and
/// the booking date `datestring` denote the same UTC calendar day. `None` when
/// the timestamp is out of range or the string is no `YYYY-MM-DD` date.
pub fn compare(timestamp: i64, datestring: &str) -> (r: Option<bool>)
    ensures
        r == same_day_spec(timestamp as int, datestring@),
{
    same_day(date_of_millis(timestamp), parse_date(datestring))
}

/// Whether a booking onto `to_date` must appear in that day's membership:
/// exactly when the day differs from the event's own day. This is the single
/// comparator of the create and the delete flow.
pub fn should_attach_to_day(occurrence_ms: i64, to_date: &str) -> (r: Option<bool>)
    ensures
        r == attach_spec(occurrence_ms as int, to_date@),
{
    match compare(occurrence_ms, to_date) {
        Some(same) => Some(!same),
        None => None,
    }
}

} // verus!
