//! Points in time, written as text, turned into milliseconds since the
//! first of January 1970 UTC.
use vstd::prelude::*;

verus! {

/// The start of the day that `text` names in the form year-month-day, in
/// milliseconds since the epoch, as the calendar library reads it; `None`
/// where it does not read `text` as a date.
pub uninterp spec fn day_start_millis(text: Seq<char>) -> Option<int>;

/// The instant that `text` names in the form of RFC 3339, in milliseconds
/// since the epoch, as the calendar library reads it; `None` where it does
/// not read `text` as an instant.
pub uninterp spec fn rfc3339_millis(text: Seq<char>) -> Option<int>;

/// Reads a date with `chrono::NaiveDate::parse_from_str` and the format
/// `%Y-%m-%d`, and converts midnight of that day, taken as UTC, with
/// `timestamp_millis`. Trusted: the result is what `day_start_millis`
/// names, and nothing more is claimed of it.
#[verifier::external_body]
pub(crate) fn parse_day_start(text: &str) -> (r: Option<i64>)
    ensures
        day_start_millis(text@) == match r {
            Some(ms) => Some(ms as int),
            None => None,
        },
{
    match chrono::NaiveDate::parse_from_str(text, "%Y-%m-%d") {
        Ok(date) => match date.and_hms_opt(0, 0, 0) {
            Some(midnight) => Some(midnight.and_utc().timestamp_millis()),
            None => None,
        },
        Err(_) => None,
    }
}

/// Reads an instant with `chrono::DateTime::parse_from_rfc3339` and
/// converts it with `timestamp_millis`. Trusted: the result is what
/// `rfc3339_millis` names, and nothing more is claimed of it.
#[verifier::external_body]
pub(crate) fn parse_rfc3339(text: &str) -> (r: Option<i64>)
    ensures
        rfc3339_millis(text@) == match r {
            Some(ms) => Some(ms as int),
            None => None,
        },
{
    match chrono::DateTime::parse_from_rfc3339(text) {
        Ok(instant) => Some(instant.timestamp_millis()),
        Err(_) => None,
    }
}

} // verus!
