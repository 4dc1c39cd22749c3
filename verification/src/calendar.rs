//! The calendar and the clock, as far as the library needs them.
//!
//! Everything here is a thin call into the `chrono` crate. Instants go in and
//! come out as milliseconds since the epoch. What depends on the time zone of
//! the machine is stated only as far as it holds in every time zone; those
//! calls rely on the machine's time-zone data being readable.

use chrono::{Datelike, TimeZone, Timelike};
use vstd::prelude::*;

use crate::model::time::is_instant;

verus! {

/// What `chrono::DateTime::parse_from_str` makes of `text` under the
/// format `format`: the instant that the text names, or nothing where the
/// text does not follow the format.
pub uninterp spec fn parsed_instant(text: Seq<char>, format: Seq<char>) -> Option<i64>;

/// What `chrono::DateTime::<Utc>::format` writes for `instant` under the
/// pattern `pattern`, or nothing where the pattern cannot be written.
pub uninterp spec fn utc_text(instant: i64, pattern: Seq<char>) -> Option<Seq<char>>;

/// The instant now.
///
/// Calls `chrono::Utc::now` and reads it with `DateTime::timestamp_millis`.
/// Nothing is claimed about the clock.
#[verifier::external_body]
pub(crate) fn current_instant() -> (now: i64) {
    chrono::Utc::now().timestamp_millis()
}

/// The instant at which the local clock shows `hour` o'clock on the local
/// day that `instant` falls on.
///
/// Calls `chrono::TimeZone::with_ymd_and_hms` on `chrono::Local` with the
/// local date of `instant`, and hands out the result only where it is a single
/// instant: there is none where the local clock skips or repeats that time.
/// Nothing is claimed about the instant that comes back.
#[verifier::external_body]
pub(crate) fn local_time_on_day_of(instant: i64, hour: u32) -> (at: Option<i64>)
    requires
        is_instant(instant as int),
        hour < 24,
{
    let local = chrono::DateTime::from_timestamp_millis(instant)?.with_timezone(&chrono::Local);
    chrono::Local.with_ymd_and_hms(local.year(), local.month(), local.day(), hour, 0, 0).single().map(
        |at| at.timestamp_millis(),
    )
}

/// The day of the week on which `instant` falls in local time, counted from Monday as 0.
///
/// Calls `chrono::Datelike::weekday` on the local time of `instant` and
/// `Weekday::num_days_from_monday`, which returns a number from 0 to 6.
#[verifier::external_body]
pub(crate) fn local_weekday(instant: i64) -> (days_from_monday: Option<u32>)
    requires
        is_instant(instant as int),
    ensures
        days_from_monday matches Some(days) ==> days < 7,
{
    let local = chrono::DateTime::from_timestamp_millis(instant)?.with_timezone(&chrono::Local);
    Some(local.weekday().num_days_from_monday())
}

/// The hour that the local clock shows at `instant`.
///
/// Calls `chrono::Timelike::hour` on the local time of `instant`, which
/// returns a number from 0 to 23.
#[verifier::external_body]
pub(crate) fn local_hour(instant: i64) -> (hour: Option<u32>)
    requires
        is_instant(instant as int),
    ensures
        hour matches Some(shown) ==> shown < 24,
{
    let local = chrono::DateTime::from_timestamp_millis(instant)?.with_timezone(&chrono::Local);
    Some(local.hour())
}

/// The local date and time of `instant`, written under `pattern`.
///
/// Calls `chrono::DateTime::format` on the local time of `instant` and
/// writes the result into a string; there is no text where the pattern
/// cannot be written. Nothing is claimed about the text.
#[verifier::external_body]
pub(crate) fn format_local(instant: i64, pattern: &str) -> (text: Option<String>)
    requires
        is_instant(instant as int),
{
    let local = chrono::DateTime::from_timestamp_millis(instant)?.with_timezone(&chrono::Local);
    let mut text = String::new();
    match local.format(pattern).write_to(&mut text) {
        Ok(()) => Some(text),
        Err(_) => None,
    }
}

/// The date and time of `instant` in UTC, written under `pattern`.
///
/// Calls `chrono::DateTime::format` on `instant` and writes the result into
/// a string; there is no text where the pattern cannot be written. The text
/// depends on the instant and the pattern alone.
#[verifier::external_body]
pub(crate) fn format_utc(instant: i64, pattern: &str) -> (text: Option<String>)
    requires
        is_instant(instant as int),
    ensures
        match text {
            Some(written) => utc_text(instant, pattern@) == Some(written@),
            None => utc_text(instant, pattern@) is None,
        },
{
    let at = chrono::DateTime::from_timestamp_millis(instant)?;
    let mut text = String::new();
    match at.format(pattern).write_to(&mut text) {
        Ok(()) => Some(text),
        Err(_) => None,
    }
}

/// The instant that `text` names under the format `format`.
///
/// Calls `chrono::DateTime::parse_from_str`, which needs the text to name
/// its offset from UTC, and reads the result with
/// `DateTime::timestamp_millis`. The result depends on the text and the
/// format alone.
#[verifier::external_body]
pub(crate) fn parse_instant(text: &str, format: &str) -> (at: Option<i64>)
    ensures
        at == parsed_instant(text@, format@),
{
    match chrono::DateTime::parse_from_str(text, format) {
        Ok(parsed) => Some(parsed.timestamp_millis()),
        Err(_) => None,
    }
}

} // verus!
