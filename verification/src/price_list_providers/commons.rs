use std::sync::Arc;
use vstd::prelude::*;
use vstd::string::StringExecFns;

use crate::calendar::{local_time_on_day_of, parse_instant, parsed_instant};
use crate::model::errors::AppError;
use crate::model::price_list::PriceListItem;
use crate::model::time::{is_instant, is_valid_instant, MILLIS_PER_DAY};

verus! {

/// A source of price lists, one local day at a time.
///
/// The list for a day holds the cells of that day in order of time. A source
/// that has no prices for the day fails with a not-found error.
pub trait SingleDayPriceList {
    /// What the source may answer to a request for the day of `for_day`.
    /// A source that does not say is taken to answer anything.
    open spec fn may_answer(
        &self,
        for_day: i64,
        answer: Result<Arc<Vec<PriceListItem>>, AppError>,
    ) -> bool {
        true
    }

    fn get_price_list(
        &self,
        for_day: i64,
    ) -> (price_list: Result<Arc<Vec<PriceListItem>>, AppError>)
        ensures
            self.may_answer(for_day, price_list),
    ;
}

/// `start` may be the instant at which the local day of `date_time`
/// began: it lies at or before `date_time`, less than two days earlier, and
/// both lie within the supported range.
pub open spec fn may_be_start_of_day(start: i64, date_time: i64) -> bool {
    &&& is_instant(date_time as int)
    &&& is_instant(start as int)
    &&& start <= date_time < start + 2 * MILLIS_PER_DAY
}

/// What is made of the instant that the calendar gave as the local
/// midnight of the day of `date_time`: that instant, where it may be the
/// start of that day; none where the calendar gave none or one out of reach
/// of `date_time`.
pub open spec fn checked_start_of_day(date_time: i64, local_midnight: Option<i64>) -> Option<i64> {
    match local_midnight {
        Some(start) => if may_be_start_of_day(start, date_time) {
            Some(start)
        } else {
            None
        },
        None => None,
    }
}

/// What the calendar is asked for the start of the local day of
/// `date_time`: the instant whose local day is meant, and the hour of that
/// day, which is midnight.
pub fn start_of_day_request(date_time: i64) -> (asked: (i64, u32))
    ensures
        asked == (date_time, 0u32),
{
    (date_time, 0)
}

/// Takes the instant that the calendar gave as the local midnight of the
/// day of `date_time` for the start of that day, where it may be that; see
/// [`checked_start_of_day`].
pub fn start_of_day(date_time: i64, local_midnight: Option<i64>) -> (day: Option<i64>)
    ensures
        day == checked_start_of_day(date_time, local_midnight),
{
    match local_midnight {
        Some(start) => {
            if is_valid_instant(date_time) && is_valid_instant(start) && start <= date_time
                && date_time - start < 2 * MILLIS_PER_DAY {
                Some(start)
            } else {
                None
            }
        },
        None => None,
    }
}

/// The instant at which the local day of `date_time` began: its time of
/// day cut off in local time.
///
/// There is no such instant where `date_time` lies outside the supported
/// range, where the local clock skipped or repeated midnight of that day, or
/// where the calendar puts that midnight out of reach of `date_time`.
pub fn cut_off_time_from_date(date_time: i64) -> (day: Option<i64>)
    ensures
        day matches Some(start) ==> may_be_start_of_day(start, date_time),
{
    if !is_valid_instant(date_time) {
        return None;
    }
    let asked: (i64, u32) = start_of_day_request(date_time);
    start_of_day(date_time, local_time_on_day_of(asked.0, asked.1))
}

/// What is put behind a date before it is parsed: midnight, one hour east of UTC.
pub open spec fn midnight_suffix() -> Seq<char> {
    " 00:00:00 +01:00"@
}

/// The format of a date with [`midnight_suffix`] behind it: day, month and
/// year with hyphens between them, then the time and the offset.
pub open spec fn date_format() -> Seq<char> {
    "%d-%m-%Y  %H:%M:%S %z"@
}

/// The instant that a date of the form `DD-MM-YYYY` names: midnight of that
/// day, one hour east of UTC.
pub open spec fn parsed_date(date: Seq<char>) -> Option<i64> {
    parsed_instant(date + midnight_suffix(), date_format())
}

/// Reads a date of the form `DD-MM-YYYY` as midnight of that day, one hour
/// east of UTC. Anything else is refused as a user error.
pub fn parse_date(date: String) -> (parsed: Result<i64, AppError>)
    ensures
        match parsed_date(date@) {
            Some(at) => parsed == Ok::<i64, AppError>(at),
            None => parsed matches Err(error) && error.is_user_error(
                "Input date has incorrect format"@,
            ),
        },
{
    let text = date.concat(" 00:00:00 +01:00");
    match parse_instant(text.as_str(), "%d-%m-%Y  %H:%M:%S %z") {
        Some(at) => Ok(at),
        None => Err(AppError::user_error("Input date has incorrect format")),
    }
}

} // verus!
