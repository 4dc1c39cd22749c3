use std::sync::Arc;
use vstd::prelude::*;

use crate::calendar::local_weekday;
use crate::model::errors::AppError;
use crate::model::price_list::{Currency, PriceCategory, PriceListItem};
use crate::model::time::{is_instant, MILLIS_PER_HOUR};
use crate::price_list_providers::commons::{
    cut_off_time_from_date, may_be_start_of_day, SingleDayPriceList,
};

verus! {

pub const OFF_PEAK_PRICE: Currency = 80000;

pub const IN_PEAK_PRICE: Currency = 160000;

/// The number of cells in the price list of a day.
pub const HOURS_PER_DAY: usize = 24;

/// The first day of the weekend, counted from Monday as 0.
pub const SATURDAY: u32 = 5;

/// W12 is a tariff with two prices. The low price holds in the off-peak
/// hours, before 6 o'clock, from 13 to 15 o'clock and from 22 o'clock on,
/// and all through the weekend; in the peak hours energy costs double.
#[derive(Clone, Copy, Debug)]
pub struct W12PriceListProvider {}

/// The hour of the day, counted from 0, is an off-peak hour.
pub open spec fn is_off_peak_hour(hour: int) -> bool {
    hour < 6 || hour == 13 || hour == 14 || hour > 21
}

/// The cell of hour `hour` of a day that starts at `day_start`.
pub open spec fn w12_cell(day_start: int, weekend: bool, hour: int) -> PriceListItem {
    PriceListItem {
        starts_at: (day_start + hour * MILLIS_PER_HOUR) as i64,
        duration: MILLIS_PER_HOUR,
        price: if weekend || is_off_peak_hour(hour) {
            OFF_PEAK_PRICE
        } else {
            IN_PEAK_PRICE
        },
        weight: 0,
        category: if weekend || is_off_peak_hour(hour) {
            PriceCategory::Min
        } else {
            PriceCategory::Max
        },
    }
}

/// The W12 price list of a day that starts at `day_start`: twenty-four
/// cells of one hour, one behind the other.
pub open spec fn w12_price_list(day_start: int, weekend: bool) -> Seq<PriceListItem> {
    Seq::new(HOURS_PER_DAY as nat, |hour: int| w12_cell(day_start, weekend, hour))
}

/// The day of the week, counted from Monday as 0, belongs to the weekend:
/// it is Saturday or Sunday.
pub open spec fn is_weekend_day(days_from_monday: int) -> bool {
    days_from_monday >= SATURDAY
}

/// The W12 price list of a day that starts at `day_start` and is the day
/// `days_from_monday` of its week.
pub open spec fn w12_price_list_on(day_start: int, days_from_monday: int) -> Seq<PriceListItem> {
    w12_price_list(day_start, is_weekend_day(days_from_monday))
}

/// What the W12 tariff answers to a request for the day of `for_day`:
/// the price list of a day of the week that may be the local day of
/// `for_day`, or a system error where the calendar knows no single midnight
/// of that day within the supported range.
pub open spec fn is_w12_answer(
    for_day: i64,
    answer: Result<Arc<Vec<PriceListItem>>, AppError>,
) -> bool {
    match answer {
        Ok(list) => exists|day_start: i64, days_from_monday: u32|
            may_be_start_of_day(day_start, for_day) && days_from_monday < 7 && list@
                == #[trigger] w12_price_list_on(day_start as int, days_from_monday as int),
        Err(error) => error.is_system_error("The day of the requested price list has no midnight"@),
    }
}

/// What the W12 tariff makes of what the calendar gave for the requested
/// day: `day_start` for the start of that day, and `days_from_monday` for
/// its day of the week. It is the price list of that day, or a system error
/// where either is missing.
pub open spec fn is_w12_answer_from(
    day_start: Option<i64>,
    days_from_monday: Option<u32>,
    answer: Result<Arc<Vec<PriceListItem>>, AppError>,
) -> bool {
    match (day_start, days_from_monday) {
        (Some(start), Some(days)) => answer matches Ok(list) && list@ == w12_price_list_on(
            start as int,
            days as int,
        ),
        _ => answer matches Err(error) && error.is_system_error(
            "The day of the requested price list has no midnight"@,
        ),
    }
}

impl W12PriceListProvider {
    /// The price and category of an hour of a working day.
    pub fn map_hour_to_price(&self, hour: i32) -> (priced: (Currency, PriceCategory))
        ensures
            priced == if is_off_peak_hour(hour as int) {
                (OFF_PEAK_PRICE, PriceCategory::Min)
            } else {
                (IN_PEAK_PRICE, PriceCategory::Max)
            },
    {
        if hour < 6 || hour == 13 || hour == 14 || hour > 21 {
            (OFF_PEAK_PRICE, PriceCategory::Min)
        } else {
            (IN_PEAK_PRICE, PriceCategory::Max)
        }
    }

    /// The price list of the day that starts at `day_start`, a day of the
    /// weekend or a working day.
    pub fn price_list_of_day(
        &self,
        day_start: i64,
        weekend: bool,
    ) -> (price_list: Vec<PriceListItem>)
        requires
            is_instant(day_start as int),
        ensures
            price_list@ == w12_price_list(day_start as int, weekend),
    {
        let mut price_list: Vec<PriceListItem> = Vec::new();
        let mut hour: i32 = 0;
        while hour < 24
            invariant
                0 <= hour <= 24,
                is_instant(day_start as int),
                price_list@.len() == hour,
                forall|h: int|
                    0 <= h < hour ==> #[trigger] price_list@[h] == w12_cell(
                        day_start as int,
                        weekend,
                        h,
                    ),
            decreases 24 - hour,
        {
            let (price, category) = if weekend {
                (OFF_PEAK_PRICE, PriceCategory::Min)
            } else {
                self.map_hour_to_price(hour)
            };
            let offset: i64 = MILLIS_PER_HOUR * hour as i64;
            price_list.push(PriceListItem::new(day_start + offset, MILLIS_PER_HOUR, price, category));
            hour += 1;
        }
        assert(price_list@ =~= w12_price_list(day_start as int, weekend));
        price_list
    }

    /// The price list of the day that starts at `day_start` and is the day
    /// `days_from_monday` of its week: Saturday and Sunday are days of the
    /// weekend, the others working days.
    pub fn price_list_for_weekday(
        &self,
        day_start: i64,
        days_from_monday: u32,
    ) -> (price_list: Vec<PriceListItem>)
        requires
            is_instant(day_start as int),
        ensures
            price_list@ == w12_price_list_on(day_start as int, days_from_monday as int),
    {
        self.price_list_of_day(day_start, days_from_monday >= SATURDAY)
    }

    /// The answer of the tariff, given what the calendar gave: `day_start`
    /// for the start of the requested day and `days_from_monday` for its day
    /// of the week; see [`is_w12_answer_from`].
    pub fn answer_for_weekday(
        &self,
        day_start: Option<i64>,
        days_from_monday: Option<u32>,
    ) -> (price_list: Result<Arc<Vec<PriceListItem>>, AppError>)
        requires
            day_start matches Some(start) ==> is_instant(start as int),
        ensures
            is_w12_answer_from(day_start, days_from_monday, price_list),
    {
        match (day_start, days_from_monday) {
            (Some(start), Some(days)) => Ok(Arc::new(self.price_list_for_weekday(start, days))),
            _ => Err(AppError::system_error("The day of the requested price list has no midnight")),
        }
    }
}

impl SingleDayPriceList for W12PriceListProvider {
    open spec fn may_answer(
        &self,
        for_day: i64,
        answer: Result<Arc<Vec<PriceListItem>>, AppError>,
    ) -> bool {
        is_w12_answer(for_day, answer)
    }

    /// The W12 price list of the local day on which `for_day` falls.
    ///
    /// Fails with a system error where the calendar knows no single
    /// midnight of that day within the supported range.
    fn get_price_list(
        &self,
        for_day: i64,
    ) -> (price_list: Result<Arc<Vec<PriceListItem>>, AppError>) {
        let day_start = cut_off_time_from_date(for_day);
        let days_from_monday = match day_start {
            Some(start) => local_weekday(start),
            None => None,
        };
        self.answer_for_weekday(day_start, days_from_monday)
    }
}

} // verus!
