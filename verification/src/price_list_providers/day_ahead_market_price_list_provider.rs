use std::sync::Arc;
use vstd::prelude::*;
use vstd::string::StringExecFns;

use crate::calendar::{current_instant, format_local, format_utc, utc_text};
use crate::model::errors::{AppError, NOT_FOUND};
use crate::model::price_list::{Currency, PriceCategory, PriceListItem};
use crate::model::time::{
    is_instant, is_valid_instant, MAX_INSTANT, MILLIS_PER_DAY, MILLIS_PER_HOUR,
};
use crate::price_list_providers::cache::{
    held_price_list, held_price_lists, hold_price_list, holds_price_list, is_kept_from,
    new_price_list_cache, store_limit,
};
use crate::price_list_providers::commons::{cut_off_time_from_date, parse_date, parsed_date};
use crate::price_list_providers::page::{
    find_first_match, first_child_texts, first_element_text, first_match,
    select_first_child_texts, select_first_text, string_views, text_views,
};

verus! {

/// A market price below this is not taken at its face value.
pub const LOWEST_PRICE_TAKEN: Currency = 5;

/// The price put in the place of one that is not taken at its face value.
pub const MINIMAL_PRICE: Currency = 500;

/// What the transfer of energy costs, on top of every market price.
pub const TRANSFER_COST: Currency = 9000;

/// Prices below this are in the category `Min`.
pub const PRICE_CATEGORY_MIN_THRESHOLD: Currency = 20000;

/// Prices above this are in the category `Max`.
pub const PRICE_CATEGORY_MAX_THRESHOLD: Currency = 80000;

/// The number of days of which the price lists are kept.
pub const KEPT_DAYS: u64 = 30;

/// The day-ahead market publishes a price for every hour of the next day.
///
/// The price list of tomorrow is published at 2 pm today; the market keeps
/// the lists of the last two months. This type holds what the library
/// decides about such a list: where to ask for it, whether the page that
/// came back is the list of the requested day, and how its prices become
/// the cells of a price list. It keeps the price lists of the days that
/// were asked for last, so that the market is not asked again.
pub struct DayAheadMarketPriceListProvider {
    cache: moka::sync::Cache<i64, Arc<Vec<PriceListItem>>>,
}

/// The price of a cell, given the price that the market published.
pub open spec fn reevaluated_price(price: Currency) -> int {
    (if price < LOWEST_PRICE_TAKEN {
        MINIMAL_PRICE
    } else {
        price
    }) + TRANSFER_COST
}

/// The category of a price.
pub open spec fn category_of_price(price: int) -> PriceCategory {
    if price < PRICE_CATEGORY_MIN_THRESHOLD {
        PriceCategory::Min
    } else if price > PRICE_CATEGORY_MAX_THRESHOLD {
        PriceCategory::Max
    } else {
        PriceCategory::Medium
    }
}

/// The cell of hour `hour` of the day that starts at `requested_date`,
/// given the price that the market published for it.
pub open spec fn market_cell(requested_date: int, hour: int, price: Currency) -> PriceListItem {
    PriceListItem {
        starts_at: (requested_date + hour * MILLIS_PER_HOUR) as i64,
        duration: MILLIS_PER_HOUR,
        price: reevaluated_price(price) as Currency,
        weight: 0,
        category: category_of_price(reevaluated_price(price)),
    }
}

/// The price list of the day that starts at `requested_date`, given the
/// prices that the market published, hour by hour.
pub open spec fn market_price_list(
    requested_date: int,
    prices: Seq<Currency>,
) -> Seq<PriceListItem> {
    Seq::new(prices.len(), |hour: int| market_cell(requested_date, hour, prices[hour]))
}

/// The address of the market page with the prices of the day after `day_before`.
pub open spec fn market_url(day_before: Seq<char>) -> Seq<char> {
    "https://tge.pl/energia-elektryczna-rdn?dateShow="@ + day_before + "&dateAction=prev"@
}

/// What is said when the market has no price list for a day.
pub open spec fn missing_price_list_message(
    requested_day: Seq<char>,
    in_the_future: bool,
) -> Seq<char> {
    "Missing price list for date: "@ + requested_day + if in_the_future {
        ", for tomorrow price list is published at 2pm!"@
    } else {
        ", price lists are published for last 2 months!"@
    }
}

/// The selector of the element of the market page that names the day of its prices.
pub open spec fn publish_date_selector() -> Seq<char> {
    ".kontrakt-date small"@
}

/// The pattern of a date on the market page: two digits, two digits and
/// four digits with hyphens between them.
pub open spec fn publish_date_pattern() -> Seq<char> {
    "\\d{2}-\\d{2}-\\d{4}"@
}

/// The day for which `page` publishes prices: the first date in the text of
/// the element that names it. Nothing where the page has no such element,
/// the element no date, or the date cannot be read.
pub open spec fn published_date(page: Seq<char>) -> Option<i64> {
    match first_element_text(page, publish_date_selector()) {
        Some(text) => match first_match(publish_date_pattern(), text) {
            Some(date) => parsed_date(date),
            None => None,
        },
        None => None,
    }
}

/// The page names a day, in a text that holds a date.
pub open spec fn names_a_date(page: Seq<char>) -> bool {
    first_element_text(page, publish_date_selector()) matches Some(text) && first_match(
        publish_date_pattern(),
        text,
    ) is Some
}

/// The selector of the cells of the market page that hold the prices:
/// the second cell of every row of the table of hourly contracts.
pub open spec fn price_cells_selector() -> Seq<char> {
    "#footable_kontrakty_godzinowe tbody tr td:nth-child(2)"@
}

/// The texts of the cells that begin with a text, in order.
pub open spec fn present_texts(cells: Seq<Option<Seq<char>>>) -> Seq<Seq<char>>
    decreases cells.len(),
{
    if cells.len() == 0 {
        Seq::empty()
    } else {
        present_texts(cells.drop_last()) + match cells.last() {
            Some(text) => seq![text],
            None => Seq::empty(),
        }
    }
}

/// The prices that were read, in order, if every one of them could be read.
pub open spec fn all_read(parsed: Seq<Option<Currency>>) -> Option<Seq<Currency>>
    decreases parsed.len(),
{
    if parsed.len() == 0 {
        Some(Seq::empty())
    } else {
        match (all_read(parsed.drop_last()), parsed.last()) {
            (Some(prices), Some(price)) => Some(prices.push(price)),
            _ => None,
        }
    }
}

/// The pattern under which the day of a price list is shown.
pub open spec fn day_pattern() -> Seq<char> {
    "%d-%m-%Y"@
}

/// The instant on whose local day the market shows the page with the
/// prices of the day that starts at `requested_date`: one day earlier. There
/// is none where either lies outside the supported range.
pub open spec fn market_page_day(requested_date: i64) -> Option<i64> {
    if is_instant(requested_date as int) && is_instant(requested_date - MILLIS_PER_DAY) {
        Some((requested_date - MILLIS_PER_DAY) as i64)
    } else {
        None
    }
}

/// What is said when the price list of a day is not kept, although it
/// was handed over to be kept.
pub open spec fn price_list_not_kept_message(for_day: i64) -> Seq<char> {
    "Price list for date "@ + (if is_instant(for_day as int) {
        match utc_text(for_day, day_pattern()) {
            Some(day) => day,
            None => Seq::empty(),
        }
    } else {
        Seq::empty()
    }) + " is missing"@
}

/// The prices can be turned into the price list of the day that starts at
/// `requested_date`: the day and the end of its last hour lie within the
/// supported range, and the transfer cost can be added to every price.
pub open spec fn fits_price_list(requested_date: i64, prices: Seq<Currency>) -> bool {
    &&& is_instant(requested_date as int)
    &&& is_instant(requested_date + prices.len() * MILLIS_PER_HOUR)
    &&& forall|hour: int| 0 <= hour < prices.len() ==> #[trigger] prices[hour] + TRANSFER_COST <= i32::MAX
}

/// What is made of what the store handed out for the day that starts at
/// `for_day`: the price list, or that it is not found.
pub open spec fn is_kept_or_missing(
    held: Option<Seq<PriceListItem>>,
    for_day: i64,
    price_list: Result<Arc<Vec<PriceListItem>>, AppError>,
) -> bool {
    match held {
        Some(list) => price_list matches Ok(kept) && kept@ == list,
        None => price_list matches Err(error) && error.is_not_found(
            price_list_not_kept_message(for_day),
        ),
    }
}

impl DayAheadMarketPriceListProvider {
    /// The price lists that are kept, by the start of their day.
    pub closed spec fn kept(&self) -> Map<i64, Seq<PriceListItem>> {
        held_price_lists(self.cache)
    }

    /// The number of days for which the provider was made to keep price lists.
    pub closed spec fn limit(&self) -> u64 {
        store_limit(self.cache)
    }

    /// A provider that keeps nothing yet, made to keep the price lists of
    /// [`KEPT_DAYS`] days.
    pub fn new() -> (provider: Self)
        ensures
            forall|for_day: i64| !provider.kept().contains_key(for_day),
            provider.limit() == KEPT_DAYS,
    {
        Self { cache: new_price_list_cache(KEPT_DAYS) }
    }

    /// Tells whether the market has to be asked for the price list of the
    /// day that starts at `for_day`: whether none is kept.
    pub fn lacks_price_list(&self, for_day: i64) -> (lacks: bool)
        ensures
            lacks == !self.kept().contains_key(for_day),
    {
        !holds_price_list(&self.cache, for_day)
    }

    /// Hands over the price list of the day that starts at `for_day` to be
    /// kept, in the place of one that was kept for that day before. The
    /// provider keeps what it sees fit: afterwards it may keep less than
    /// before, and need not keep what was handed over; it keeps nothing else.
    pub fn keep_price_list(&mut self, for_day: i64, price_list: Vec<PriceListItem>)
        ensures
            final(self).limit() == old(self).limit(),
            is_kept_from(final(self).kept(), old(self).kept().insert(for_day, price_list@)),
    {
        hold_price_list(&mut self.cache, for_day, Arc::new(price_list));
    }

    /// Makes the answer out of what the store handed out for the day that
    /// starts at `for_day`: the price list, or that it is not found.
    pub fn kept_or_missing(
        held: Option<Arc<Vec<PriceListItem>>>,
        for_day: i64,
    ) -> (price_list: Result<Arc<Vec<PriceListItem>>, AppError>)
        ensures
            is_kept_or_missing(
                match held {
                    Some(list) => Some(list@),
                    None => None,
                },
                for_day,
                price_list,
            ),
    {
        match held {
            Some(price_list) => Ok(price_list),
            None => {
                let day = if is_valid_instant(for_day) {
                    match format_utc(for_day, "%d-%m-%Y") {
                        Some(text) => text,
                        None => String::new(),
                    }
                } else {
                    String::new()
                };
                let message = String::from_str("Price list for date ").concat(day.as_str()).concat(
                    " is missing",
                );
                Err(AppError::not_found(message.as_str()))
            },
        }
    }

    /// The price list that is kept for the day that starts at `for_day`;
    /// where none is kept, the price list is not found. Afterwards the
    /// provider may keep less than before.
    pub fn kept_price_list(
        &mut self,
        for_day: i64,
    ) -> (price_list: Result<Arc<Vec<PriceListItem>>, AppError>)
        ensures
            is_kept_or_missing(
                if old(self).kept().contains_key(for_day) {
                    Some(old(self).kept()[for_day])
                } else {
                    None
                },
                for_day,
                price_list,
            ),
            final(self).limit() == old(self).limit(),
            is_kept_from(final(self).kept(), old(self).kept()),
    {
        let held = held_price_list(&mut self.cache, for_day);
        Self::kept_or_missing(held, for_day)
    }

    /// Tells whether the prices can be turned into the price list of the
    /// day that starts at `requested_date`; see [`fits_price_list`].
    pub fn check_fits_price_list(requested_date: i64, prices: &Vec<Currency>) -> (fits: bool)
        ensures
            fits == fits_price_list(requested_date, prices@),
    {
        if !is_valid_instant(requested_date) {
            return false;
        }
        let end = requested_date as i128 + prices.len() as i128 * MILLIS_PER_HOUR as i128;
        if end > MAX_INSTANT as i128 {
            return false;
        }
        let mut hour: usize = 0;
        while hour < prices.len()
            invariant
                hour <= prices.len(),
                forall|h: int| 0 <= h < hour ==> #[trigger] prices[h] + TRANSFER_COST <= i32::MAX,
            decreases prices.len() - hour,
        {
            if prices[hour] > i32::MAX - TRANSFER_COST {
                return false;
            }
            hour += 1;
        }
        true
    }

    /// Turns the page that the market answered into the price list of the
    /// day that starts at `requested_date`.
    ///
    /// `parsed` holds the prices that were read from the texts of
    /// [`DayAheadMarketPriceListProvider::price_table_cells`], one for every
    /// text, or nothing where a text could not be read. The page has to name
    /// the requested day; every price has to be read, and the prices have to
    /// fit the day.
    pub fn price_list_from_page(
        requested_date: i64,
        page: &str,
        parsed: Vec<Option<Currency>>,
    ) -> (price_list: Result<Vec<PriceListItem>, AppError>)
        ensures
            match price_list {
                Ok(list) => {
                    &&& published_date(page@) == Some(requested_date)
                    &&& all_read(parsed@) matches Some(prices) && fits_price_list(
                        requested_date,
                        prices,
                    ) && list@ == market_price_list(requested_date as int, prices)
                },
                Err(error) => if published_date(page@) != Some(requested_date) {
                    error.status() == NOT_FOUND
                } else {
                    match all_read(parsed@) {
                        Some(prices) => !fits_price_list(requested_date, prices)
                            && error.is_system_error("Price list table is out of range!"@),
                        None => error.is_system_error("Price list table has unparsable numbers!"@),
                    }
                },
            },
    {
        let publish_date = Self::parse_publish_date(page);
        match Self::check_price_list_date(requested_date, publish_date) {
            Ok(_) => {},
            Err(error) => {
                return Err(error);
            },
        }
        let prices = match Self::collect_prices(parsed) {
            Ok(prices) => prices,
            Err(error) => {
                return Err(error);
            },
        };
        if !Self::check_fits_price_list(requested_date, &prices) {
            return Err(AppError::system_error("Price list table is out of range!"));
        }
        Ok(Self::convert_to_price_list_items(requested_date, prices))
    }

    /// The pattern under which the day of a price list is shown; see [`day_pattern`].
    pub fn day_format() -> (pattern: &'static str)
        ensures
            pattern@ == day_pattern(),
    {
        "%d-%m-%Y"
    }

    /// The instant on whose local day the market shows the page with the
    /// prices of the day that starts at `requested_date`; see
    /// [`market_page_day`].
    pub fn day_of_market_page(requested_date: i64) -> (day: Option<i64>)
        ensures
            day == market_page_day(requested_date),
    {
        if is_valid_instant(requested_date) && is_valid_instant(requested_date - MILLIS_PER_DAY) {
            Some(requested_date - MILLIS_PER_DAY)
        } else {
            None
        }
    }

    /// The address to ask for the prices of the day after the day written as `day_before`.
    pub fn day_ahead_market_url(day_before: &str) -> (url: String)
        ensures
            url@ == market_url(day_before@),
    {
        String::from_str("https://tge.pl/energia-elektryczna-rdn?dateShow=").concat(
            day_before,
        ).concat("&dateAction=prev")
    }

    /// The address to ask for the prices of the day that starts at
    /// `requested_date`: the page of the local day before.
    ///
    /// There is no address where the day before lies outside the supported
    /// range or cannot be written.
    pub fn get_day_ahead_market_url(requested_date: i64) -> (url: Option<String>)
        ensures
            url matches Some(address) ==> exists|day_before: Seq<char>|
                address@ == market_url(day_before),
            market_page_day(requested_date) is None ==> url is None,
    {
        let page_day = match Self::day_of_market_page(requested_date) {
            Some(day) => day,
            None => {
                return None;
            },
        };
        match format_local(page_day, Self::day_format()) {
            Some(day_before) => {
                let address = Self::day_ahead_market_url(day_before.as_str());
                assert(address@ == market_url(day_before@));
                Some(address)
            },
            None => None,
        }
    }

    /// Finds on the page of the market the day for which it publishes
    /// prices. The market answers a request for a missing price list with
    /// the list of another day, so the day has to be read from the page.
    pub fn parse_publish_date(page: &str) -> (publish_date: Result<i64, AppError>)
        ensures
            match published_date(page@) {
                Some(at) => publish_date == Ok::<i64, AppError>(at),
                None => publish_date matches Err(error) && if names_a_date(page@) {
                    error.is_user_error("Input date has incorrect format"@)
                } else {
                    error.is_system_error("Price list date is missing on day ahead market page!"@)
                },
            },
    {
        let contract_date_text = match select_first_text(page, ".kontrakt-date small") {
            Some(text) => text,
            None => {
                return Err(
                    AppError::system_error("Price list date is missing on day ahead market page!"),
                );
            },
        };
        match find_first_match("\\d{2}-\\d{2}-\\d{4}", contract_date_text.as_str()) {
            Some(date) => parse_date(date),
            None => Err(
                AppError::system_error("Price list date is missing on day ahead market page!"),
            ),
        }
    }

    /// Finds on the page of the market the texts of the prices, hour by
    /// hour: the text with which the price cell of every row begins. A cell
    /// that does not begin with text is passed over.
    pub fn price_table_cells(page: &str) -> (cells: Result<Vec<String>, AppError>)
        ensures
            match first_child_texts(page@, price_cells_selector()) {
                Some(found) => cells matches Ok(texts) && string_views(texts@) == present_texts(
                    found,
                ),
                None => cells matches Err(error) && error.is_system_error(
                    "Price list table is missing on day ahead market page!"@,
                ),
            },
    {
        let found = match select_first_child_texts(
            page,
            "#footable_kontrakty_godzinowe tbody tr td:nth-child(2)",
        ) {
            Some(found) => found,
            None => {
                return Err(
                    AppError::system_error("Price list table is missing on day ahead market page!"),
                );
            },
        };
        let ghost all = text_views(found@);
        let mut found = found;
        let mut texts: Vec<String> = Vec::new();
        let ghost mut taken: int = 0;
        proof {
            assert(all.take(0) =~= Seq::<Option<Seq<char>>>::empty());
            assert(string_views(texts@) =~= present_texts(all.take(0)));
            assert(text_views(found@).skip(0) =~= all);
        }
        while found.len() > 0
            invariant
                0 <= taken <= all.len(),
                text_views(found@) == all.skip(taken),
                string_views(texts@) == present_texts(all.take(taken)),
            decreases found.len(),
        {
            let ghost before = found@;
            let ghost so_far = string_views(texts@);
            let cell = found.remove(0);
            proof {
                assert(text_views(before).len() == before.len());
                assert(all.skip(taken).len() == all.len() - taken);
                assert(text_views(before)[0] == all.skip(taken)[0]);
                assert(all.skip(taken)[0] == all[taken]);
                assert forall|k: int| 0 <= k < found@.len() implies text_views(found@)[k]
                    == all.skip(taken + 1)[k] by {
                    assert(found@[k] == before[k + 1]);
                    assert(text_views(before)[k + 1] == all.skip(taken)[k + 1]);
                }
                assert(text_views(found@) =~= all.skip(taken + 1));
                assert(all.take(taken + 1).drop_last() =~= all.take(taken));
                assert(all.take(taken + 1).last() == all[taken]);
            }
            match cell {
                Some(text) => {
                    texts.push(text);
                    proof {
                        assert(string_views(texts@) =~= so_far + seq![text@]);
                    }
                },
                None => {
                    proof {
                        assert(so_far + Seq::<Seq<char>>::empty() =~= so_far);
                    }
                },
            }
            proof {
                taken = taken + 1;
            }
        }
        proof {
            assert(all.take(taken) =~= all);
        }
        Ok(texts)
    }

    /// Hands out the prices that were read from the cells of the market
    /// page, if every one of them could be read; a cell that could not is
    /// a system error.
    pub fn collect_prices(
        parsed: Vec<Option<Currency>>,
    ) -> (prices: Result<Vec<Currency>, AppError>)
        ensures
            match all_read(parsed@) {
                Some(read) => prices matches Ok(list) && list@ == read,
                None => prices matches Err(error) && error.is_system_error(
                    "Price list table has unparsable numbers!"@,
                ),
            },
    {
        let mut prices: Vec<Currency> = Vec::new();
        let mut i: usize = 0;
        proof {
            assert(parsed@.take(0) =~= Seq::<Option<Currency>>::empty());
        }
        while i < parsed.len()
            invariant
                i <= parsed.len(),
                all_read(parsed@.take(i as int)) == Some(prices@),
            decreases parsed.len() - i,
        {
            proof {
                assert(parsed@.take(i + 1).drop_last() =~= parsed@.take(i as int));
                assert(parsed@.take(i + 1).last() == parsed@[i as int]);
            }
            match parsed[i] {
                Some(price) => {
                    prices.push(price);
                },
                None => {
                    proof {
                        lemma_unread_stays_unread(parsed@, i + 1);
                    }
                    return Err(AppError::system_error("Price list table has unparsable numbers!"));
                },
            }
            i += 1;
        }
        proof {
            assert(parsed@.take(i as int) =~= parsed@);
        }
        Ok(prices)
    }

    /// Tells whether the page that came back is the price list of the
    /// requested day: the day it names has to be the requested one.
    ///
    /// `today` is the start of the current local day and `requested_day` the
    /// requested day as it is to be shown to the user.
    pub fn validate_price_list_date(
        requested_date: i64,
        publish_date: Result<i64, AppError>,
        today: i64,
        requested_day: &str,
    ) -> (validated: Result<(), AppError>)
        ensures
            match publish_date {
                Ok(published) if published == requested_date => validated is Ok,
                _ => validated matches Err(error) && error.is_not_found(
                    missing_price_list_message(requested_day@, requested_date > today),
                ),
            },
    {
        let published = match publish_date {
            Ok(published) => published == requested_date,
            Err(_) => false,
        };
        if !published {
            let msg_postfix = if requested_date > today {
                ", for tomorrow price list is published at 2pm!"
            } else {
                ", price lists are published for last 2 months!"
            };
            let message = String::from_str("Missing price list for date: ").concat(
                requested_day,
            ).concat(msg_postfix);
            return Err(AppError::not_found(message.as_str()));
        }
        Ok(())
    }

    /// Tells whether the page that came back is the price list of the
    /// requested day, as of now: see
    /// [`DayAheadMarketPriceListProvider::validate_price_list_date`].
    pub fn check_price_list_date(
        requested_date: i64,
        publish_date: Result<i64, AppError>,
    ) -> (validated: Result<(), AppError>)
        ensures
            match publish_date {
                Ok(published) if published == requested_date => validated is Ok,
                _ => validated matches Err(error) && exists|
                    requested_day: Seq<char>,
                    in_the_future: bool,
                |
                    error.is_not_found(
                        #[trigger] missing_price_list_message(requested_day, in_the_future),
                    ),
            },
    {
        let now = current_instant();
        let today = match cut_off_time_from_date(now) {
            Some(day) => day,
            None => now,
        };
        let requested_day = if is_valid_instant(requested_date) {
            match format_local(requested_date, Self::day_format()) {
                Some(text) => text,
                None => String::new(),
            }
        } else {
            String::new()
        };
        Self::validate_price_list_date(requested_date, publish_date, today, requested_day.as_str())
    }

    /// Turns the prices that the market published, hour by hour, into the
    /// cells of the price list of the day that starts at `requested_date`.
    ///
    /// A price below [`LOWEST_PRICE_TAKEN`] counts as [`MINIMAL_PRICE`];
    /// [`TRANSFER_COST`] is added to every price.
    pub fn convert_to_price_list_items(
        requested_date: i64,
        prices: Vec<Currency>,
    ) -> (price_list: Vec<PriceListItem>)
        requires
            fits_price_list(requested_date, prices@),
        ensures
            price_list@ == market_price_list(requested_date as int, prices@),
    {
        let mut price_list: Vec<PriceListItem> = Vec::new();
        let mut hour: usize = 0;
        while hour < prices.len()
            invariant
                hour <= prices.len(),
                is_instant(requested_date as int),
                is_instant(requested_date + prices.len() * MILLIS_PER_HOUR),
                forall|h: int| 0 <= h < prices.len() ==> #[trigger] prices[h] + TRANSFER_COST <= i32::MAX,
                price_list@.len() == hour,
                forall|h: int|
                    0 <= h < hour ==> #[trigger] price_list@[h] == market_cell(
                        requested_date as int,
                        h,
                        prices@[h],
                    ),
            decreases prices.len() - hour,
        {
            let published = prices[hour];
            assert(prices[hour as int] + TRANSFER_COST <= i32::MAX);
            let price = (if published < LOWEST_PRICE_TAKEN {
                MINIMAL_PRICE
            } else {
                published
            }) + TRANSFER_COST;
            let category = if price < PRICE_CATEGORY_MIN_THRESHOLD {
                PriceCategory::Min
            } else if price > PRICE_CATEGORY_MAX_THRESHOLD {
                PriceCategory::Max
            } else {
                PriceCategory::Medium
            };
            assert(hour * MILLIS_PER_HOUR <= prices.len() * MILLIS_PER_HOUR) by (nonlinear_arith)
                requires
                    hour <= prices.len(),
            ;
            let offset: i64 = hour as i64 * MILLIS_PER_HOUR;
            price_list.push(
                PriceListItem::new(requested_date + offset, MILLIS_PER_HOUR, price, category),
            );
            hour += 1;
        }
        assert(price_list@ =~= market_price_list(requested_date as int, prices@));
        price_list
    }
}

/// Where the first `count` prices could not all be read, not all prices could be read.
proof fn lemma_unread_stays_unread(parsed: Seq<Option<Currency>>, count: int)
    requires
        0 <= count <= parsed.len(),
        all_read(parsed.take(count)) is None,
    ensures
        all_read(parsed) is None,
    decreases parsed.len() - count,
{
    if count < parsed.len() {
        assert(parsed.take(count + 1).drop_last() =~= parsed.take(count));
        lemma_unread_stays_unread(parsed, count + 1);
    } else {
        assert(parsed.take(count) =~= parsed);
    }
}

} // verus!
