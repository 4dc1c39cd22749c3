use std::sync::Arc;
use vstd::prelude::*;

use crate::model::errors::AppError;
use crate::model::price_list::PriceListItem;
use crate::price_list_providers::commons::SingleDayPriceList;
use crate::price_list_providers::w12_price_list_provider::W12PriceListProvider;

verus! {

#[derive(Clone, Copy, Debug, PartialEq, Eq, Structural)]
pub enum TariffTypes {
    W12,
    DayAheadMarket,
}

/// Serves price lists of the configured tariff: the day-ahead market, where
/// every hour has a price of its own, or W12 with its two prices.
pub struct TariffSelector<Market: SingleDayPriceList> {
    pub current_tariff: TariffTypes,
    pub w12_price_list_provider: W12PriceListProvider,
    pub day_ahead_market_price_list_provider: Market,
}

impl<Market: SingleDayPriceList> TariffSelector<Market> {
    pub fn new(
        current_tariff: TariffTypes,
        day_ahead_market_price_list_provider: Market,
    ) -> (selector: Self)
        ensures
            selector.current_tariff == current_tariff,
            selector.day_ahead_market_price_list_provider == day_ahead_market_price_list_provider,
    {
        Self {
            current_tariff,
            w12_price_list_provider: W12PriceListProvider {  },
            day_ahead_market_price_list_provider,
        }
    }
}

impl<Market: SingleDayPriceList> SingleDayPriceList for TariffSelector<Market> {
    open spec fn may_answer(
        &self,
        for_day: i64,
        answer: Result<Arc<Vec<PriceListItem>>, AppError>,
    ) -> bool {
        match self.current_tariff {
            TariffTypes::W12 => self.w12_price_list_provider.may_answer(for_day, answer),
            TariffTypes::DayAheadMarket => self.day_ahead_market_price_list_provider.may_answer(
                for_day,
                answer,
            ),
        }
    }

    /// The price list of the configured tariff for the day of `for_day`:
    /// what the source of that tariff answers.
    fn get_price_list(
        &self,
        for_day: i64,
    ) -> (price_list: Result<Arc<Vec<PriceListItem>>, AppError>) {
        match self.current_tariff {
            TariffTypes::W12 => self.w12_price_list_provider.get_price_list(for_day),
            TariffTypes::DayAheadMarket => self.day_ahead_market_price_list_provider.get_price_list(
                for_day,
            ),
        }
    }
}

/// Serves price lists of the configured tariff where no market source is
/// at hand: W12 is answered, the day-ahead market is not found.
#[derive(Clone, Copy, Debug)]
pub struct TariffSelectorPriceList {
    pub current_tariff: TariffTypes,
    pub w12_price_list_provider: W12PriceListProvider,
}

impl TariffSelectorPriceList {
    pub fn new(current_tariff: TariffTypes) -> (selector: Self)
        ensures
            selector.current_tariff == current_tariff,
    {
        Self { current_tariff, w12_price_list_provider: W12PriceListProvider {  } }
    }
}

impl SingleDayPriceList for TariffSelectorPriceList {
    open spec fn may_answer(
        &self,
        for_day: i64,
        answer: Result<Arc<Vec<PriceListItem>>, AppError>,
    ) -> bool {
        match self.current_tariff {
            TariffTypes::W12 => self.w12_price_list_provider.may_answer(for_day, answer),
            TariffTypes::DayAheadMarket => answer matches Err(error) && error.is_not_found(
                "Day ahead market price list is not available"@,
            ),
        }
    }

    /// The price list of the configured tariff for the day of `for_day`.
    fn get_price_list(
        &self,
        for_day: i64,
    ) -> (price_list: Result<Arc<Vec<PriceListItem>>, AppError>) {
        match self.current_tariff {
            TariffTypes::W12 => self.w12_price_list_provider.get_price_list(for_day),
            TariffTypes::DayAheadMarket => Err(
                AppError::not_found("Day ahead market price list is not available"),
            ),
        }
    }
}

} // verus!
