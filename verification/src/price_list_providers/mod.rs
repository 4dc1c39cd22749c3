pub mod cache;
pub mod commons;
pub mod day_ahead_market_price_list_provider;
pub mod page;
pub mod tariff_selector;
pub mod time_period_price_list_service;
pub mod w12_price_list_provider;

pub use self::commons::{cut_off_time_from_date, parse_date, SingleDayPriceList};
pub use self::day_ahead_market_price_list_provider::DayAheadMarketPriceListProvider;
pub use self::tariff_selector::{TariffSelector, TariffSelectorPriceList, TariffTypes};
pub use self::time_period_price_list_service::TimePeriodPriceListService;
pub use self::w12_price_list_provider::W12PriceListProvider;
