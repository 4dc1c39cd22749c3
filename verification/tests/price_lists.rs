use std::sync::Arc;

use chrono::{DateTime, Datelike, Local, TimeZone, Timelike, Utc};

use rusty_server::model::{AppError, PriceCategory, PriceListItem};
use rusty_server::price_list_providers::day_ahead_market_price_list_provider::DayAheadMarketPriceListProvider;
use rusty_server::price_list_providers::commons::{start_of_day, start_of_day_request};
use rusty_server::price_list_providers::page::select_first_text;
use rusty_server::price_list_providers::time_period_price_list_service::extend_with_overlapping;
use rusty_server::price_list_providers::{
    cut_off_time_from_date, parse_date, SingleDayPriceList, TariffSelector, TariffSelectorPriceList,
    TariffTypes, TimePeriodPriceListService, W12PriceListProvider,
};

const HOUR: i64 = 3_600_000;

fn date_time(year: i32, month: u32, day: u32, hour: u32, min: u32) -> DateTime<Utc> {
    Local.with_ymd_and_hms(year, month, day, hour, min, 0).map(|dt| dt.with_timezone(&Utc)).unwrap()
}

fn date(year: i32, month: u32, day: u32) -> DateTime<Utc> {
    date_time(year, month, day, 0, 0)
}

fn millis(at: DateTime<Utc>) -> i64 {
    at.timestamp_millis()
}

fn instant(at: i64) -> DateTime<Utc> {
    DateTime::from_timestamp_millis(at).unwrap()
}

#[test]
fn cut_off_time_from_date_test() {
    let now = Utc.with_ymd_and_hms(2024, 1, 1, 23, 10, 0).unwrap();
    let local_now = now.with_timezone(&Local);
    let day = instant(cut_off_time_from_date(millis(now)).unwrap()).with_timezone(&Local);
    assert_eq!(
        (local_now.year(), local_now.month(), local_now.day()),
        (day.year(), day.month(), day.day()),
        "The day before cut off and after should be the same"
    );
    assert_eq!(
        (day.hour(), day.minute(), day.second()),
        (0, 0, 0),
        "After cut off local date time should time part equal to midnight"
    );

    let day_with_next_cut_off = instant(cut_off_time_from_date(millis(now)).unwrap());
    assert_eq!(day, day_with_next_cut_off, "Second cut off should not change anything");
}

#[test]
fn cutting_off_twice_changes_nothing() {
    for at in [
        millis(Utc.with_ymd_and_hms(2024, 1, 1, 23, 10, 0).unwrap()),
        millis(Utc.with_ymd_and_hms(2024, 6, 30, 0, 0, 0).unwrap()),
        millis(Utc.with_ymd_and_hms(1969, 12, 31, 12, 0, 1).unwrap()),
        1_737_068_749_821,
    ] {
        let day = cut_off_time_from_date(at).unwrap();
        assert_eq!(cut_off_time_from_date(day), Some(day));
        assert!(day <= at);
        let local = instant(day).with_timezone(&Local);
        assert_eq!((local.hour(), local.minute(), local.second(), local.timestamp_subsec_millis()), (0, 0, 0, 0));
    }
}

#[test]
fn an_instant_out_of_range_has_no_day() {
    assert_eq!(cut_off_time_from_date(i64::MAX), None);
    assert_eq!(cut_off_time_from_date(i64::MIN), None);
    assert_eq!(cut_off_time_from_date(8_000_000_000_000_001), None);
}

#[test]
fn parse_date_path_param_test() {
    assert_eq!(
        parse_date("12-12-2024".to_owned()).unwrap(),
        millis(Utc.with_ymd_and_hms(2024, 12, 11, 23, 0, 0).unwrap()),
    );
}

#[test]
fn a_date_in_another_form_is_a_user_error() {
    for text in ["", "2024-12-12", "12.12.2024", "32-12-2024", "yesterday", "12-12-2024 10:00"] {
        match parse_date(text.to_owned()) {
            Err(AppError::UserError { message, code }) => {
                assert_eq!(message, "Input date has incorrect format");
                assert_eq!(code, 400);
            }
            _ => panic!("{} should be refused", text),
        }
    }
}

#[test]
fn w12_price_list_provider_test() {
    let price_list_provider = W12PriceListProvider {};
    let now = Utc::now();
    let for_day = cut_off_time_from_date(millis(now)).unwrap();
    let price_list = price_list_provider.get_price_list(for_day).unwrap();
    assert_eq!(price_list.len(), 24);
    assert_eq!(price_list[0].starts_at(), for_day);
}

#[test]
fn w12_hours_are_cheap_at_night_and_after_noon() {
    let provider = W12PriceListProvider {};
    for hour in 0..24 {
        let expected = if hour < 6 || hour == 13 || hour == 14 || hour > 21 {
            (80000, PriceCategory::Min)
        } else {
            (160000, PriceCategory::Max)
        };
        assert_eq!(provider.map_hour_to_price(hour), expected);
    }
    assert_eq!(provider.map_hour_to_price(5), (80000, PriceCategory::Min));
    assert_eq!(provider.map_hour_to_price(6), (160000, PriceCategory::Max));
    assert_eq!(provider.map_hour_to_price(21), (160000, PriceCategory::Max));
    assert_eq!(provider.map_hour_to_price(22), (80000, PriceCategory::Min));
}

#[test]
fn w12_price_list_of_a_working_day_and_of_a_weekend() {
    let provider = W12PriceListProvider {};
    let working_day = provider.price_list_of_day(1_000, false);
    let weekend = provider.price_list_of_day(1_000, true);
    assert_eq!(working_day.len(), 24);
    assert_eq!(weekend.len(), 24);
    for hour in 0..24usize {
        let (price, category) = provider.map_hour_to_price(hour as i32);
        assert_eq!(
            working_day[hour],
            PriceListItem { starts_at: 1_000 + hour as i64 * HOUR, duration: HOUR, price, weight: 0, category }
        );
        assert_eq!(
            weekend[hour],
            PriceListItem {
                starts_at: 1_000 + hour as i64 * HOUR,
                duration: HOUR,
                price: 80000,
                weight: 0,
                category: PriceCategory::Min
            }
        );
    }
}

#[test]
fn w12_tells_the_weekend_by_the_local_day() {
    let provider = W12PriceListProvider {};
    let saturday = provider.get_price_list(millis(date_time(2024, 8, 24, 10, 0))).unwrap();
    let sunday = provider.get_price_list(millis(date_time(2024, 8, 25, 10, 0))).unwrap();
    let monday = provider.get_price_list(millis(date_time(2024, 8, 26, 10, 0))).unwrap();
    let friday = provider.get_price_list(millis(date_time(2024, 8, 23, 10, 0))).unwrap();
    assert!(saturday.iter().all(|item| item.price() == 80000));
    assert!(sunday.iter().all(|item| item.price() == 80000));
    assert_eq!(monday[10].price(), 160000);
    assert_eq!(friday[10].price(), 160000);
    assert_eq!(monday[0].starts_at(), millis(date(2024, 8, 26)));
    assert_eq!(monday[23].starts_at(), millis(date_time(2024, 8, 26, 23, 0)));
}

struct FixedMarket;

impl SingleDayPriceList for FixedMarket {
    fn get_price_list(&self, for_day: i64) -> Result<Arc<Vec<PriceListItem>>, AppError> {
        Ok(Arc::new(vec![PriceListItem::new(for_day, HOUR, 7, PriceCategory::Medium)]))
    }
}

#[test]
fn the_selector_asks_the_source_of_the_configured_tariff() {
    let day = millis(date(2024, 8, 26));
    let w12 = TariffSelector::new(TariffTypes::W12, FixedMarket);
    assert_eq!(w12.get_price_list(day).unwrap().len(), 24);
    let market = TariffSelector::new(TariffTypes::DayAheadMarket, FixedMarket);
    let answered = market.get_price_list(day).unwrap();
    assert_eq!(answered.len(), 1);
    assert_eq!(answered[0].price(), 7);
}

#[test]
fn the_selector_without_a_market_does_not_find_market_prices() {
    let day = millis(date(2024, 8, 26));
    assert_eq!(TariffSelectorPriceList::new(TariffTypes::W12).get_price_list(day).unwrap().len(), 24);
    match TariffSelectorPriceList::new(TariffTypes::DayAheadMarket).get_price_list(day) {
        Err(AppError::UserError { message, code }) => {
            assert_eq!(message, "Day ahead market price list is not available");
            assert_eq!(code, 404);
        }
        _ => panic!("market prices should not be found"),
    }
}

struct NoMarket;

impl SingleDayPriceList for NoMarket {
    fn get_price_list(&self, _for_day: i64) -> Result<Arc<Vec<PriceListItem>>, AppError> {
        Err(AppError::not_found("Missing price list"))
    }
}

fn create_time_period_price_list_service() -> TimePeriodPriceListService<TariffSelector<NoMarket>> {
    TimePeriodPriceListService::new(Arc::new(TariffSelector::new(TariffTypes::W12, NoMarket)))
}

#[test]
fn should_return_price_list_for_the_requested_period_in_single_day_price_list() {
    let time_period_price_list_service = create_time_period_price_list_service();

    let start_time = date_time(2024, 8, 24, 13, 30);
    let end_time = date_time(2024, 8, 24, 13, 45);
    let price_list = time_period_price_list_service.get_price_list(millis(start_time), millis(end_time)).unwrap();
    assert_eq!(price_list.len(), 1)
}

#[test]
fn should_return_price_list_for_the_requested_period_spanning_two_single_day_price_lists() {
    let time_period_price_list_service = create_time_period_price_list_service();

    let start_time = date_time(2024, 8, 24, 13, 30);
    let end_time = date_time(2024, 8, 24, 14, 45);
    let price_list = time_period_price_list_service.get_price_list(millis(start_time), millis(end_time)).unwrap();
    assert_eq!(price_list.len(), 2)
}

#[test]
fn should_return_price_list_for_the_requested_one_day_period() {
    let time_period_price_list_service = create_time_period_price_list_service();

    let start_time = date_time(2024, 8, 24, 13, 0);
    let end_time = date_time(2024, 8, 25, 13, 0);
    let price_list = time_period_price_list_service.get_price_list(millis(start_time), millis(end_time)).unwrap();
    assert_eq!(price_list.len(), 24)
}

fn create_time_period_pricelist_service() -> TimePeriodPriceListService<TariffSelectorPriceList> {
    TimePeriodPriceListService::new(Arc::new(TariffSelectorPriceList::new(TariffTypes::W12)))
}

#[test]
fn time_period_pricelist_should_return_pricelist_for_the_requested_period_in_single_day_pricelist() {
    let time_period_price_list_service = create_time_period_pricelist_service();

    let start_time = date_time(2024, 8, 24, 13, 30);
    let end_time = date_time(2024, 8, 24, 13, 45);
    let price_list = time_period_price_list_service.get_price_list(millis(start_time), millis(end_time)).unwrap();
    assert_eq!(price_list.len(), 1)
}

#[test]
fn time_period_pricelist_should_return_pricelist_for_the_requested_period_spaning_two_single_day_pricelists() {
    let time_period_price_list_service = create_time_period_pricelist_service();

    let start_time = date_time(2024, 8, 24, 13, 30);
    let end_time = date_time(2024, 8, 24, 14, 45);
    let price_list = time_period_price_list_service.get_price_list(millis(start_time), millis(end_time)).unwrap();
    assert_eq!(price_list.len(), 2)
}

#[test]
fn time_period_pricelist_should_return_pricelist_for_the_requested_one_day_period() {
    let time_period_price_list_service = create_time_period_pricelist_service();

    let start_time = date_time(2024, 8, 24, 13, 0);
    let end_time = date_time(2024, 8, 25, 13, 0);
    let price_list = time_period_price_list_service.get_price_list(millis(start_time), millis(end_time)).unwrap();
    assert_eq!(price_list.len(), 24)
}

#[test]
fn the_price_list_of_a_period_is_in_order_of_time_and_overlaps_the_period() {
    let service = create_time_period_pricelist_service();
    let from = millis(date_time(2024, 8, 24, 22, 30));
    let to = millis(date_time(2024, 8, 26, 1, 15));
    let price_list = service.get_price_list(from, to).unwrap();
    assert_eq!(price_list.len(), 2 + 24 + 2);
    assert_eq!(price_list[0].starts_at(), millis(date_time(2024, 8, 24, 22, 0)));
    assert_eq!(price_list[27].starts_at(), millis(date_time(2024, 8, 26, 1, 0)));
    for pair in price_list.windows(2) {
        assert_eq!(pair[0].starts_at() + pair[0].duration(), pair[1].starts_at());
    }
    for item in &price_list {
        assert!(item.starts_at() + item.duration() > from && item.starts_at() < to);
    }
}

#[test]
fn a_failure_of_the_source_is_handed_on() {
    let service = TimePeriodPriceListService::new(Arc::new(TariffSelector::new(
        TariffTypes::DayAheadMarket,
        NoMarket,
    )));
    match service.get_price_list(millis(date_time(2024, 8, 24, 13, 0)), millis(date_time(2024, 8, 24, 14, 0))) {
        Err(AppError::UserError { message, code }) => {
            assert_eq!(message, "Missing price list");
            assert_eq!(code, 404);
        }
        _ => panic!("the failure of the source should come back"),
    }
}

#[test]
fn only_overlapping_cells_are_taken_over() {
    let day: Vec<PriceListItem> =
        (0..5).map(|hour| PriceListItem::new(hour * HOUR, HOUR, hour as i32, PriceCategory::Min)).collect();
    let mut price_list = vec![PriceListItem::new(-HOUR, HOUR, 99, PriceCategory::Max)];
    extend_with_overlapping(&mut price_list, &day, HOUR, 3 * HOUR);
    let prices: Vec<i32> = price_list.iter().map(|item| item.price()).collect();
    assert_eq!(prices, vec![99, 1, 2]);
    extend_with_overlapping(&mut price_list, &day, HOUR + 1, 3 * HOUR + 1);
    let prices: Vec<i32> = price_list.iter().map(|item| item.price()).collect();
    assert_eq!(prices, vec![99, 1, 2, 1, 2, 3]);
    let far = vec![PriceListItem::new(i64::MAX - 5, i64::MAX, 1, PriceCategory::Min)];
    extend_with_overlapping(&mut price_list, &far, 0, i64::MAX);
    assert_eq!(price_list.len(), 7);
}

#[test]
fn check_get_day_ahead_market_url() {
    let expected_url = DayAheadMarketPriceListProvider::get_day_ahead_market_url(millis(date(2024, 1, 1))).unwrap();
    assert_eq!(expected_url, "https://tge.pl/energia-elektryczna-rdn?dateShow=31-12-2023&dateAction=prev");

    let expected_url = DayAheadMarketPriceListProvider::get_day_ahead_market_url(millis(date(2024, 1, 2))).unwrap();
    assert_eq!(expected_url, "https://tge.pl/energia-elektryczna-rdn?dateShow=01-01-2024&dateAction=prev");

    let expected_url = DayAheadMarketPriceListProvider::get_day_ahead_market_url(millis(date(2024, 9, 11))).unwrap();
    assert_eq!(expected_url, "https://tge.pl/energia-elektryczna-rdn?dateShow=10-09-2024&dateAction=prev");
}

#[test]
fn the_market_address_names_the_day_before() {
    assert_eq!(
        DayAheadMarketPriceListProvider::day_ahead_market_url("31-12-2023"),
        "https://tge.pl/energia-elektryczna-rdn?dateShow=31-12-2023&dateAction=prev"
    );
    assert_eq!(DayAheadMarketPriceListProvider::get_day_ahead_market_url(i64::MAX), None);
}

#[test]
fn parse_publish_date_should_find_date() {
    let html = r#"<body class="kontrakt-date"> <small>for a day 03-02-2025</small> </body>"#;
    let found_date =
        DayAheadMarketPriceListProvider::parse_publish_date(html).expect("Date should be returned");
    assert_eq!(found_date, millis(Utc.with_ymd_and_hms(2025, 2, 2, 23, 0, 0).unwrap()));
    assert_eq!(found_date, parse_date("03-02-2025".to_owned()).unwrap());
}

#[test]
fn parse_publish_date_should_should_report_error_if_date_is_missing() {
    let html = r#"<body class="kontrakt-date"> <small>for a day HERE missing date</small> </body>"#;
    match DayAheadMarketPriceListProvider::parse_publish_date(html) {
        Ok(_) => panic!("Parse_contract_date should return error"),
        Err(app_error) => match app_error {
            AppError::UserError { message: _, code: _ } => panic!("Parse_contract_date should return system error"),
            AppError::SystemError { message, code: _ } => {
                assert_eq!(message, "Price list date is missing on day ahead market page!")
            }
        },
    };
}

#[test]
fn the_publish_date_is_the_first_date_of_the_first_element() {
    let html = r#"<html><body><div class="kontrakt-date"><small>from <b>04-02-2025</b> to 05-02-2025</small>
        <small>06-02-2025</small></div></body></html>"#;
    assert_eq!(
        DayAheadMarketPriceListProvider::parse_publish_date(html).unwrap(),
        parse_date("04-02-2025".to_owned()).unwrap()
    );
    let no_element = r#"<html><body><small>04-02-2025</small></body></html>"#;
    match DayAheadMarketPriceListProvider::parse_publish_date(no_element) {
        Err(AppError::SystemError { message, code }) => {
            assert_eq!(message, "Price list date is missing on day ahead market page!");
            assert_eq!(code, 500);
        }
        _ => panic!("a page without the element should be refused"),
    }
    let no_such_day = r#"<div class="kontrakt-date"><small>40-02-2025</small></div>"#;
    match DayAheadMarketPriceListProvider::parse_publish_date(no_such_day) {
        Err(AppError::UserError { message, code }) => {
            assert_eq!(message, "Input date has incorrect format");
            assert_eq!(code, 400);
        }
        _ => panic!("a day that does not exist should be refused"),
    }
}

#[test]
fn the_page_has_to_name_the_requested_day() {
    let requested = 1_000;
    assert!(DayAheadMarketPriceListProvider::validate_price_list_date(requested, Ok(requested), 500, "x").is_ok());
    match DayAheadMarketPriceListProvider::validate_price_list_date(requested, Ok(requested + 1), 500, "02-01-1970") {
        Err(AppError::UserError { message, code }) => {
            assert_eq!(
                message,
                "Missing price list for date: 02-01-1970, for tomorrow price list is published at 2pm!"
            );
            assert_eq!(code, 404);
        }
        _ => panic!("another day should be refused"),
    }
    match DayAheadMarketPriceListProvider::validate_price_list_date(
        requested,
        Err(AppError::system_error("no date")),
        requested,
        "01-01-1970",
    ) {
        Err(AppError::UserError { message, code }) => {
            assert_eq!(message, "Missing price list for date: 01-01-1970, price lists are published for last 2 months!");
            assert_eq!(code, 404);
        }
        _ => panic!("a page without a date should be refused"),
    }
}

#[test]
fn the_page_is_checked_against_today() {
    let long_ago = millis(date(2000, 1, 1));
    assert!(DayAheadMarketPriceListProvider::check_price_list_date(long_ago, Ok(long_ago)).is_ok());
    match DayAheadMarketPriceListProvider::check_price_list_date(long_ago, Ok(long_ago + 1)) {
        Err(AppError::UserError { message, code }) => {
            assert_eq!(message, "Missing price list for date: 01-01-2000, price lists are published for last 2 months!");
            assert_eq!(code, 404);
        }
        _ => panic!("another day should be refused"),
    }
    let far_ahead = millis(date(2999, 12, 31));
    match DayAheadMarketPriceListProvider::check_price_list_date(far_ahead, Err(AppError::user_error("x"))) {
        Err(AppError::UserError { message, code }) => {
            assert_eq!(message, "Missing price list for date: 31-12-2999, for tomorrow price list is published at 2pm!");
            assert_eq!(code, 404);
        }
        _ => panic!("a page without a date should be refused"),
    }
}

#[test]
fn market_prices_become_cells_with_transfer_cost_and_category() {
    let day = millis(date(2024, 8, 26));
    let price_list = DayAheadMarketPriceListProvider::convert_to_price_list_items(
        day,
        vec![12300, 4, 5, -100, 10999, 11000, 71000, 71001],
    );
    let expected = [
        (21300, PriceCategory::Medium),
        (9500, PriceCategory::Min),
        (9005, PriceCategory::Min),
        (9500, PriceCategory::Min),
        (19999, PriceCategory::Min),
        (20000, PriceCategory::Medium),
        (80000, PriceCategory::Medium),
        (80001, PriceCategory::Max),
    ];
    assert_eq!(price_list.len(), expected.len());
    for (hour, (price, category)) in expected.iter().enumerate() {
        assert_eq!(
            price_list[hour],
            PriceListItem {
                starts_at: day + hour as i64 * HOUR,
                duration: HOUR,
                price: *price,
                weight: 0,
                category: *category
            }
        );
    }
    assert!(DayAheadMarketPriceListProvider::convert_to_price_list_items(day, Vec::new()).is_empty());
}

#[test]
fn a_day_out_of_range_is_a_system_error() {
    match (W12PriceListProvider {}).get_price_list(i64::MAX) {
        Err(AppError::SystemError { message, code }) => {
            assert_eq!(message, "The day of the requested price list has no midnight");
            assert_eq!(code, 500);
        }
        _ => panic!("a day out of range should be refused"),
    }
    let service = create_time_period_pricelist_service();
    match service.get_price_list(i64::MIN, 0) {
        Err(AppError::SystemError { message, code }) => {
            assert_eq!(message, "The requested period has no day to start from");
            assert_eq!(code, 500);
        }
        _ => panic!("a period out of range should be refused"),
    }
    match service.get_price_list(0, i64::MAX) {
        Err(AppError::SystemError { message, code }) => {
            assert_eq!(message, "The requested period has no day to end with");
            assert_eq!(code, 500);
        }
        _ => panic!("a period out of range should be refused"),
    }
}

#[test]
fn a_period_that_ends_before_it_starts_has_no_cells() {
    let service = create_time_period_pricelist_service();
    let from = millis(date_time(2024, 8, 26, 13, 0));
    let to = millis(date_time(2024, 8, 24, 13, 0));
    assert!(service.get_price_list(from, to).unwrap().is_empty());
    let within = service.get_price_list(millis(date_time(2024, 8, 26, 13, 30)), millis(date_time(2024, 8, 26, 13, 30))).unwrap();
    assert_eq!(within.len(), 1);
    assert_eq!(within[0].starts_at(), millis(date_time(2024, 8, 26, 13, 0)));
}

#[test]
fn parse_price_list_table() {
    let html = r#"<body> 
                                <table id="footable_kontrakty_godzinowe">
                                    <tbody>
                                        <tr>
                                            <td>skip 1</td>
                                            <td>123,00</td>
                                        </tr>
                                        <tr>
                                            <td>skip 2</td>
                                            <td>111,00</td>
                                        </tr>
                                    </tbody>
                                </table>
                            </body>"#;
    let cells = DayAheadMarketPriceListProvider::price_table_cells(html).unwrap();
    assert_eq!(cells, vec!["123,00", "111,00"]);
    let parsed: Vec<Option<i32>> = cells
        .iter()
        .map(|s| s.trim().replace(",", ".").parse::<f32>().ok().map(|f| (f * 100.0) as i32))
        .collect();
    let result = DayAheadMarketPriceListProvider::collect_prices(parsed).unwrap();
    assert_eq!(result, vec![12300, 11100]);
}

#[test]
fn price_cells_without_text_are_passed_over() {
    let html = r#"<table id="footable_kontrakty_godzinowe"><tbody>
        <tr><td>1</td><td> 10,50 <b>x</b></td><td>other</td></tr>
        <tr><td>2</td><td><b>bold</b>11,00</td></tr>
        <tr><td>3</td><td></td></tr>
        <tr><td>4</td><td>abc</td></tr>
        </tbody></table>
        <table id="another"><tbody><tr><td>5</td><td>99,00</td></tr></tbody></table>"#;
    let cells = DayAheadMarketPriceListProvider::price_table_cells(html).unwrap();
    assert_eq!(cells, vec![" 10,50 ", "abc"]);
    assert!(DayAheadMarketPriceListProvider::price_table_cells("<p>no table</p>").unwrap().is_empty());
}

#[test]
fn a_price_that_could_not_be_read_is_a_system_error() {
    assert_eq!(DayAheadMarketPriceListProvider::collect_prices(vec![]).unwrap(), Vec::<i32>::new());
    assert_eq!(
        DayAheadMarketPriceListProvider::collect_prices(vec![Some(1), Some(-2), Some(3)]).unwrap(),
        vec![1, -2, 3]
    );
    for parsed in [vec![None], vec![Some(1), None, Some(3)], vec![Some(1), Some(2), None], vec![None, Some(2)]] {
        match DayAheadMarketPriceListProvider::collect_prices(parsed) {
            Err(AppError::SystemError { message, code }) => {
                assert_eq!(message, "Price list table has unparsable numbers!");
                assert_eq!(code, 500);
            }
            _ => panic!("a price that could not be read should be refused"),
        }
    }
}

#[test]
fn a_page_becomes_the_price_list_of_the_day_it_names() {
    let page = r#"<div class="kontrakt-date"><small>Delivery 03-02-2025</small></div>
        <table id="footable_kontrakty_godzinowe"><tbody>
        <tr><td>0-1</td><td>123,00</td></tr>
        <tr><td>1-2</td><td>0,01</td></tr>
        </tbody></table>"#;
    let day = parse_date("03-02-2025".to_owned()).unwrap();
    let price_list =
        DayAheadMarketPriceListProvider::price_list_from_page(day, page, vec![Some(12300), Some(1)]).unwrap();
    assert_eq!(
        price_list,
        vec![
            PriceListItem { starts_at: day, duration: HOUR, price: 21300, weight: 0, category: PriceCategory::Medium },
            PriceListItem { starts_at: day + HOUR, duration: HOUR, price: 9500, weight: 0, category: PriceCategory::Min },
        ]
    );
    match DayAheadMarketPriceListProvider::price_list_from_page(day + 1, page, vec![Some(12300), Some(1)]) {
        Err(AppError::UserError { message: _, code }) => assert_eq!(code, 404),
        _ => panic!("the page of another day should be refused"),
    }
    match DayAheadMarketPriceListProvider::price_list_from_page(day, page, vec![Some(12300), None]) {
        Err(AppError::SystemError { message, code }) => {
            assert_eq!(message, "Price list table has unparsable numbers!");
            assert_eq!(code, 500);
        }
        _ => panic!("a price that could not be read should be refused"),
    }
    match DayAheadMarketPriceListProvider::price_list_from_page(day, page, vec![Some(i32::MAX)]) {
        Err(AppError::SystemError { message, code }) => {
            assert_eq!(message, "Price list table is out of range!");
            assert_eq!(code, 500);
        }
        _ => panic!("a price out of range should be refused"),
    }
}

#[test]
fn prices_have_to_fit_the_day() {
    assert!(DayAheadMarketPriceListProvider::check_fits_price_list(0, &vec![1, 2, 3]));
    assert!(DayAheadMarketPriceListProvider::check_fits_price_list(0, &vec![i32::MAX - 9000, i32::MIN]));
    assert!(!DayAheadMarketPriceListProvider::check_fits_price_list(0, &vec![i32::MAX - 8999]));
    assert!(!DayAheadMarketPriceListProvider::check_fits_price_list(i64::MAX, &vec![]));
    assert!(DayAheadMarketPriceListProvider::check_fits_price_list(8_000_000_000_000_000, &vec![]));
    assert!(!DayAheadMarketPriceListProvider::check_fits_price_list(8_000_000_000_000_000, &vec![1]));
    assert!(DayAheadMarketPriceListProvider::check_fits_price_list(8_000_000_000_000_000 - HOUR, &vec![1]));
}

#[test]
fn price_lists_are_kept_for_the_days_asked_for() {
    let mut provider = DayAheadMarketPriceListProvider::new();
    let day = millis(date(2024, 8, 26));
    assert!(provider.lacks_price_list(day));
    match provider.kept_price_list(millis(Utc.with_ymd_and_hms(2024, 8, 26, 0, 0, 0).unwrap())) {
        Err(AppError::UserError { message, code }) => {
            assert_eq!(message, "Price list for date 26-08-2024 is missing");
            assert_eq!(code, 404);
        }
        _ => panic!("nothing is kept yet"),
    }
    let list = DayAheadMarketPriceListProvider::convert_to_price_list_items(day, vec![10000, 20000]);
    provider.keep_price_list(day, list.clone());
    assert!(!provider.lacks_price_list(day));
    assert_eq!(*provider.kept_price_list(day).unwrap(), list);
    assert!(provider.lacks_price_list(day + 1));
    assert!(provider.kept_price_list(day + 1).is_err());
    let other = DayAheadMarketPriceListProvider::convert_to_price_list_items(day, vec![30000]);
    provider.keep_price_list(day, other.clone());
    assert_eq!(*provider.kept_price_list(day).unwrap(), other);
}

#[test]
fn what_the_store_handed_out_is_the_answer() {
    let day = millis(Utc.with_ymd_and_hms(2024, 8, 26, 0, 0, 0).unwrap());
    let list = DayAheadMarketPriceListProvider::convert_to_price_list_items(day, vec![10000]);
    let held = Arc::new(list.clone());
    assert_eq!(*DayAheadMarketPriceListProvider::kept_or_missing(Some(held), day).unwrap(), list);
    match DayAheadMarketPriceListProvider::kept_or_missing(None, day) {
        Err(AppError::UserError { message, code }) => {
            assert_eq!(message, "Price list for date 26-08-2024 is missing");
            assert_eq!(code, 404);
        }
        _ => panic!("nothing was handed out"),
    }
    match DayAheadMarketPriceListProvider::kept_or_missing(None, i64::MAX) {
        Err(AppError::UserError { message, code }) => {
            assert_eq!(message, "Price list for date  is missing");
            assert_eq!(code, 404);
        }
        _ => panic!("nothing was handed out"),
    }
}

#[test]
fn the_start_of_a_day_lies_at_or_before_the_instant_and_less_than_two_days_earlier() {
    let day = 86_400_000;
    assert_eq!(start_of_day(100, Some(50)), Some(50));
    assert_eq!(start_of_day(100, Some(100)), Some(100));
    assert_eq!(start_of_day(100, Some(101)), None);
    assert_eq!(start_of_day(100, None), None);
    assert_eq!(start_of_day(2 * day + 49, Some(50)), Some(50));
    assert_eq!(start_of_day(2 * day + 50, Some(50)), None);
    assert_eq!(start_of_day(8_000_000_000_000_001, Some(8_000_000_000_000_000)), None);
    assert_eq!(start_of_day(-8_000_000_000_000_000, Some(-8_000_000_000_000_001)), None);
    assert_eq!(start_of_day(i64::MAX, Some(i64::MIN)), None);
    assert_eq!(start_of_day(i64::MIN, Some(i64::MAX)), None);
}

#[test]
fn the_start_of_a_day_is_asked_as_its_midnight() {
    assert_eq!(start_of_day_request(1_724_666_400_000), (1_724_666_400_000, 0));
    assert_eq!(start_of_day_request(0), (0, 0));
    assert_eq!(start_of_day_request(-5), (-5, 0));
}

#[test]
fn w12_counts_saturday_and_sunday_as_the_weekend() {
    let provider = W12PriceListProvider {};
    for days_from_monday in 0..7u32 {
        let list = provider.price_list_for_weekday(1_000, days_from_monday);
        let weekend = days_from_monday == 5 || days_from_monday == 6;
        assert_eq!(list, provider.price_list_of_day(1_000, weekend));
        assert_eq!(list[10].price(), if weekend { 80000 } else { 160000 });
        assert_eq!(list[10].starts_at(), 1_000 + 10 * HOUR);
        assert_eq!(list[3].price(), 80000);
    }
    let friday = provider.price_list_for_weekday(0, 4);
    let saturday = provider.price_list_for_weekday(0, 5);
    assert!(friday.iter().any(|item| item.price() == 160000));
    assert!(saturday.iter().all(|item| item.price() == 80000 && item.category == PriceCategory::Min));
}

#[test]
fn w12_answers_with_the_day_that_the_calendar_gave() {
    let provider = W12PriceListProvider {};
    let sunday = provider.answer_for_weekday(Some(7_000), Some(6)).unwrap();
    assert_eq!(*sunday, provider.price_list_of_day(7_000, true));
    let tuesday = provider.answer_for_weekday(Some(7_000), Some(1)).unwrap();
    assert_eq!(*tuesday, provider.price_list_of_day(7_000, false));
    for answer in [
        provider.answer_for_weekday(None, Some(1)),
        provider.answer_for_weekday(Some(7_000), None),
        provider.answer_for_weekday(None, None),
    ] {
        match answer {
            Err(AppError::SystemError { message, code }) => {
                assert_eq!(message, "The day of the requested price list has no midnight");
                assert_eq!(code, 500);
            }
            _ => panic!("a day without a midnight should be refused"),
        }
    }
}

#[test]
fn the_market_page_of_a_day_is_that_of_the_day_before() {
    let day = 86_400_000;
    assert_eq!(DayAheadMarketPriceListProvider::day_of_market_page(5 * day), Some(4 * day));
    assert_eq!(DayAheadMarketPriceListProvider::day_of_market_page(0), Some(-day));
    assert_eq!(DayAheadMarketPriceListProvider::day_of_market_page(i64::MAX), None);
    assert_eq!(DayAheadMarketPriceListProvider::day_of_market_page(i64::MIN), None);
    assert_eq!(DayAheadMarketPriceListProvider::day_of_market_page(-8_000_000_000_000_000), None);
    assert_eq!(
        DayAheadMarketPriceListProvider::day_of_market_page(8_000_000_000_000_000),
        Some(8_000_000_000_000_000 - day)
    );
    assert_eq!(DayAheadMarketPriceListProvider::day_format(), "%d-%m-%Y");
}

#[test]
fn the_text_of_an_element_is_its_text_nodes_in_order() {
    let page = r#"<div><p class="a">one <b>two</b> three</p><p class="a">four</p><p class="b"></p></div>"#;
    assert_eq!(select_first_text(page, ".a"), Some("one two three".to_owned()));
    assert_eq!(select_first_text(page, "p.a b"), Some("two".to_owned()));
    assert_eq!(select_first_text(page, ".b"), Some(String::new()));
    assert_eq!(select_first_text(page, ".c"), None);
    assert_eq!(select_first_text(page, "p..a"), None);
}
