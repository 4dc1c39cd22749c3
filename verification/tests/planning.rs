use std::sync::Arc;

use chrono::{DateTime, Local, TimeZone, Utc};

use rusty_server::model::{
    AppError, ConsumptionPlanItem, ConsumptionPlanState, PriceCategory, PriceListItem, SwitchAction,
    SwitchActionState,
};
use rusty_server::power_consumers::selection::{
    apply_constraints_to_duration, calculate_price_items_weights, check_assembled_price_list,
    plan_from_price_list, precedes_by_price_weight_and_start_at,
    select_price_list_items_for_consumption_plan, sort_by_price_weight_and_start_at,
    sort_by_start_at,
};
use rusty_server::power_consumers::switching::create_switch_actions;
use rusty_server::power_consumers::{HomeAssistantService, PowerConsumer};
use rusty_server::price_list_providers::{
    SingleDayPriceList, TariffSelector, TariffTypes, TimePeriodPriceListService,
};
use rusty_server::settings::HttpCallConfig;

const MINUTE: i64 = 60_000;
const HOUR: i64 = 3_600_000;

struct NoMarket;

impl SingleDayPriceList for NoMarket {
    fn get_price_list(&self, _for_day: i64) -> Result<Arc<Vec<PriceListItem>>, AppError> {
        Err(AppError::not_found("no market"))
    }
}

fn create_power_consumer() -> PowerConsumer<TariffSelector<NoMarket>> {
    PowerConsumer::new(
        "test.device".to_owned(),
        "Smart switch".to_owned(),
        Arc::new(TimePeriodPriceListService::new(Arc::new(TariffSelector::new(
            TariffTypes::W12,
            NoMarket,
        )))),
        Arc::new(HomeAssistantService::new(&HttpCallConfig {
            base_url: "".to_owned(),
            token: "".to_owned(),
        })),
    )
}

fn date_time(year: i32, month: u32, day: u32, hour: u32, min: u32) -> DateTime<Utc> {
    Local.with_ymd_and_hms(year, month, day, hour, min, 0).map(|dt| dt.with_timezone(&Utc)).unwrap()
}

fn date(year: i32, month: u32, day: u32) -> DateTime<Utc> {
    date_time(year, month, day, 0, 0)
}

fn millis(at: DateTime<Utc>) -> i64 {
    at.timestamp_millis()
}

fn collect_switch_actions(consumption_plan_items: &[ConsumptionPlanItem]) -> Vec<&SwitchAction> {
    consumption_plan_items.iter().flat_map(|cp| cp.switch_actions().iter()).collect()
}

#[test]
fn consumption_plan_items_two_hours_in_the_night_in_w12() {
    let mut power_consumer = create_power_consumer();

    let start_time = date_time(2024, 8, 26, 19, 30);
    let end_time = date(2024, 8, 27);
    power_consumer.create_consumption_plan(90 * MINUTE, millis(start_time), millis(end_time)).unwrap();
    let consumption_plan_items = &power_consumer.consumption_plan().unwrap().consumption_plan_items;

    assert_eq!(consumption_plan_items.len(), 2);

    let switch_actions = collect_switch_actions(consumption_plan_items);
    assert_eq!(switch_actions.len(), 2);
    assert!(switch_actions[0].switch_on());
    assert_eq!(switch_actions[0].at(), millis(date_time(2024, 8, 26, 22, 0)));

    assert!(!switch_actions[1].switch_on());
    assert_eq!(switch_actions[1].at(), millis(date_time(2024, 8, 26, 23, 30)));
}

#[test]
fn consumption_plan_items_one_hour_in_the_night_in_w12() {
    let mut power_consumer = create_power_consumer();

    let start_time = date_time(2024, 8, 26, 19, 30);
    let end_time = date_time(2024, 8, 26, 23, 0);
    power_consumer.create_consumption_plan(60 * MINUTE, millis(start_time), millis(end_time)).unwrap();
    let consumption_plan_items = &power_consumer.consumption_plan().unwrap().consumption_plan_items;
    assert_eq!(consumption_plan_items.len(), 1);
    assert_eq!(consumption_plan_items.len(), 1);

    let switch_actions = collect_switch_actions(consumption_plan_items);
    assert_eq!(switch_actions.len(), 2);
    assert!(switch_actions[0].switch_on());
    assert_eq!(switch_actions[0].at(), millis(date_time(2024, 8, 26, 22, 0)));

    assert!(!switch_actions[1].switch_on());
    assert_eq!(switch_actions[1].at(), millis(date_time(2024, 8, 26, 23, 0)));
}

#[test]
fn consumption_plan_items_do_not_start_in_the_past() {
    let mut power_consumer = create_power_consumer();

    let start_time = date_time(2024, 8, 26, 23, 20);
    let end_time = date_time(2024, 8, 26, 23, 30);
    power_consumer.create_consumption_plan(5 * MINUTE, millis(start_time), millis(end_time)).unwrap();
    let consumption_plan_items = &power_consumer.consumption_plan().unwrap().consumption_plan_items;
    assert_eq!(consumption_plan_items.len(), 1);

    let switch_actions = collect_switch_actions(consumption_plan_items);
    assert_eq!(switch_actions.len(), 2);
    assert!(switch_actions[0].switch_on());
    assert_eq!(switch_actions[0].at(), millis(date_time(2024, 8, 26, 23, 25)));

    assert!(!switch_actions[1].switch_on());
    assert_eq!(switch_actions[1].at(), millis(date_time(2024, 8, 26, 23, 30)));
}

#[test]
fn consumption_plan_items_two_hours_one_in_the_noon_and_one_in_the_night_in_w12() {
    let mut power_consumer = create_power_consumer();

    let start_time = date_time(2024, 8, 26, 14, 0);
    let end_time = date_time(2024, 8, 26, 23, 0);
    power_consumer.create_consumption_plan(120 * MINUTE, millis(start_time), millis(end_time)).unwrap();
    let consumption_plan_items = &power_consumer.consumption_plan().unwrap().consumption_plan_items;
    assert_eq!(consumption_plan_items.len(), 2);
    assert_eq!(consumption_plan_items[0].price_list_item().starts_at(), millis(date_time(2024, 8, 26, 14, 0)));
    assert_eq!(consumption_plan_items[1].price_list_item().starts_at(), millis(date_time(2024, 8, 26, 22, 0)));

    let switch_actions = collect_switch_actions(consumption_plan_items);
    assert_eq!(switch_actions.len(), 4);
    assert!(switch_actions[0].switch_on());
    assert_eq!(switch_actions[0].at(), millis(date_time(2024, 8, 26, 14, 0)));

    assert!(!switch_actions[1].switch_on());
    assert_eq!(switch_actions[1].at(), millis(date_time(2024, 8, 26, 15, 0)));

    assert!(switch_actions[2].switch_on());
    assert_eq!(switch_actions[2].at(), millis(date_time(2024, 8, 26, 22, 0)));

    assert!(!switch_actions[3].switch_on());
    assert_eq!(switch_actions[3].at(), millis(date_time(2024, 8, 26, 23, 0)));
}

#[test]
fn consumption_plan_items_more_than_two_hours_one_in_noon_and_one_in_the_night_in_w12() {
    let mut power_consumer = create_power_consumer();

    let start_time = date_time(2024, 8, 26, 14, 0);
    let end_time = date_time(2024, 8, 26, 23, 0);
    power_consumer.create_consumption_plan(130 * MINUTE, millis(start_time), millis(end_time)).unwrap();
    let consumption_plan_items = &power_consumer.consumption_plan().unwrap().consumption_plan_items;
    assert_eq!(consumption_plan_items.len(), 3);

    let switch_actions = collect_switch_actions(consumption_plan_items);
    assert_eq!(switch_actions.len(), 4);
    assert!(switch_actions[0].switch_on());
    assert_eq!(switch_actions[0].at(), millis(date_time(2024, 8, 26, 14, 0)));

    assert!(!switch_actions[1].switch_on());
    assert_eq!(switch_actions[1].at(), millis(date_time(2024, 8, 26, 15, 10)));

    assert!(switch_actions[2].switch_on());
    assert_eq!(switch_actions[2].at(), millis(date_time(2024, 8, 26, 22, 0)));

    assert!(!switch_actions[3].switch_on());
    assert_eq!(switch_actions[3].at(), millis(date_time(2024, 8, 26, 23, 0)));
}

#[test]
fn consumption_plan_items_more_than_two_hours_two_in_the_night_in_w12_ten_in_the_noon() {
    let mut power_consumer = create_power_consumer();

    let start_time = date_time(2024, 8, 26, 14, 0);
    let end_time = date_time(2024, 8, 27, 0, 0);
    power_consumer.create_consumption_plan(130 * MINUTE, millis(start_time), millis(end_time)).unwrap();
    let consumption_plan_items = &power_consumer.consumption_plan().unwrap().consumption_plan_items;
    assert_eq!(consumption_plan_items.len(), 3);

    let switch_actions = collect_switch_actions(consumption_plan_items);
    assert_eq!(switch_actions.len(), 4);
    assert!(switch_actions[0].switch_on());
    assert_eq!(switch_actions[0].at(), millis(date_time(2024, 8, 26, 14, 50)));

    assert!(!switch_actions[1].switch_on());
    assert_eq!(switch_actions[1].at(), millis(date_time(2024, 8, 26, 15, 0)));

    assert!(switch_actions[2].switch_on());
    assert_eq!(switch_actions[2].at(), millis(date_time(2024, 8, 26, 22, 0)));

    assert!(!switch_actions[3].switch_on());
    assert_eq!(switch_actions[3].at(), millis(date_time(2024, 8, 27, 0, 0)));
}

#[test]
fn consumption_plan_items_more_than_two_hours_both_in_the_night_in_w12() {
    let mut power_consumer = create_power_consumer();

    let start_time = date_time(2024, 8, 26, 14, 0);
    let end_time = date_time(2024, 8, 27, 0, 0);

    power_consumer.create_consumption_plan(120 * MINUTE, millis(start_time), millis(end_time)).unwrap();
    let consumption_plan_items = &power_consumer.consumption_plan().unwrap().consumption_plan_items;
    assert_eq!(consumption_plan_items.len(), 2);

    let switch_actions = collect_switch_actions(consumption_plan_items);
    assert_eq!(switch_actions.len(), 2);

    assert!(switch_actions[0].switch_on());
    assert_eq!(switch_actions[0].at(), millis(date_time(2024, 8, 26, 22, 0)));

    assert!(!switch_actions[1].switch_on());
    assert_eq!(switch_actions[1].at(), millis(date_time(2024, 8, 27, 0, 0)));
}

#[test]
fn cancel_consumption_plan_which_is_waiting_for_execution() {
    let mut power_consumer = create_power_consumer();

    let start_time = date_time(2024, 8, 26, 14, 0);
    let end_time = date_time(2024, 8, 27, 0, 0);
    power_consumer.create_consumption_plan(120 * MINUTE, millis(start_time), millis(end_time)).unwrap();

    let commands = power_consumer.cancel_consumption_plan(millis(date_time(2024, 8, 26, 12, 0)));
    let consumption_plan = power_consumer.consumption_plan().unwrap();
    assert_eq!(consumption_plan.state, ConsumptionPlanState::Canceled);

    let switch_actions = collect_switch_actions(&consumption_plan.consumption_plan_items);
    assert_eq!(switch_actions.len(), 2);

    assert_eq!(*switch_actions[0].state(), SwitchActionState::Canceled);
    assert_eq!(switch_actions[0].at(), millis(date_time(2024, 8, 26, 22, 0)));

    assert_eq!(*switch_actions[1].state(), SwitchActionState::Canceled);
    assert_eq!(switch_actions[1].at(), millis(date_time(2024, 8, 27, 0, 0)));

    assert_eq!(commands.len(), 1);
    assert_eq!(commands[0].entity_id, "test.device");
    assert!(!commands[0].switch_on);
}

#[test]
fn cancel_scenario_plan_created_at_noon() {
    let mut power_consumer = create_power_consumer();
    let start_time = date_time(2024, 8, 26, 19, 30);
    let end_time = date(2024, 8, 27);
    power_consumer.create_consumption_plan(90 * MINUTE, millis(start_time), millis(end_time)).unwrap();
    power_consumer.cancel_consumption_plan(millis(date_time(2024, 8, 26, 12, 0)));
    let consumption_plan = power_consumer.consumption_plan().unwrap();
    assert_eq!(consumption_plan.state, ConsumptionPlanState::Canceled);
    let switch_actions = collect_switch_actions(&consumption_plan.consumption_plan_items);
    assert_eq!(switch_actions.len(), 2);
    assert_eq!(*switch_actions[0].state(), SwitchActionState::Canceled);
    assert_eq!(*switch_actions[1].state(), SwitchActionState::Canceled);
}

fn cell(starts_at: i64, duration: i64, price: i32) -> PriceListItem {
    PriceListItem::new(starts_at, duration, price, PriceCategory::Medium)
}

fn hourly(prices: &[i32]) -> Vec<PriceListItem> {
    prices.iter().enumerate().map(|(hour, price)| cell(hour as i64 * HOUR, HOUR, *price)).collect()
}

fn flat_switches(items: &[ConsumptionPlanItem]) -> Vec<(i64, bool)> {
    collect_switch_actions(items).iter().map(|action| (action.at(), action.switch_on())).collect()
}

#[test]
fn effective_duration_is_the_part_of_the_cell_inside_the_window() {
    let item = cell(10 * HOUR, HOUR, 1);
    assert_eq!(apply_constraints_to_duration(&item, 0, 24 * HOUR), HOUR);
    assert_eq!(apply_constraints_to_duration(&item, 10 * HOUR + 20 * MINUTE, 24 * HOUR), 40 * MINUTE);
    assert_eq!(apply_constraints_to_duration(&item, 0, 10 * HOUR + 15 * MINUTE), 15 * MINUTE);
    assert_eq!(
        apply_constraints_to_duration(&item, 10 * HOUR + 10 * MINUTE, 10 * HOUR + 15 * MINUTE),
        5 * MINUTE
    );
    assert_eq!(apply_constraints_to_duration(&item, 11 * HOUR, 24 * HOUR), 0);
    assert_eq!(apply_constraints_to_duration(&item, 0, 10 * HOUR), 0);
    assert_eq!(apply_constraints_to_duration(&item, 12 * HOUR, 24 * HOUR), 0);
}

#[test]
fn weights_are_the_minutes_of_the_stretch_of_equal_prices() {
    let mut price_list = hourly(&[100_000, 100_000, 200_000, 100_000, 100_999, 100_000, 101_000]);
    calculate_price_items_weights(&mut price_list, 30 * MINUTE, 6 * HOUR + 30 * MINUTE);
    let weights: Vec<i64> = price_list.iter().map(|item| item.weight()).collect();
    assert_eq!(weights, vec![90, 90, 60, 180, 180, 180, 30]);
    for (hour, item) in price_list.iter().enumerate() {
        assert_eq!(item.starts_at(), hour as i64 * HOUR);
        assert_eq!(item.duration(), HOUR);
    }
}

#[test]
fn weights_count_whole_minutes_of_every_cell() {
    let mut price_list = vec![cell(0, 90_000, 5), cell(90_000, 90_000, 5)];
    calculate_price_items_weights(&mut price_list, 0, 180_000);
    assert_eq!(price_list[0].weight(), 2);
    assert_eq!(price_list[1].weight(), 2);
}

#[test]
fn cheaper_then_heavier_then_earlier_comes_first() {
    let mut cheap = cell(5 * HOUR, HOUR, 1);
    let mut dear = cell(0, HOUR, 2);
    cheap.set_weight(1);
    dear.set_weight(100);
    assert!(precedes_by_price_weight_and_start_at(&cheap, &dear));
    assert!(!precedes_by_price_weight_and_start_at(&dear, &cheap));

    let mut heavy = cell(5 * HOUR, HOUR, 1);
    let mut light = cell(0, HOUR, 1);
    heavy.set_weight(120);
    light.set_weight(60);
    assert!(precedes_by_price_weight_and_start_at(&heavy, &light));
    assert!(!precedes_by_price_weight_and_start_at(&light, &heavy));

    let early = cell(0, HOUR, 1);
    let late = cell(HOUR, HOUR, 1);
    assert!(precedes_by_price_weight_and_start_at(&early, &late));
    assert!(!precedes_by_price_weight_and_start_at(&late, &early));
    assert!(!precedes_by_price_weight_and_start_at(&early, &early));
}

#[test]
fn cells_are_ordered_for_selection() {
    let mut price_list = hourly(&[300_000, 100_000, 200_000, 100_000, 100_000]);
    calculate_price_items_weights(&mut price_list, 0, 5 * HOUR);
    let ordered = sort_by_price_weight_and_start_at(&price_list);
    let starts: Vec<i64> = ordered.iter().map(|item| item.starts_at() / HOUR).collect();
    assert_eq!(starts, vec![3, 4, 1, 2, 0]);
}

#[test]
fn plan_items_are_put_in_order_of_time() {
    let items = vec![
        ConsumptionPlanItem::new(cell(3 * HOUR, HOUR, 1), HOUR),
        ConsumptionPlanItem::new(cell(HOUR, HOUR, 1), 5),
        ConsumptionPlanItem::new(cell(2 * HOUR, HOUR, 1), 7),
    ];
    let ordered = sort_by_start_at(items);
    let starts: Vec<(i64, i64)> =
        ordered.iter().map(|item| (item.price_list_item().starts_at() / HOUR, item.duration())).collect();
    assert_eq!(starts, vec![(1, 5), (2, 7), (3, HOUR)]);
}

#[test]
fn selection_takes_the_cheapest_cells_and_the_rest_from_the_next() {
    let price_list = hourly(&[300_000, 100_000, 200_000, 100_000, 100_000]);
    let plan = select_price_list_items_for_consumption_plan(price_list, 150 * MINUTE, 0, 5 * HOUR);
    let taken: Vec<(i64, i64)> =
        plan.iter().map(|item| (item.price_list_item().starts_at() / HOUR, item.duration())).collect();
    assert_eq!(taken, vec![(1, 30 * MINUTE), (3, HOUR), (4, HOUR)]);
    let weights: Vec<i64> = plan.iter().map(|item| item.price_list_item().weight()).collect();
    assert_eq!(weights, vec![60, 120, 120]);
    assert!(plan.iter().all(|item| item.switch_actions().is_empty()));
}

#[test]
fn selected_durations_add_up_to_the_requested_duration() {
    for minutes in [1, 59, 60, 61, 119, 120, 121, 200, 299, 300] {
        let price_list = hourly(&[300_000, 100_000, 200_000, 100_000, 100_000]);
        let plan = select_price_list_items_for_consumption_plan(price_list, minutes * MINUTE, 0, 5 * HOUR);
        let total: i64 = plan.iter().map(|item| item.duration()).sum();
        assert_eq!(total, minutes * MINUTE);
        for pair in plan.windows(2) {
            assert!(pair[0].price_list_item().starts_at() < pair[1].price_list_item().starts_at());
        }
    }
}

#[test]
fn selection_keeps_millisecond_precision() {
    let price_list = hourly(&[2, 1, 3]);
    let plan = select_price_list_items_for_consumption_plan(price_list, HOUR + 1, 0, 3 * HOUR);
    let taken: Vec<(i64, i64)> =
        plan.iter().map(|item| (item.price_list_item().starts_at() / HOUR, item.duration())).collect();
    assert_eq!(taken, vec![(0, 1), (1, HOUR)]);
}

#[test]
fn selection_takes_all_there_is_when_the_list_offers_less() {
    let price_list = hourly(&[2, 1]);
    let plan = select_price_list_items_for_consumption_plan(price_list, 5 * HOUR, 30 * MINUTE, 2 * HOUR);
    let taken: Vec<(i64, i64)> =
        plan.iter().map(|item| (item.price_list_item().starts_at() / HOUR, item.duration())).collect();
    assert_eq!(taken, vec![(0, 30 * MINUTE), (1, HOUR)]);
}

fn cost(plan: &[(i32, i64)]) -> i128 {
    plan.iter().map(|(price, duration)| *price as i128 * *duration as i128).sum()
}

#[test]
fn no_other_way_to_spend_the_duration_is_cheaper() {
    let prices = [300_000, 100_000, 200_000, 100_000, 150_000];
    let requested = 150 * MINUTE;
    let plan = select_price_list_items_for_consumption_plan(hourly(&prices), requested, 0, 5 * HOUR);
    let planned: Vec<(i32, i64)> =
        plan.iter().map(|item| (item.price_list_item().price(), item.duration())).collect();
    assert_eq!(cost(&planned), 100_000 * 120 * MINUTE as i128 + 150_000 * 30 * MINUTE as i128);
    let step = 30 * MINUTE;
    for a in 0..=2 {
        for b in 0..=2 {
            for c in 0..=2 {
                for d in 0..=2 {
                    for e in 0..=2 {
                        let spent = [a * step, b * step, c * step, d * step, e * step];
                        if spent.iter().sum::<i64>() != requested {
                            continue;
                        }
                        let alternative: Vec<(i32, i64)> =
                            prices.iter().cloned().zip(spent.iter().cloned()).collect();
                        assert!(cost(&planned) <= cost(&alternative));
                    }
                }
            }
        }
    }
}

#[test]
fn a_price_list_that_is_no_curve_for_the_window_is_refused() {
    let ok = hourly(&[1, 2, 3]);
    assert!(check_assembled_price_list(&ok, 0, 3 * HOUR));
    assert!(check_assembled_price_list(&ok, 30 * MINUTE, 2 * HOUR + 1));
    assert!(!check_assembled_price_list(&ok, 0, 2 * HOUR));
    assert!(!check_assembled_price_list(&ok, HOUR, 3 * HOUR));
    assert!(!check_assembled_price_list(&ok, 3 * HOUR, 0));
    assert!(!check_assembled_price_list(&ok, HOUR, HOUR));
    let overlapping = vec![cell(0, 2 * HOUR, 1), cell(HOUR, HOUR, 1)];
    assert!(!check_assembled_price_list(&overlapping, 0, 2 * HOUR));
    let unordered = vec![cell(HOUR, HOUR, 1), cell(0, HOUR, 1)];
    assert!(!check_assembled_price_list(&unordered, 0, 2 * HOUR));
    let empty_cell = vec![cell(0, 0, 1)];
    assert!(!check_assembled_price_list(&empty_cell, -HOUR, HOUR));
    let with_gap = vec![cell(0, HOUR, 1), cell(2 * HOUR, HOUR, 1)];
    assert!(check_assembled_price_list(&with_gap, 0, 3 * HOUR));
    assert!(check_assembled_price_list(&Vec::new(), 0, HOUR));
}

#[test]
fn planning_refuses_a_price_list_that_cannot_carry_the_plan() {
    let unordered = vec![cell(HOUR, HOUR, 1), cell(0, HOUR, 1)];
    match plan_from_price_list(unordered, HOUR, 0, 2 * HOUR) {
        Err(AppError::SystemError { message, code }) => {
            assert_eq!(message, "Price list does not cover the requested period");
            assert_eq!(code, 500);
        }
        _ => panic!("an unordered list should be refused"),
    }
    assert!(plan_from_price_list(hourly(&[1, 2]), 2 * HOUR + 1, 0, 3 * HOUR).is_err());
    assert!(plan_from_price_list(Vec::new(), 1, 0, HOUR).is_err());
    let plan = plan_from_price_list(hourly(&[1, 2]), 2 * HOUR, 0, 2 * HOUR).unwrap();
    assert_eq!(plan.len(), 2);
}

fn planned(price_list: Vec<PriceListItem>, duration: i64, start_from: i64, finish_at: i64) -> Vec<ConsumptionPlanItem> {
    let mut plan = plan_from_price_list(price_list, duration, start_from, finish_at).unwrap();
    create_switch_actions(&mut plan, start_from, finish_at);
    plan
}

fn assert_plan_invariants(plan: &[ConsumptionPlanItem], duration: i64, start_from: i64, finish_at: i64) {
    let total: i64 = plan.iter().map(|item| item.duration()).sum();
    assert_eq!(total, duration);
    let switches = flat_switches(plan);
    assert!(switches.len() >= 2);
    assert_eq!(switches.len() % 2, 0);
    for (index, (at, switch_on)) in switches.iter().enumerate() {
        assert_eq!(*switch_on, index % 2 == 0);
        assert!(start_from <= *at && *at <= finish_at);
    }
    for pair in switches.windows(2) {
        assert!(pair[0].0 < pair[1].0);
    }
    let on_time: i64 = switches.chunks(2).map(|pair| pair[1].0 - pair[0].0).sum();
    assert_eq!(on_time, duration);
    for item in plan {
        assert!(item.switch_actions().len() <= 2);
        for action in item.switch_actions() {
            assert!(item.price_list_item().starts_at() <= action.at());
            assert!(action.at() <= item.price_list_item().starts_at() + item.price_list_item().duration());
            assert_eq!(*action.state(), SwitchActionState::Scheduled);
        }
    }
}

#[test]
fn switch_actions_take_turns_and_keep_the_device_on_for_the_duration() {
    let prices = [300_000, 100_000, 200_000, 100_000, 100_000, 250_000, 100_000];
    for minutes in [1, 30, 60, 61, 90, 120, 121, 180, 185, 240, 250, 300, 330, 389] {
        for (start_from, finish_at) in
            [(0, 7 * HOUR), (30 * MINUTE, 6 * HOUR + 30 * MINUTE), (HOUR + 1, 7 * HOUR - 1)]
        {
            let duration = minutes * MINUTE;
            if duration > finish_at - start_from {
                continue;
            }
            let price_list: Vec<PriceListItem> = hourly(&prices)
                .into_iter()
                .filter(|item| item.starts_at() + item.duration() > start_from && item.starts_at() < finish_at)
                .collect();
            let plan = planned(price_list, duration, start_from, finish_at);
            assert_plan_invariants(&plan, duration, start_from, finish_at);
        }
    }
}

#[test]
fn a_gap_between_items_switches_the_device_off_and_on_again() {
    let plan = planned(hourly(&[1, 9, 1]), 2 * HOUR, 0, 3 * HOUR);
    assert_eq!(flat_switches(&plan), vec![(0, true), (HOUR, false), (2 * HOUR, true), (3 * HOUR, false)]);
    assert_eq!(plan[0].switch_actions().len(), 2);
    assert_eq!(plan[1].switch_actions().len(), 2);
}

#[test]
fn adjacent_whole_cells_need_one_switch_on_and_one_switch_off() {
    let plan = planned(hourly(&[1, 1, 1, 9]), 3 * HOUR, 0, 4 * HOUR);
    assert_eq!(flat_switches(&plan), vec![(0, true), (3 * HOUR, false)]);
    assert_eq!(plan[0].switch_actions().len(), 1);
    assert_eq!(plan[1].switch_actions().len(), 0);
    assert_eq!(plan[2].switch_actions().len(), 1);
}

#[test]
fn a_partial_cell_behind_a_used_one_is_used_from_its_start() {
    let plan = planned(hourly(&[1, 2, 9]), HOUR + 10 * MINUTE, 0, 3 * HOUR);
    assert_eq!(flat_switches(&plan), vec![(0, true), (HOUR + 10 * MINUTE, false)]);
}

#[test]
fn a_partial_cell_on_its_own_is_used_up_to_its_end() {
    let plan = planned(hourly(&[2, 9, 1]), HOUR + 10 * MINUTE, 0, 3 * HOUR);
    assert_eq!(
        flat_switches(&plan),
        vec![(50 * MINUTE, true), (HOUR, false), (2 * HOUR, true), (3 * HOUR, false)]
    );
}

#[test]
fn a_partial_cell_is_used_up_to_the_finish_when_that_comes_first() {
    let plan = planned(hourly(&[9, 1]), 10 * MINUTE, 0, HOUR + 30 * MINUTE);
    assert_eq!(flat_switches(&plan), vec![(HOUR + 20 * MINUTE, true), (HOUR + 30 * MINUTE, false)]);
}

#[test]
fn every_switch_action_has_an_identifier_of_its_own() {
    let plan = planned(hourly(&[1, 9, 1, 9, 1]), 3 * HOUR, 0, 5 * HOUR);
    let mut ids: Vec<u128> = collect_switch_actions(&plan).iter().map(|action| action.id()).collect();
    assert_eq!(ids.len(), 6);
    ids.sort();
    ids.dedup();
    assert_eq!(ids.len(), 6);
}

#[test]
fn a_new_plan_is_in_process_and_keeps_the_request() {
    let mut power_consumer = create_power_consumer();
    let start_time = millis(date_time(2024, 8, 26, 14, 0));
    let end_time = millis(date_time(2024, 8, 27, 0, 0));
    power_consumer.create_consumption_plan(130 * MINUTE, start_time, end_time).unwrap();
    let plan = power_consumer.consumption_plan().unwrap();
    assert_eq!(plan.state, ConsumptionPlanState::Processing);
    assert_eq!(plan.created_at, start_time);
    assert_eq!(plan.finish_at, end_time);
    assert_eq!(plan.consumption_duration, 130 * MINUTE);
    assert_plan_invariants(&plan.consumption_plan_items, 130 * MINUTE, start_time, end_time);
}

#[test]
fn a_plan_that_the_price_list_cannot_carry_leaves_the_old_plan() {
    let mut power_consumer = create_power_consumer();
    let start_time = millis(date_time(2024, 8, 26, 14, 0));
    let end_time = millis(date_time(2024, 8, 26, 15, 0));
    assert!(power_consumer.create_consumption_plan(2 * HOUR, start_time, end_time).is_err());
    assert!(power_consumer.consumption_plan().is_none());
    assert!(power_consumer.create_consumption_plan(HOUR, end_time, start_time).is_err());
    assert!(power_consumer.consumption_plan().is_none());
}
