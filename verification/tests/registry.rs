use std::sync::Arc;

use chrono::{DateTime, Local, TimeZone, Utc};

use rusty_server::model::{AppError, ConsumptionPlanState, SwitchActionState};
use rusty_server::power_consumers::power_consumer::{
    default_charging_finish_time, next_morning_request, time_of_day_format, SwitchCommand,
};
use rusty_server::power_consumers::switch_actions_scheduler::SwitchStep;
use rusty_server::power_consumers::{
    HomeAssistantService, PowerConsumer, PowerConsumersService, SwitchActionsScheduler,
};
use rusty_server::price_list_providers::{TariffSelectorPriceList, TariffTypes, TimePeriodPriceListService};
use rusty_server::settings::{HttpCallConfig, PowerConsumerConfig, Settings};

const MINUTE: i64 = 60_000;
const HOUR: i64 = 3_600_000;

fn date_time(year: i32, month: u32, day: u32, hour: u32, min: u32) -> i64 {
    let at: DateTime<Utc> =
        Local.with_ymd_and_hms(year, month, day, hour, min, 0).map(|dt| dt.with_timezone(&Utc)).unwrap();
    at.timestamp_millis()
}

fn home_assistant(token: &str) -> Arc<HomeAssistantService> {
    Arc::new(HomeAssistantService::new(&HttpCallConfig {
        base_url: "http://ha.local:8123".to_owned(),
        token: token.to_owned(),
    }))
}

fn settings() -> Settings {
    Settings {
        application_port: 3000,
        tariff_type: TariffTypes::W12,
        home_assistant_config: HttpCallConfig { base_url: "http://ha.local:8123".to_owned(), token: "t".to_owned() },
        power_consumers: vec![
            PowerConsumerConfig { device_id: "switch.charger".to_owned(), name: "Charger".to_owned() },
            PowerConsumerConfig { device_id: "switch.boiler".to_owned(), name: "Boiler".to_owned() },
            PowerConsumerConfig { device_id: "switch.charger".to_owned(), name: "Car".to_owned() },
        ],
    }
}

fn service() -> PowerConsumersService<TariffSelectorPriceList> {
    let settings = settings();
    let home_assistant_service = home_assistant(&settings.home_assistant_config.token);
    let mut service = PowerConsumersService::new(
        &settings.power_consumers,
        Arc::new(TariffSelectorPriceList::new(settings.tariff_type)),
        home_assistant_service.clone(),
    );
    service.set_switch_actions_scheduler(Some(Arc::new(SwitchActionsScheduler::new(home_assistant_service))));
    service
}

fn consumer() -> PowerConsumer<TariffSelectorPriceList> {
    PowerConsumer::new(
        "test.device".to_owned(),
        "Smart switch".to_owned(),
        Arc::new(TimePeriodPriceListService::new(Arc::new(TariffSelectorPriceList::new(TariffTypes::W12)))),
        home_assistant(""),
    )
}

fn user_error(result: Result<(), AppError>) -> (String, u16) {
    match result {
        Err(AppError::UserError { message, code }) => (message, code),
        _ => panic!("a user error was expected"),
    }
}

#[test]
fn the_registry_holds_every_configured_device_once() {
    let service = service();
    assert!(service.switch_actions_scheduler().is_some());
    let models = service.get_power_consumers_model_list();
    let listed: Vec<(&str, &str)> = models.iter().map(|m| (m.id.as_str(), m.name.as_str())).collect();
    assert_eq!(listed, vec![("switch.charger", "Car"), ("switch.boiler", "Boiler")]);
    for model in &models {
        assert_eq!(model.default_consumption_duration, 90 * MINUTE);
        assert!(model.consumption_plan.is_none());
        assert!(model.charging_status_url.is_none());
        assert!(model.default_finish_at.is_some());
    }
    assert_eq!(service.get_power_consumer(&"switch.boiler".to_owned()).unwrap().id(), "switch.boiler");
    assert!(service.get_power_consumer(&"switch.unknown".to_owned()).is_none());
}

#[test]
fn a_new_registry_has_no_scheduler() {
    let settings = settings();
    let mut service = PowerConsumersService::new(
        &settings.power_consumers,
        Arc::new(TariffSelectorPriceList::new(TariffTypes::W12)),
        home_assistant("t"),
    );
    assert!(service.switch_actions_scheduler().is_none());
    match service.schedule_consumption_plan_at("switch.boiler".to_owned(), HOUR, 0, 2 * HOUR) {
        Err(AppError::SystemError { message, code }) => {
            assert_eq!(message, "Switch actions scheduler is missing");
            assert_eq!(code, 500);
        }
        _ => panic!("a registry without a scheduler cannot schedule"),
    }
}

#[test]
fn an_unknown_device_is_not_found() {
    let mut service = service();
    let now = date_time(2024, 8, 26, 12, 0);
    match service.schedule_consumption_plan_at("switch.unknown".to_owned(), HOUR, now, now + 5 * HOUR) {
        Err(AppError::UserError { message, code }) => {
            assert_eq!(message, "Power consumer not found");
            assert_eq!(code, 404);
        }
        _ => panic!("an unknown device should not be found"),
    }
    match service.schedule_consumption_plan("switch.unknown".to_owned(), HOUR, now + 5 * HOUR) {
        Err(AppError::UserError { message, code }) => {
            assert_eq!(message, "Power consumer not found");
            assert_eq!(code, 404);
        }
        _ => panic!("an unknown device should not be found"),
    }
    for canceled in [
        service.cancel_consumption_plan_at("switch.unknown".to_owned(), now),
        service.cancel_consumption_plan("switch.unknown".to_owned()),
    ] {
        match canceled {
            Err(AppError::UserError { message, code }) => {
                assert_eq!(message, "Power consumer not found");
                assert_eq!(code, 404);
            }
            _ => panic!("an unknown device should not be found"),
        }
    }
    assert!(service.due_switch_command(&"switch.unknown".to_owned(), 1).is_none());
    assert!(!service.complete_switch_action(&"switch.unknown".to_owned(), 1, Ok(()), now));
}

#[test]
fn a_request_without_duration_or_without_time_is_refused() {
    let consumer = consumer();
    let now = date_time(2024, 8, 26, 12, 0);
    assert_eq!(
        user_error(consumer.validate_schedule_consumption_plan_inputs(0, now + HOUR, now)),
        ("Consumption duration should be grater than zero!".to_owned(), 400)
    );
    assert_eq!(
        user_error(consumer.validate_schedule_consumption_plan_inputs(-1, now + HOUR, now)),
        ("Consumption duration should be grater than zero!".to_owned(), 400)
    );
    let finish = Utc.with_ymd_and_hms(2024, 8, 26, 9, 5, 7).unwrap().timestamp_millis();
    assert_eq!(
        user_error(consumer.validate_schedule_consumption_plan_inputs(HOUR, finish, finish)),
        ("Finish at should be in the future! Requested finish time: 2024 08 26 09:05:07".to_owned(), 400)
    );
    assert_eq!(
        user_error(consumer.validate_schedule_consumption_plan_inputs(HOUR, finish, finish + 1)),
        ("Finish at should be in the future! Requested finish time: 2024 08 26 09:05:07".to_owned(), 400)
    );
    assert_eq!(
        user_error(consumer.validate_schedule_consumption_plan_inputs(HOUR, i64::MIN, 0)),
        ("Finish at should be in the future! Requested finish time: ".to_owned(), 400)
    );
    assert_eq!(
        user_error(consumer.validate_schedule_consumption_plan_inputs(90 * MINUTE + 59_999, now + 90 * MINUTE, now)),
        ("Finish at is too early to execute required consumption duration time 90 minutes!".to_owned(), 400)
    );
    assert_eq!(
        user_error(consumer.validate_schedule_consumption_plan_inputs(i64::MAX, i64::MIN + 10, i64::MIN)),
        (
            "Finish at is too early to execute required consumption duration time 153722867280912 minutes!"
                .to_owned(),
            400
        )
    );
    assert!(consumer.validate_schedule_consumption_plan_inputs(HOUR, now + HOUR, now).is_ok());
    assert!(consumer.validate_schedule_consumption_plan_inputs(1, now + 1, now).is_ok());
}

#[test]
fn scheduling_is_refused_while_a_plan_is_in_process() {
    let mut consumer = consumer();
    let scheduler = SwitchActionsScheduler::new(home_assistant("t"));
    let now = date_time(2024, 8, 26, 12, 0);
    let finish = date_time(2024, 8, 27, 0, 0);
    assert!(!consumer.has_processing_plan());
    let steps = consumer.schedule_consumption_plan(&scheduler, 90 * MINUTE, now, finish).unwrap();
    assert!(consumer.has_processing_plan());
    let plan_id = consumer.consumption_plan().unwrap().id;
    assert_eq!(steps.len(), 2);
    assert_eq!(
        user_error(consumer.validate_schedule_consumption_plan_inputs(0, 0, now)),
        ("Current plan needs to be canceled!".to_owned(), 400)
    );
    match consumer.schedule_consumption_plan(&scheduler, 60 * MINUTE, now, finish) {
        Err(AppError::UserError { message, code }) => {
            assert_eq!(message, "Current plan needs to be canceled!");
            assert_eq!(code, 400);
        }
        _ => panic!("a second plan should be refused"),
    }
    assert_eq!(consumer.consumption_plan().unwrap().id, plan_id);
    assert_eq!(consumer.consumption_plan().unwrap().consumption_duration, 90 * MINUTE);
    consumer.cancel_consumption_plan(now);
    assert!(!consumer.has_processing_plan());
    assert!(consumer.schedule_consumption_plan(&scheduler, 60 * MINUTE, now, finish).is_ok());
    assert_ne!(consumer.consumption_plan().unwrap().id, plan_id);
}

#[test]
fn a_refused_request_leaves_the_device_without_a_plan() {
    let mut consumer = consumer();
    let scheduler = SwitchActionsScheduler::new(home_assistant("t"));
    let now = date_time(2024, 8, 26, 12, 0);
    for (duration, finish) in [(0, now + HOUR), (HOUR, now), (HOUR, now - 1), (2 * HOUR, now + HOUR)] {
        match consumer.schedule_consumption_plan(&scheduler, duration, now, finish) {
            Err(AppError::UserError { message: _, code }) => assert_eq!(code, 400),
            _ => panic!("the request should be refused"),
        }
        assert!(consumer.consumption_plan().is_none());
    }
}

#[test]
fn scheduling_says_what_to_do_about_every_switch_action() {
    let mut service = service();
    let now = date_time(2024, 8, 26, 21, 59) + 50_000;
    let finish = date_time(2024, 8, 27, 0, 0);
    let steps = service.schedule_consumption_plan_at("switch.boiler".to_owned(), 90 * MINUTE, now, finish).unwrap();
    let id = "switch.boiler".to_owned();
    let plan = service.get_power_consumer(&id).unwrap().consumption_plan().unwrap();
    assert_eq!(plan.state, ConsumptionPlanState::Processing);
    assert_eq!(plan.created_at, now);
    let actions: Vec<_> = plan.consumption_plan_items.iter().flat_map(|item| item.switch_actions.iter()).collect();
    assert_eq!(actions.len(), 2);
    assert_eq!(actions[0].at, now);
    assert_eq!(actions[1].at, date_time(2024, 8, 26, 23, 30));
    assert_eq!(
        steps,
        vec![
            SwitchStep::ExecuteNow { action_id: actions[0].id, switch_on: true },
            SwitchStep::ExecuteAfter { action_id: actions[1].id, sleep_for: (90 * MINUTE + 10_000) as u64 },
        ]
    );
    let other = service.get_power_consumer(&"switch.charger".to_owned()).unwrap();
    assert!(other.consumption_plan().is_none());
}

fn off(command: &SwitchCommand, device: &str) -> bool {
    command.entity_id == device && !command.switch_on
}

#[test]
fn switch_actions_are_completed_one_by_one() {
    let mut service = service();
    let id = "switch.charger".to_owned();
    let now = date_time(2024, 8, 26, 14, 0);
    let finish = date_time(2024, 8, 26, 23, 0);
    let steps = service.schedule_consumption_plan_at(id.clone(), 120 * MINUTE, now, finish).unwrap();
    assert_eq!(steps.len(), 4);
    let ids: Vec<u128> = steps
        .iter()
        .map(|step| match step {
            SwitchStep::ExecuteNow { action_id, .. } => *action_id,
            SwitchStep::ExecuteAfter { action_id, .. } => *action_id,
        })
        .collect();
    let first = service.due_switch_command(&id, ids[0]).unwrap();
    assert_eq!(first.entity_id, "switch.charger");
    assert!(first.switch_on);
    assert!(service.due_switch_command(&id, 12345).is_none());
    assert!(service.due_switch_command(&"switch.boiler".to_owned(), ids[0]).is_none());
    assert!(!service.complete_switch_action(&id, 12345, Ok(()), now));
    assert!(!service.complete_switch_action(&"switch.boiler".to_owned(), ids[0], Ok(()), now));

    assert!(service.complete_switch_action(&id, ids[0], Ok(()), now + 1));
    assert!(service.due_switch_command(&id, ids[0]).is_none());
    let second = service.due_switch_command(&id, ids[1]).unwrap();
    assert!(off(&second, "switch.charger"));
    assert!(service.complete_switch_action(&id, ids[1], Err(AppError::system_error("gateway down")), now + 2));
    assert!(service.complete_switch_action(&id, ids[2], Ok(()), now + 3));
    {
        let plan = service.get_power_consumer(&id).unwrap().consumption_plan().unwrap();
        assert_eq!(plan.state, ConsumptionPlanState::Processing);
    }
    assert!(service.complete_switch_action(&id, ids[3], Ok(()), now + 4));
    let plan = service.get_power_consumer(&id).unwrap().consumption_plan().unwrap();
    assert_eq!(plan.state, ConsumptionPlanState::Executed);
    let actions: Vec<_> = plan.consumption_plan_items.iter().flat_map(|item| item.switch_actions.iter()).collect();
    assert!(actions.iter().all(|action| action.state == SwitchActionState::Executed));
    assert_eq!(actions[0].executed_at, Some(now + 1));
    assert_eq!(actions[0].result.as_deref(), Some("OK"));
    assert_eq!(actions[1].executed_at, Some(now + 2));
    assert_eq!(actions[1].result.as_deref(), Some("[SystemError] gateway down"));
    let models = service.get_power_consumers_model_list();
    assert_eq!(models[0].consumption_plan.unwrap().state, ConsumptionPlanState::Executed);
    assert!(models[1].consumption_plan.is_none());
}

#[test]
fn canceling_a_started_plan_switches_the_device_off() {
    let mut service = service();
    let id = "switch.charger".to_owned();
    let now = date_time(2024, 8, 26, 14, 0);
    let finish = date_time(2024, 8, 26, 23, 0);
    let steps = service.schedule_consumption_plan_at(id.clone(), 120 * MINUTE, now, finish).unwrap();
    let first = match steps[0] {
        SwitchStep::ExecuteNow { action_id, switch_on } => {
            assert!(switch_on);
            action_id
        }
        _ => panic!("the first switch is due at once"),
    };
    assert!(service.complete_switch_action(&id, first, Ok(()), now));
    let canceled_at = date_time(2024, 8, 26, 14, 30) + 15_000;
    let commands = service.cancel_consumption_plan_at(id.clone(), canceled_at).unwrap();
    assert_eq!(commands.len(), 3);
    assert!(commands.iter().all(|command| off(command, "switch.charger")));
    let plan = service.get_power_consumer(&id).unwrap().consumption_plan().unwrap();
    assert_eq!(plan.state, ConsumptionPlanState::Executed);
    let actions: Vec<_> = plan.consumption_plan_items.iter().flat_map(|item| item.switch_actions.iter()).collect();
    let states: Vec<SwitchActionState> = actions.iter().map(|action| action.state).collect();
    assert_eq!(
        states,
        vec![
            SwitchActionState::Executed,
            SwitchActionState::Executed,
            SwitchActionState::Canceled,
            SwitchActionState::Executed
        ]
    );
    assert_eq!(actions[1].executed_at, Some(canceled_at));
    assert_eq!(actions[1].result.as_deref(), Some("Canceled at 14:30:15"));
    assert_eq!(actions[3].result.as_deref(), Some("Canceled at 14:30:15"));
    assert_eq!(actions[2].result, None);
    let again = service.cancel_consumption_plan_at(id.clone(), canceled_at + 1).unwrap();
    assert!(again.is_empty());
    let nothing = service.cancel_consumption_plan("switch.boiler".to_owned()).unwrap();
    assert!(nothing.is_empty());
}

#[test]
fn a_plan_is_proposed_to_finish_soon_or_the_next_morning() {
    let now = 1_000_000;
    assert_eq!(default_charging_finish_time(now, Some(0), None), Some(now + 2 * HOUR));
    assert_eq!(default_charging_finish_time(now, Some(15), Some(5)), Some(now + 2 * HOUR));
    assert_eq!(default_charging_finish_time(now, Some(16), Some(5)), Some(5));
    assert_eq!(default_charging_finish_time(now, Some(23), Some(7)), Some(7));
    assert_eq!(default_charging_finish_time(now, Some(16), None), None);
    assert_eq!(default_charging_finish_time(now, None, Some(5)), None);
    assert_eq!(default_charging_finish_time(i64::MAX, Some(0), Some(5)), None);
    assert_eq!(default_charging_finish_time(i64::MIN, Some(20), Some(5)), None);
    assert_eq!(
        default_charging_finish_time(8_000_000_000_000_000, Some(0), None),
        Some(8_000_000_000_000_000 + 2 * HOUR)
    );
}

#[test]
fn the_proposed_finish_lies_ahead() {
    let before = Utc::now().timestamp_millis();
    let finish = PowerConsumer::<TariffSelectorPriceList>::get_default_charging_finish_time().unwrap();
    assert!(finish > before);
    assert!(finish <= before + 40 * HOUR);
    let model = consumer();
    let shown = model.to_power_consumer_model();
    assert_eq!(shown.id, "test.device");
    assert_eq!(shown.name, "Smart switch");
    assert!(shown.default_finish_at.unwrap() > before);
}

#[test]
fn the_plan_of_a_device_can_be_changed_in_place() {
    let mut consumer = consumer();
    assert!(consumer.consumption_plan_mut().is_none());
    consumer.create_consumption_plan(HOUR, date_time(2024, 8, 26, 14, 0), date_time(2024, 8, 26, 23, 0)).unwrap();
    consumer.consumption_plan_mut().unwrap().state = ConsumptionPlanState::Executed;
    assert_eq!(consumer.consumption_plan().unwrap().state, ConsumptionPlanState::Executed);
}

#[test]
fn a_batch_of_switches_is_recorded_and_then_settled() {
    let mut service = service();
    let id = "switch.boiler".to_owned();
    let now = date_time(2024, 8, 26, 22, 0);
    let finish = date_time(2024, 8, 26, 22, 0) + 10_000;
    let steps = service.schedule_consumption_plan_at(id.clone(), 10_000, now, finish).unwrap();
    let ids: Vec<u128> = steps
        .iter()
        .map(|step| match step {
            SwitchStep::ExecuteNow { action_id, .. } => *action_id,
            SwitchStep::ExecuteAfter { .. } => panic!("both switches are due at once"),
        })
        .collect();
    assert_eq!(ids.len(), 2);
    assert!(!service.record_switch_action(&id, 4711, Ok(()), now));
    assert!(!service.record_switch_action(&"switch.unknown".to_owned(), ids[0], Ok(()), now));
    assert!(!service.settle_consumption_plan(&"switch.unknown".to_owned()));
    assert!(!service.settle_consumption_plan(&"switch.charger".to_owned()));
    assert!(service.record_switch_action(&id, ids[0], Ok(()), now));
    assert!(service.record_switch_action(&id, ids[1], Ok(()), now));
    {
        let plan = service.get_power_consumer(&id).unwrap().consumption_plan().unwrap();
        assert_eq!(plan.state, ConsumptionPlanState::Processing);
        let actions: Vec<_> = plan.consumption_plan_items.iter().flat_map(|item| item.switch_actions.iter()).collect();
        assert!(actions.iter().all(|action| action.state == SwitchActionState::Executed && action.at == now));
    }
    assert!(service.settle_consumption_plan(&id));
    let plan = service.get_power_consumer(&id).unwrap().consumption_plan().unwrap();
    assert_eq!(plan.state, ConsumptionPlanState::Executed);
}

#[test]
fn the_next_morning_is_asked_for_the_day_after_now() {
    let day = 86_400_000;
    assert_eq!(next_morning_request(1_000_000), Some((1_000_000 + day, 7)));
    assert_eq!(next_morning_request(0), Some((day, 7)));
    assert_eq!(next_morning_request(8_000_000_000_000_000 - day), Some((8_000_000_000_000_000, 7)));
    assert_eq!(next_morning_request(8_000_000_000_000_000 - day + 1), None);
    assert_eq!(next_morning_request(i64::MAX), None);
    assert_eq!(next_morning_request(i64::MIN), None);
}

#[test]
fn the_time_of_a_cancellation_is_shown_in_hours_minutes_and_seconds() {
    assert_eq!(time_of_day_format(), "%H:%M:%S");
}

#[test]
fn a_device_configured_twice_is_made_from_the_later_entry() {
    let settings = settings();
    let gateway = home_assistant("t");
    let source = Arc::new(TariffSelectorPriceList::new(TariffTypes::W12));
    let service = PowerConsumersService::new(&settings.power_consumers, source.clone(), gateway.clone());
    assert_eq!(service.power_consumers.len(), 2);
    let charger = service.get_power_consumer(&"switch.charger".to_owned()).unwrap();
    assert_eq!(charger.name, "Car");
    assert!(charger.consumption_plan().is_none());
    let boiler = service.get_power_consumer(&"switch.boiler".to_owned()).unwrap();
    assert_eq!(boiler.name, "Boiler");
    for consumer in &service.power_consumers {
        assert!(Arc::ptr_eq(&consumer.home_assistant_service, &gateway));
        assert!(Arc::ptr_eq(&consumer.time_period_price_list_service.single_day_price_list, &source));
    }
}

#[test]
fn a_batch_is_settled_only_where_a_switch_was_carried_out() {
    let mut service = service();
    let id = "switch.boiler".to_owned();
    let now = date_time(2024, 8, 26, 22, 0);
    let steps = service.schedule_consumption_plan_at(id.clone(), 10_000, now, now + 10_000).unwrap();
    for step in &steps {
        match step {
            SwitchStep::ExecuteNow { action_id, .. } => {
                assert!(service.record_switch_action(&id, *action_id, Ok(()), now));
            }
            SwitchStep::ExecuteAfter { .. } => panic!("both switches are due at once"),
        }
    }
    assert!(!service.settle_after_batch(&id, 0));
    assert_eq!(
        service.get_power_consumer(&id).unwrap().consumption_plan().unwrap().state,
        ConsumptionPlanState::Processing
    );
    assert!(!service.settle_after_batch(&"switch.unknown".to_owned(), 2));
    assert!(!service.settle_after_batch(&"switch.charger".to_owned(), 2));
    assert!(service.settle_after_batch(&id, steps.len()));
    assert_eq!(
        service.get_power_consumer(&id).unwrap().consumption_plan().unwrap().state,
        ConsumptionPlanState::Executed
    );
}
