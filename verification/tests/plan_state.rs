use std::sync::Arc;

use rusty_server::model::{
    AppError, ConsumptionPlan, ConsumptionPlanItem, ConsumptionPlanState, PriceCategory, PriceListItem,
    SwitchAction, SwitchActionState,
};
use rusty_server::power_consumers::plan_state::{
    cancel_plan, cancel_switch_action, consumption_plan_has_been_started, execute_switch_action,
    switch_consumption_plan_state,
};
use rusty_server::power_consumers::switch_actions_scheduler::SwitchStep;
use rusty_server::power_consumers::{HomeAssistantService, SwitchActionsScheduler};
use rusty_server::settings::HttpCallConfig;

const HOUR: i64 = 3_600_000;

fn action(id: u128, at: i64, switch_on: bool, state: SwitchActionState) -> SwitchAction {
    SwitchAction { id, at, switch_on, state, executed_at: None, result: None }
}

fn plan_of(items: Vec<Vec<SwitchAction>>, state: ConsumptionPlanState) -> ConsumptionPlan {
    ConsumptionPlan {
        id: 77,
        created_at: 0,
        consumption_duration: 2 * HOUR,
        finish_at: 10 * HOUR,
        consumption_plan_items: items
            .into_iter()
            .enumerate()
            .map(|(hour, switch_actions)| ConsumptionPlanItem {
                price_list_item: PriceListItem::new(hour as i64 * HOUR, HOUR, 1, PriceCategory::Min),
                duration: HOUR,
                switch_actions,
            })
            .collect(),
        state,
    }
}

fn states(plan: &ConsumptionPlan) -> Vec<SwitchActionState> {
    plan.consumption_plan_items.iter().flat_map(|item| item.switch_actions.iter()).map(|a| a.state).collect()
}

fn waiting_plan() -> ConsumptionPlan {
    plan_of(
        vec![
            vec![action(1, 0, true, SwitchActionState::Scheduled), action(2, HOUR, false, SwitchActionState::Scheduled)],
            vec![],
            vec![action(3, 2 * HOUR, true, SwitchActionState::Scheduled)],
            vec![action(4, 4 * HOUR, false, SwitchActionState::Scheduled)],
        ],
        ConsumptionPlanState::Processing,
    )
}

#[test]
fn a_new_switch_action_waits_to_be_executed() {
    let new = SwitchAction::new(5, true);
    assert_eq!(new.at(), 5);
    assert!(new.switch_on());
    assert_eq!(*new.state(), SwitchActionState::Scheduled);
    assert_eq!(new.executed_at, None);
    assert_eq!(new.result, None);
    assert_ne!(new.id(), SwitchAction::new(5, true).id());
}

#[test]
fn an_executed_switch_keeps_the_answer_of_the_gateway() {
    let mut done = action(1, 10, true, SwitchActionState::Scheduled);
    execute_switch_action(&mut done, Ok(()), 42);
    assert_eq!(done.state, SwitchActionState::Executed);
    assert_eq!(done.executed_at, Some(42));
    assert_eq!(done.result.as_deref(), Some("OK"));
    assert_eq!(done.at, 10);

    let mut failed = action(1, 10, false, SwitchActionState::Scheduled);
    execute_switch_action(&mut failed, Err(AppError::system_error("Request to switch device  failed: x")), 43);
    assert_eq!(failed.state, SwitchActionState::Executed);
    assert_eq!(failed.executed_at, Some(43));
    assert_eq!(failed.result.as_deref(), Some("[SystemError] Request to switch device  failed: x"));
}

#[test]
fn only_a_waiting_switch_is_executed() {
    for state in [SwitchActionState::Executed, SwitchActionState::Canceled] {
        let mut other = action(1, 10, true, state);
        other.result = Some("before".to_owned());
        other.executed_at = Some(1);
        execute_switch_action(&mut other, Ok(()), 42);
        assert_eq!(other.state, state);
        assert_eq!(other.executed_at, Some(1));
        assert_eq!(other.result.as_deref(), Some("before"));
    }
}

#[test]
fn a_plan_is_executed_once_no_action_waits() {
    let mut plan = waiting_plan();
    switch_consumption_plan_state(&mut plan);
    assert_eq!(plan.state, ConsumptionPlanState::Processing);
    for id in [1, 2, 3] {
        assert!(plan.execute_switch_action_by_id(id, Ok(()), 5));
        switch_consumption_plan_state(&mut plan);
        assert_eq!(plan.state, ConsumptionPlanState::Processing);
    }
    assert!(plan.execute_switch_action_by_id(4, Err(AppError::system_error("down")), 6));
    switch_consumption_plan_state(&mut plan);
    assert_eq!(plan.state, ConsumptionPlanState::Executed);
    assert_eq!(states(&plan), vec![SwitchActionState::Executed; 4]);
}

#[test]
fn canceled_actions_do_not_keep_a_plan_in_process() {
    let mut plan = plan_of(
        vec![vec![action(1, 0, true, SwitchActionState::Executed)], vec![action(2, HOUR, false, SwitchActionState::Canceled)]],
        ConsumptionPlanState::Processing,
    );
    switch_consumption_plan_state(&mut plan);
    assert_eq!(plan.state, ConsumptionPlanState::Executed);
    let mut empty = plan_of(vec![], ConsumptionPlanState::Processing);
    switch_consumption_plan_state(&mut empty);
    assert_eq!(empty.state, ConsumptionPlanState::Executed);
}

#[test]
fn a_plan_that_is_not_in_process_keeps_its_state() {
    for state in [ConsumptionPlanState::Canceled, ConsumptionPlanState::Executed] {
        let mut plan = plan_of(vec![vec![action(1, 0, true, SwitchActionState::Canceled)]], state);
        switch_consumption_plan_state(&mut plan);
        assert_eq!(plan.state, state);
    }
}

#[test]
fn a_plan_has_started_when_its_first_action_has_been_executed() {
    assert!(!consumption_plan_has_been_started(&waiting_plan()));
    assert!(!consumption_plan_has_been_started(&plan_of(vec![], ConsumptionPlanState::Processing)));
    assert!(!consumption_plan_has_been_started(&plan_of(vec![vec![], vec![]], ConsumptionPlanState::Processing)));
    assert!(consumption_plan_has_been_started(&plan_of(
        vec![vec![], vec![action(1, 0, true, SwitchActionState::Executed), action(2, 1, false, SwitchActionState::Scheduled)]],
        ConsumptionPlanState::Processing
    )));
    assert!(!consumption_plan_has_been_started(&plan_of(
        vec![vec![action(1, 0, true, SwitchActionState::Canceled)], vec![action(2, 1, false, SwitchActionState::Executed)]],
        ConsumptionPlanState::Processing
    )));
}

#[test]
fn canceling_a_plan_that_has_not_started_cancels_every_action() {
    let mut plan = waiting_plan();
    let forced = cancel_plan(&mut plan, 99, "12:00:00");
    assert!(forced.is_empty());
    assert_eq!(plan.state, ConsumptionPlanState::Canceled);
    assert_eq!(states(&plan), vec![SwitchActionState::Canceled; 4]);
    for item in &plan.consumption_plan_items {
        for action in &item.switch_actions {
            assert_eq!(action.executed_at, None);
            assert_eq!(action.result, None);
        }
    }
}

#[test]
fn canceling_a_plan_that_has_started_forces_the_switch_offs() {
    let mut plan = waiting_plan();
    assert!(plan.execute_switch_action_by_id(1, Ok(()), 5));
    let forced = cancel_plan(&mut plan, 99, "12:34:56");
    assert_eq!(forced, vec![2, 4]);
    assert_eq!(plan.state, ConsumptionPlanState::Executed);
    assert_eq!(states(&plan), vec![SwitchActionState::Executed, SwitchActionState::Executed, SwitchActionState::Canceled, SwitchActionState::Executed]);
    let first = &plan.consumption_plan_items[0].switch_actions[0];
    assert_eq!(first.executed_at, Some(5));
    assert_eq!(first.result.as_deref(), Some("OK"));
    let off = &plan.consumption_plan_items[0].switch_actions[1];
    assert_eq!(off.executed_at, Some(99));
    assert_eq!(off.result.as_deref(), Some("Canceled at 12:34:56"));
    let on = &plan.consumption_plan_items[2].switch_actions[0];
    assert_eq!(on.executed_at, None);
    assert_eq!(on.result, None);
    let last = &plan.consumption_plan_items[3].switch_actions[0];
    assert_eq!(last.executed_at, Some(99));
    assert_eq!(last.result.as_deref(), Some("Canceled at 12:34:56"));
    assert_eq!(plan.id, 77);
    assert_eq!(plan.finish_at, 10 * HOUR);
}

#[test]
fn only_a_plan_in_process_is_canceled() {
    for state in [ConsumptionPlanState::Canceled, ConsumptionPlanState::Executed] {
        let mut plan = plan_of(vec![vec![action(1, 0, false, SwitchActionState::Scheduled)]], state);
        let forced = cancel_plan(&mut plan, 99, "12:00:00");
        assert!(forced.is_empty());
        assert_eq!(plan.state, state);
        assert_eq!(states(&plan), vec![SwitchActionState::Scheduled]);
    }
}

#[test]
fn canceling_one_action() {
    let mut executed = action(1, 0, false, SwitchActionState::Executed);
    assert!(!cancel_switch_action(&mut executed, true, 9, "x"));
    assert_eq!(executed.state, SwitchActionState::Executed);
    let mut off = action(1, 0, false, SwitchActionState::Scheduled);
    assert!(cancel_switch_action(&mut off, true, 9, "10:00:01"));
    assert_eq!(off.state, SwitchActionState::Executed);
    assert_eq!(off.executed_at, Some(9));
    assert_eq!(off.result.as_deref(), Some("Canceled at 10:00:01"));
    let mut canceled_off = action(1, 0, false, SwitchActionState::Canceled);
    assert!(cancel_switch_action(&mut canceled_off, true, 9, "x"));
    assert_eq!(canceled_off.state, SwitchActionState::Executed);
    let mut on = action(1, 0, true, SwitchActionState::Scheduled);
    assert!(!cancel_switch_action(&mut on, true, 9, "x"));
    assert_eq!(on.state, SwitchActionState::Canceled);
    let mut not_started = action(1, 0, false, SwitchActionState::Scheduled);
    assert!(!cancel_switch_action(&mut not_started, false, 9, "x"));
    assert_eq!(not_started.state, SwitchActionState::Canceled);
    assert_eq!(not_started.executed_at, None);
}

fn scheduler() -> SwitchActionsScheduler {
    SwitchActionsScheduler::new(Arc::new(HomeAssistantService::new(&HttpCallConfig {
        base_url: "http://ha".to_owned(),
        token: "t".to_owned(),
    })))
}

#[test]
fn actions_that_are_due_are_executed_now_and_the_others_later() {
    let now = 1_000_000;
    let mut plan = plan_of(
        vec![
            vec![action(1, now - 5, true, SwitchActionState::Scheduled), action(2, now + 14_999, false, SwitchActionState::Scheduled)],
            vec![action(3, now + 15_000, true, SwitchActionState::Scheduled)],
            vec![],
            vec![action(4, now + HOUR, false, SwitchActionState::Scheduled)],
        ],
        ConsumptionPlanState::Processing,
    );
    let steps = scheduler().schedule_switch_actions(&mut plan, now);
    assert_eq!(
        steps,
        vec![
            SwitchStep::ExecuteNow { action_id: 1, switch_on: true },
            SwitchStep::ExecuteNow { action_id: 2, switch_on: false },
            SwitchStep::ExecuteAfter { action_id: 3, sleep_for: 15_000 },
            SwitchStep::ExecuteAfter { action_id: 4, sleep_for: HOUR as u64 },
        ]
    );
    let times: Vec<i64> =
        plan.consumption_plan_items.iter().flat_map(|item| item.switch_actions.iter()).map(|a| a.at).collect();
    assert_eq!(times, vec![now, now, now + 15_000, now + HOUR]);
    assert_eq!(states(&plan), vec![SwitchActionState::Scheduled; 4]);
    assert_eq!(plan.state, ConsumptionPlanState::Processing);
}

#[test]
fn an_action_is_found_by_its_identifier() {
    let mut plan = waiting_plan();
    assert_eq!(plan.get_switch_action_position(1), Some((0, 0)));
    assert_eq!(plan.get_switch_action_position(2), Some((0, 1)));
    assert_eq!(plan.get_switch_action_position(3), Some((2, 0)));
    assert_eq!(plan.get_switch_action_position(4), Some((3, 0)));
    assert_eq!(plan.get_switch_action_position(5), None);
    assert!(!plan.execute_switch_action_by_id(5, Ok(()), 1));
    assert_eq!(states(&plan), vec![SwitchActionState::Scheduled; 4]);
    assert!(plan.execute_switch_action_by_id(3, Ok(()), 1));
    assert_eq!(
        states(&plan),
        vec![
            SwitchActionState::Scheduled,
            SwitchActionState::Scheduled,
            SwitchActionState::Executed,
            SwitchActionState::Scheduled
        ]
    );
    assert_eq!(plan.state, ConsumptionPlanState::Processing);
}
