//! How the state of a plan follows from what happens to its switch actions:
//! execution, one action at a time, and cancellation.

use vstd::prelude::*;
use vstd::string::StringExecFns;

use crate::model::consumption_plan::{
    flat_actions, ConsumptionPlan, ConsumptionPlanItem, ConsumptionPlanItemView,
    ConsumptionPlanState, ConsumptionPlanView, SwitchAction, SwitchActionState, SwitchActionView,
};
use crate::model::errors::AppError;
use crate::power_consumers::plan_invariant::lemma_well_formed_after_change;

verus! {

/// The items with `change` applied to every switch action.
pub open spec fn with_actions_changed(
    items: Seq<ConsumptionPlanItemView>,
    change: spec_fn(SwitchActionView) -> SwitchActionView,
) -> Seq<ConsumptionPlanItemView> {
    items.map_values(
        |item: ConsumptionPlanItemView|
            ConsumptionPlanItemView { switch_actions: item.switch_actions.map_values(change), ..item },
    )
}

/// Some switch action of some item is still waiting to be executed.
pub open spec fn has_scheduled_action(items: Seq<ConsumptionPlanItemView>) -> bool {
    exists|i: int, j: int|
        0 <= i < items.len() && 0 <= j < items[i].switch_actions.len() && (
        #[trigger] items[i].switch_actions[j]).state == SwitchActionState::Scheduled
}

/// What the result of an executed switch says: `OK`, or the failure of the gateway.
pub open spec fn outcome_text(outcome: Result<(), AppError>) -> Seq<char> {
    match outcome {
        Ok(_) => "OK"@,
        Err(error) => error.text(),
    }
}

/// The switch action after the gateway was asked to switch at `now`.
///
/// Only an action that is waiting is executed. It counts as executed
/// whatever the gateway answered: the answer is kept as its result.
pub open spec fn executed(
    action: SwitchActionView,
    outcome: Result<(), AppError>,
    now: i64,
) -> SwitchActionView {
    if action.state == SwitchActionState::Scheduled {
        SwitchActionView {
            state: SwitchActionState::Executed,
            executed_at: Some(now),
            result: Some(outcome_text(outcome)),
            ..action
        }
    } else {
        action
    }
}

/// What the result of a switch-off says that a cancellation forced.
pub open spec fn canceled_text(time_of_day: Seq<char>) -> Seq<char> {
    "Canceled at "@ + time_of_day
}

/// A cancellation forces this action: it is a switch-off that has not been
/// executed, in a plan that has started.
pub open spec fn is_forced_off(action: SwitchActionView, started: bool) -> bool {
    action.state != SwitchActionState::Executed && started && !action.switch_on
}

/// The switch action after the cancellation of its plan at `now`.
///
/// An executed action stays as it is. In a plan that has started, a
/// switch-off is executed at once; every other action is canceled.
pub open spec fn canceled(
    action: SwitchActionView,
    started: bool,
    now: i64,
    time_of_day: Seq<char>,
) -> SwitchActionView {
    if action.state == SwitchActionState::Executed {
        action
    } else if started && !action.switch_on {
        SwitchActionView {
            state: SwitchActionState::Executed,
            executed_at: Some(now),
            result: Some(canceled_text(time_of_day)),
            ..action
        }
    } else {
        SwitchActionView { state: SwitchActionState::Canceled, ..action }
    }
}

/// [`canceled`], as a function of the action.
pub open spec fn canceling(started: bool, now: i64, time_of_day: Seq<char>) -> spec_fn(
    SwitchActionView,
) -> SwitchActionView {
    |action: SwitchActionView| canceled(action, started, now, time_of_day)
}

/// The plan has started: its first switch action has been executed.
pub open spec fn has_started(items: Seq<ConsumptionPlanItemView>) -> bool {
    flat_actions(items).len() > 0 && flat_actions(items)[0].state == SwitchActionState::Executed
}

/// The plan after its cancellation at `now`.
///
/// Only a plan in process is canceled. Its actions are canceled one by one;
/// the plan counts as executed if it had started, and as canceled if not.
pub open spec fn canceled_plan(
    plan: ConsumptionPlanView,
    now: i64,
    time_of_day: Seq<char>,
) -> ConsumptionPlanView {
    if plan.state == ConsumptionPlanState::Processing {
        let started = has_started(plan.consumption_plan_items);
        ConsumptionPlanView {
            consumption_plan_items: with_actions_changed(
                plan.consumption_plan_items,
                canceling(started, now, time_of_day),
            ),
            state: if started {
                ConsumptionPlanState::Executed
            } else {
                ConsumptionPlanState::Canceled
            },
            ..plan
        }
    } else {
        plan
    }
}

/// The state of a plan once its switch actions have changed: a plan in
/// process with no action left waiting has been executed.
pub open spec fn settled_state(plan: ConsumptionPlanView) -> ConsumptionPlanState {
    if plan.state == ConsumptionPlanState::Processing && !has_scheduled_action(
        plan.consumption_plan_items,
    ) {
        ConsumptionPlanState::Executed
    } else {
        plan.state
    }
}

/// Changing every switch action of the items changes the switch actions
/// of all items, taken together, one by one.
pub proof fn lemma_flat_actions_changed(
    items: Seq<ConsumptionPlanItemView>,
    change: spec_fn(SwitchActionView) -> SwitchActionView,
)
    ensures
        flat_actions(with_actions_changed(items, change)) == flat_actions(items).map_values(change),
    decreases items.len(),
{
    let changed = with_actions_changed(items, change);
    if items.len() == 0 {
        assert(flat_actions(changed) =~= flat_actions(items).map_values(change));
    } else {
        lemma_flat_actions_changed(items.drop_last(), change);
        assert(changed.drop_last() =~= with_actions_changed(items.drop_last(), change));
        assert(changed.last().switch_actions == items.last().switch_actions.map_values(change));
        assert(flat_actions(changed) =~= flat_actions(items).map_values(change));
    }
}

/// Once a plan in process has been canceled, it is in process no more,
/// and none of its switch actions is waiting: whatever was scheduled for
/// them finds nothing left to do.
pub proof fn lemma_canceled_plan_is_settled(
    plan: ConsumptionPlanView,
    now: i64,
    time_of_day: Seq<char>,
)
    requires
        plan.state == ConsumptionPlanState::Processing,
    ensures
        canceled_plan(plan, now, time_of_day).state != ConsumptionPlanState::Processing,
        !has_scheduled_action(canceled_plan(plan, now, time_of_day).consumption_plan_items),
        canceled_plan(plan, now, time_of_day).actions().len() == plan.actions().len(),
        forall|k: int|
            0 <= k < plan.actions().len() ==> (#[trigger] canceled_plan(
                plan,
                now,
                time_of_day,
            ).actions()[k]).state != SwitchActionState::Scheduled,
{
    let started = has_started(plan.consumption_plan_items);
    let items = plan.consumption_plan_items;
    let after = canceled_plan(plan, now, time_of_day).consumption_plan_items;
    lemma_flat_actions_changed(items, canceling(started, now, time_of_day));
    assert forall|i: int, j: int| 0 <= i < after.len() && 0 <= j < after[i].switch_actions.len() implies (
    #[trigger] after[i].switch_actions[j]).state != SwitchActionState::Scheduled by {
        assert(after[i].switch_actions[j] == canceled(
            items[i].switch_actions[j],
            started,
            now,
            time_of_day,
        ));
    }
}

/// An executed switch action stays as it is, whatever the gateway is asked
/// again and whenever its plan is canceled.
pub proof fn lemma_executed_action_is_final(
    action: SwitchActionView,
    outcome: Result<(), AppError>,
    started: bool,
    now: i64,
    time_of_day: Seq<char>,
)
    requires
        action.state == SwitchActionState::Executed,
    ensures
        executed(action, outcome, now) == action,
        canceled(action, started, now, time_of_day) == action,
{
}

/// Records that the gateway was asked at `now` to carry out the switch, and what it answered.
pub fn execute_switch_action(
    switch_action: &mut SwitchAction,
    outcome: Result<(), AppError>,
    now: i64,
)
    ensures
        final(switch_action)@ == executed(old(switch_action)@, outcome, now),
{
    match switch_action.state {
        SwitchActionState::Scheduled => {
            switch_action.state = SwitchActionState::Executed;
            switch_action.executed_at = Some(now);
            switch_action.result = Some(
                match outcome {
                    Ok(_) => String::from_str("OK"),
                    Err(app_error) => app_error.to_string(),
                },
            );
        },
        _ => {},
    }
}

/// Cancels one switch action; tells whether the cancellation forced it.
pub fn cancel_switch_action(
    switch_action: &mut SwitchAction,
    started: bool,
    now: i64,
    time_of_day: &str,
) -> (forced: bool)
    ensures
        final(switch_action)@ == canceled(old(switch_action)@, started, now, time_of_day@),
        forced == is_forced_off(old(switch_action)@, started),
{
    match switch_action.state {
        SwitchActionState::Executed => false,
        _ => {
            if started && !switch_action.switch_on {
                switch_action.result = Some(String::from_str("Canceled at ").concat(time_of_day));
                switch_action.executed_at = Some(now);
                switch_action.state = SwitchActionState::Executed;
                true
            } else {
                switch_action.state = SwitchActionState::Canceled;
                false
            }
        },
    }
}

/// Sets the state of a plan in process to executed once none of its switch
/// actions is waiting any more.
pub fn switch_consumption_plan_state(consumption_plan: &mut ConsumptionPlan)
    ensures
        final(consumption_plan)@ == (ConsumptionPlanView {
            state: settled_state(old(consumption_plan)@),
            ..old(consumption_plan)@
        }),
        old(consumption_plan)@.is_well_formed() ==> final(consumption_plan)@.is_well_formed(),
{
    match consumption_plan.state {
        ConsumptionPlanState::Processing => {
            let ghost items = consumption_plan@.consumption_plan_items;
            let mut found_scheduled = false;
            let mut i: usize = 0;
            while i < consumption_plan.consumption_plan_items.len() && !found_scheduled
                invariant
                    i <= consumption_plan.consumption_plan_items.len(),
                    consumption_plan@.consumption_plan_items == items,
                    found_scheduled ==> has_scheduled_action(items),
                    !found_scheduled ==> forall|a: int, b: int|
                        0 <= a < i && 0 <= b < items[a].switch_actions.len() ==> (
                        #[trigger] items[a].switch_actions[b]).state != SwitchActionState::Scheduled,
                decreases
                        consumption_plan.consumption_plan_items.len() - i,
                        if found_scheduled { 0int } else { 1int },
            {
                let item = &consumption_plan.consumption_plan_items[i];
                assert(items[i as int] == item@);
                let mut j: usize = 0;
                while j < item.switch_actions.len() && !found_scheduled
                    invariant
                        j <= item.switch_actions.len(),
                        i < items.len(),
                        items[i as int] == item@,
                        found_scheduled ==> has_scheduled_action(items),
                        !found_scheduled ==> forall|b: int|
                            0 <= b < j ==> (#[trigger] items[i as int].switch_actions[b]).state
                                != SwitchActionState::Scheduled,
                    decreases item.switch_actions.len() - j, if found_scheduled { 0int } else { 1int },
                {
                    assert(items[i as int].switch_actions[j as int] == item.switch_actions@[j as int]@);
                    match item.switch_actions[j].state {
                        SwitchActionState::Scheduled => {
                            found_scheduled = true;
                        },
                        _ => {
                            j += 1;
                        },
                    }
                }
                if !found_scheduled {
                    i += 1;
                }
            }
            if !found_scheduled {
                consumption_plan.state = ConsumptionPlanState::Executed;
            }
        },
        _ => {},
    }
}

/// The identifiers of the switch actions that a cancellation forces, in order.
pub open spec fn forced_switch_offs(actions: Seq<SwitchActionView>, started: bool) -> Seq<u128>
    decreases actions.len(),
{
    if actions.len() == 0 {
        Seq::empty()
    } else {
        forced_switch_offs(actions.drop_last(), started) + if is_forced_off(actions.last(), started) {
            seq![actions.last().id]
        } else {
            Seq::empty()
        }
    }
}

/// The switch actions of the first `count + 1` items are those of the first
/// `count` items and then those of the next item.
pub proof fn lemma_flat_actions_next(items: Seq<ConsumptionPlanItemView>, count: int)
    requires
        0 <= count < items.len(),
    ensures
        flat_actions(items.take(count + 1)) == flat_actions(items.take(count))
            + items[count].switch_actions,
{
    assert(items.take(count + 1).drop_last() =~= items.take(count));
}

/// The forced switch-offs of two lists of actions, one behind the other.
pub proof fn lemma_forced_switch_offs_concat(
    a: Seq<SwitchActionView>,
    b: Seq<SwitchActionView>,
    started: bool,
)
    ensures
        forced_switch_offs(a + b, started) == forced_switch_offs(a, started) + forced_switch_offs(
            b,
            started,
        ),
    decreases b.len(),
{
    if b.len() == 0 {
        assert(a + b =~= a);
        assert(forced_switch_offs(a, started) + forced_switch_offs(b, started)
            =~= forced_switch_offs(a, started));
    } else {
        assert((a + b).drop_last() =~= a + b.drop_last());
        lemma_forced_switch_offs_concat(a, b.drop_last(), started);
        assert(forced_switch_offs(a + b, started) =~= forced_switch_offs(a, started)
            + forced_switch_offs(b, started));
    }
}

/// Items without switch actions contribute nothing; the first action of
/// the first item that has one is the first action of all.
pub proof fn lemma_first_action(items: Seq<ConsumptionPlanItemView>, first: int)
    requires
        0 <= first <= items.len(),
        forall|k: int| 0 <= k < first ==> (#[trigger] items[k]).switch_actions.len() == 0,
        first < items.len() ==> items[first].switch_actions.len() > 0,
    ensures
        first == items.len() ==> flat_actions(items).len() == 0,
        first < items.len() ==> flat_actions(items).len() > 0 && flat_actions(items)[0]
            == items[first].switch_actions[0],
    decreases items.len(),
{
    if items.len() > 0 {
        let init = items.drop_last();
        if first == items.len() {
            assert forall|k: int| 0 <= k < first - 1 implies (#[trigger] init[k]).switch_actions.len()
                == 0 by {
                assert(init[k] == items[k]);
            }
            lemma_first_action(init, first - 1);
            assert(items[items.len() - 1].switch_actions.len() == 0);
        } else {
            assert forall|k: int| 0 <= k < first implies (#[trigger] init[k]).switch_actions.len()
                == 0 by {
                assert(init[k] == items[k]);
            }
            if first < init.len() {
                assert(init[first] == items[first]);
            }
            lemma_first_action(init, first);
        }
    }
}

/// Cancels the switch actions of one item; hands out the identifiers of
/// those that the cancellation forced.
fn cancel_item_actions(
    item: &mut ConsumptionPlanItem,
    started: bool,
    now: i64,
    time_of_day: &str,
    forced: &mut Vec<u128>,
)
    ensures
        final(item)@ == (ConsumptionPlanItemView {
            switch_actions: old(item)@.switch_actions.map_values(
                canceling(started, now, time_of_day@),
            ),
            ..old(item)@
        }),
        final(forced)@ == old(forced)@ + forced_switch_offs(old(item)@.switch_actions, started),
{
    let ghost before = item@;
    let ghost forced_before = forced@;
    let n = item.switch_actions.len();
    let mut j: usize = 0;
    proof {
        assert(before.switch_actions.take(0) =~= Seq::<SwitchActionView>::empty());
        assert(forced_before + Seq::<u128>::empty() =~= forced_before);
    }
    while j < n
        invariant
            j <= n,
            n == before.switch_actions.len(),
            item.switch_actions@.len() == n,
            item.price_list_item == before.price_list_item,
            item.duration == before.duration,
            forall|b: int|
                0 <= b < j ==> (#[trigger] item.switch_actions@[b])@ == canceled(
                    before.switch_actions[b],
                    started,
                    now,
                    time_of_day@,
                ),
            forall|b: int| j <= b < n ==> (#[trigger] item.switch_actions@[b])@ == before.switch_actions[b],
            forced@ == forced_before + forced_switch_offs(before.switch_actions.take(j as int), started),
        decreases n - j,
    {
        let id = item.switch_actions[j].id;
        let was_forced = cancel_switch_action(&mut item.switch_actions[j], started, now, time_of_day);
        proof {
            let so_far = before.switch_actions.take(j as int);
            let next = before.switch_actions.take(j + 1);
            assert(next.drop_last() =~= so_far);
            assert(next.last() == before.switch_actions[j as int]);
        }
        if was_forced {
            forced.push(id);
            proof {
                assert(forced@ =~= forced_before + forced_switch_offs(
                    before.switch_actions.take(j + 1),
                    started,
                ));
            }
        } else {
            proof {
                assert(forced@ =~= forced_before + forced_switch_offs(
                    before.switch_actions.take(j + 1),
                    started,
                ));
            }
        }
        j += 1;
    }
    proof {
        assert(before.switch_actions.take(n as int) =~= before.switch_actions);
        assert(item@.switch_actions =~= before.switch_actions.map_values(
            canceling(started, now, time_of_day@),
        ));
    }
}

/// Tells whether the plan has started: whether its first switch action has been executed.
pub fn consumption_plan_has_been_started(consumption_plan: &ConsumptionPlan) -> (started: bool)
    ensures
        started == has_started(consumption_plan@.consumption_plan_items),
{
    let ghost items = consumption_plan@.consumption_plan_items;
    let mut i: usize = 0;
    while i < consumption_plan.consumption_plan_items.len()
        invariant
            i <= consumption_plan.consumption_plan_items.len(),
            items == consumption_plan@.consumption_plan_items,
            forall|k: int| 0 <= k < i ==> (#[trigger] items[k]).switch_actions.len() == 0,
        decreases consumption_plan.consumption_plan_items.len() - i,
    {
        let item = &consumption_plan.consumption_plan_items[i];
        assert(items[i as int] == item@);
        if item.switch_actions.len() > 0 {
            proof {
                lemma_first_action(items, i as int);
                assert(items[i as int].switch_actions[0] == item.switch_actions@[0]@);
            }
            return match item.switch_actions[0].state {
                SwitchActionState::Executed => true,
                _ => false,
            };
        }
        i += 1;
    }
    proof {
        lemma_first_action(items, i as int);
    }
    false
}

/// Cancels a plan in process at `now`; see [`canceled_plan`].
///
/// `time_of_day` is the time of the cancellation as it is to be shown in
/// the result of a forced switch-off. Hands out the identifiers of the
/// switch actions that the cancellation forced, in order: for each of them
/// the device has to be switched off.
pub fn cancel_plan(
    consumption_plan: &mut ConsumptionPlan,
    now: i64,
    time_of_day: &str,
) -> (forced: Vec<u128>)
    ensures
        final(consumption_plan)@ == canceled_plan(old(consumption_plan)@, now, time_of_day@),
        forced@ == if old(consumption_plan).state == ConsumptionPlanState::Processing {
            forced_switch_offs(
                old(consumption_plan)@.actions(),
                has_started(old(consumption_plan)@.consumption_plan_items),
            )
        } else {
            Seq::<u128>::empty()
        },
        old(consumption_plan)@.is_well_formed() ==> final(consumption_plan)@.is_well_formed(),
{
    let mut forced: Vec<u128> = Vec::new();
    match consumption_plan.state {
        ConsumptionPlanState::Processing => {},
        _ => {
            return forced;
        },
    }
    let ghost before = consumption_plan@;
    let ghost items = before.consumption_plan_items;
    let started = consumption_plan_has_been_started(consumption_plan);
    let ghost change = canceling(started, now, time_of_day@);
    let n = consumption_plan.consumption_plan_items.len();
    let mut i: usize = 0;
    proof {
        assert(items.take(0) =~= Seq::<ConsumptionPlanItemView>::empty());
    }
    while i < n
        invariant
            i <= n,
            n == items.len(),
            consumption_plan.consumption_plan_items@.len() == n,
            change == canceling(started, now, time_of_day@),
            consumption_plan.id == before.id,
            consumption_plan.created_at == before.created_at,
            consumption_plan.consumption_duration == before.consumption_duration,
            consumption_plan.finish_at == before.finish_at,
            consumption_plan.state == before.state,
            forall|k: int|
                0 <= k < i ==> (#[trigger] consumption_plan.consumption_plan_items@[k])@ == (
                ConsumptionPlanItemView {
                    switch_actions: items[k].switch_actions.map_values(change),
                    ..items[k]
                }),
            forall|k: int|
                i <= k < n ==> (#[trigger] consumption_plan.consumption_plan_items@[k])@ == items[k],
            forced@ == forced_switch_offs(flat_actions(items.take(i as int)), started),
        decreases n - i,
    {
        cancel_item_actions(
            &mut consumption_plan.consumption_plan_items[i],
            started,
            now,
            time_of_day,
            &mut forced,
        );
        proof {
            lemma_flat_actions_next(items, i as int);
            lemma_forced_switch_offs_concat(
                flat_actions(items.take(i as int)),
                items[i as int].switch_actions,
                started,
            );
        }
        i += 1;
    }
    consumption_plan.state = if started {
        ConsumptionPlanState::Executed
    } else {
        ConsumptionPlanState::Canceled
    };
    proof {
        assert(items.take(n as int) =~= items);
        assert(consumption_plan@.consumption_plan_items =~= with_actions_changed(items, change));
        if before.is_well_formed() {
            lemma_well_formed_after_change(before, consumption_plan@, change);
        }
    }
    forced
}

} // verus!
