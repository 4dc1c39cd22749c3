use std::sync::Arc;
use vstd::prelude::*;

use crate::model::consumption_plan::{
    flat_actions, ConsumptionPlan, ConsumptionPlanItem, ConsumptionPlanItemView,
    ConsumptionPlanView, SwitchAction, SwitchActionView,
};
use crate::model::errors::AppError;
use crate::power_consumers::home_assistant_service::HomeAssistantService;
use crate::power_consumers::ordering::lemma_sum_of_pointwise;
use crate::power_consumers::plan_invariant::{item_duration_of, lemma_well_formed_kept};
use crate::power_consumers::plan_state::{
    execute_switch_action, executed, lemma_flat_actions_changed, lemma_flat_actions_next,
    settled_state, switch_consumption_plan_state, with_actions_changed,
};
use crate::power_consumers::switching::{all_within, alternates, timeline};

verus! {

/// A switch that is due within this many milliseconds is executed at once.
pub const SCHEDULING_THRESHOLD: i64 = 15_000;

/// What is to be done about a switch action of a new plan.
#[derive(Clone, Copy, Debug, PartialEq, Eq, Structural)]
pub enum SwitchStep {
    /// Ask the gateway now to switch the device on or off.
    ExecuteNow { action_id: u128, switch_on: bool },
    /// Ask the gateway after `sleep_for` milliseconds, if the action still waits then.
    ExecuteAfter { action_id: u128, sleep_for: u64 },
}

/// Decides when the switch actions of a plan are carried out, and keeps
/// the plan up to date with what the gateway answers.
pub struct SwitchActionsScheduler {
    pub home_assistant_service: Arc<HomeAssistantService>,
}

/// The switch action is due at `now`: it lies less than the threshold ahead.
pub open spec fn is_due(action: SwitchActionView, now: i64) -> bool {
    action.at < now + SCHEDULING_THRESHOLD
}

/// What is to be done about the switch action at `now`.
pub open spec fn step_for(action: SwitchActionView, now: i64) -> SwitchStep {
    if is_due(action, now) {
        SwitchStep::ExecuteNow { action_id: action.id, switch_on: action.switch_on }
    } else {
        SwitchStep::ExecuteAfter { action_id: action.id, sleep_for: (action.at - now) as u64 }
    }
}

/// [`step_for`], as a function of the action.
pub open spec fn stepping(now: i64) -> spec_fn(SwitchActionView) -> SwitchStep {
    |action: SwitchActionView| step_for(action, now)
}

/// The switch action as it is scheduled at `now`: one that is due is moved to `now`.
pub open spec fn rescheduled(action: SwitchActionView, now: i64) -> SwitchActionView {
    if is_due(action, now) {
        SwitchActionView { at: now, ..action }
    } else {
        action
    }
}

/// [`rescheduled`], as a function of the action.
pub open spec fn rescheduling(now: i64) -> spec_fn(SwitchActionView) -> SwitchActionView {
    |action: SwitchActionView| rescheduled(action, now)
}

/// The switch action at place `j` of item `i` has the identifier `id`.
pub open spec fn holds_id_at(
    items: Seq<ConsumptionPlanItemView>,
    id: u128,
    i: int,
    j: int,
) -> bool {
    &&& 0 <= i < items.len()
    &&& 0 <= j < items[i].switch_actions.len()
    &&& items[i].switch_actions[j].id == id
}

/// The switch action at place `j` of item `i` is the first with the identifier `id`.
pub open spec fn is_first_with_id(
    items: Seq<ConsumptionPlanItemView>,
    id: u128,
    i: int,
    j: int,
) -> bool {
    &&& holds_id_at(items, id, i, j)
    &&& forall|a: int, b: int| #[trigger]
        holds_id_at(items, id, a, b) ==> a > i || (a == i && b >= j)
}

/// Some switch action has the identifier `id`.
pub open spec fn has_action_with_id(items: Seq<ConsumptionPlanItemView>, id: u128) -> bool {
    exists|a: int, b: int| holds_id_at(items, id, a, b)
}

/// The items with the switch action at place `j` of item `i` replaced.
pub open spec fn with_action_at(
    items: Seq<ConsumptionPlanItemView>,
    i: int,
    j: int,
    action: SwitchActionView,
) -> Seq<ConsumptionPlanItemView> {
    items.update(
        i,
        ConsumptionPlanItemView { switch_actions: items[i].switch_actions.update(j, action), ..items[i] },
    )
}

/// The plan `after` is the plan `before` with the answer of the gateway
/// recorded that was asked at `now` to carry out the first switch action with
/// the identifier `id`: that action has been executed if it was waiting.
pub open spec fn is_recorded(
    before: ConsumptionPlanView,
    after: ConsumptionPlanView,
    id: u128,
    outcome: Result<(), AppError>,
    now: i64,
) -> bool {
    exists|i: int, j: int|
        {
            &&& #[trigger] is_first_with_id(before.consumption_plan_items, id, i, j)
            &&& after == (ConsumptionPlanView {
                consumption_plan_items: with_action_at(
                    before.consumption_plan_items,
                    i,
                    j,
                    executed(before.consumption_plan_items[i].switch_actions[j], outcome, now),
                ),
                ..before
            })
        }
}

/// The plan `after` is the plan `before` once the gateway was asked at `now`
/// to carry out the first switch action with the identifier `id`: that
/// action has been executed if it was waiting, and a plan in process that
/// has no action waiting any more has been executed.
pub open spec fn is_completed(
    before: ConsumptionPlanView,
    after: ConsumptionPlanView,
    id: u128,
    outcome: Result<(), AppError>,
    now: i64,
) -> bool {
    exists|i: int, j: int|
        {
            let recorded = ConsumptionPlanView {
                consumption_plan_items: with_action_at(
                    before.consumption_plan_items,
                    i,
                    j,
                    executed(before.consumption_plan_items[i].switch_actions[j], outcome, now),
                ),
                ..before
            };
            &&& #[trigger] is_first_with_id(before.consumption_plan_items, id, i, j)
            &&& after == (ConsumptionPlanView { state: settled_state(recorded), ..recorded })
        }
}

/// Scheduling a plan at `now` keeps its switch actions in turns and within
/// the window from `now` to `finish_at`: an action that is moved is moved
/// to `now`, and still switches the device the same way.
pub proof fn lemma_scheduled_plan_keeps_turns(
    items: Seq<ConsumptionPlanItemView>,
    now: i64,
    finish_at: int,
)
    requires
        alternates(timeline(flat_actions(items))),
        all_within(timeline(flat_actions(items)), now as int, finish_at),
    ensures
        alternates(timeline(flat_actions(with_actions_changed(items, rescheduling(now))))),
        all_within(
            timeline(flat_actions(with_actions_changed(items, rescheduling(now)))),
            now as int,
            finish_at,
        ),
{
    let before = timeline(flat_actions(items));
    let after = timeline(flat_actions(with_actions_changed(items, rescheduling(now))));
    lemma_flat_actions_changed(items, rescheduling(now));
    assert(after.len() == before.len());
    assert forall|k: int| 0 <= k < after.len() implies (#[trigger] after[k]).switch_on == (k % 2
        == 0) && now <= after[k].at <= finish_at by {
        assert(before[k].switch_on == (k % 2 == 0));
        assert(now <= before[k].at <= finish_at);
    }
}

/// A well-formed plan stays well formed when it is scheduled between its
/// creation and its finish.
pub proof fn lemma_well_formed_after_scheduling(
    before: ConsumptionPlanView,
    after: ConsumptionPlanView,
    now: i64,
)
    requires
        before.is_well_formed(),
        before.created_at <= now <= before.finish_at,
        after == (ConsumptionPlanView {
            consumption_plan_items: with_actions_changed(
                before.consumption_plan_items,
                rescheduling(now),
            ),
            ..before
        }),
    ensures
        after.is_well_formed(),
{
    let a = after.consumption_plan_items;
    let b = before.consumption_plan_items;
    let planned = timeline(flat_actions(b));
    let scheduled = timeline(flat_actions(a));
    lemma_flat_actions_changed(b, rescheduling(now));
    assert(scheduled.len() == planned.len());
    assert forall|k: int| 0 <= k < scheduled.len() implies {
        &&& (#[trigger] scheduled[k]).switch_on == (k % 2 == 0)
        &&& before.created_at <= scheduled[k].at <= before.finish_at
        &&& scheduled[k].at == if planned[k].at < now + SCHEDULING_THRESHOLD {
            now as int
        } else {
            planned[k].at
        }
    } by {
        assert(planned[k].switch_on == (k % 2 == 0));
        assert(before.created_at <= planned[k].at <= before.finish_at);
    }
    assert forall|k: int, l: int| 0 <= k < l < scheduled.len() implies (#[trigger] scheduled[k]).at <= (
    #[trigger] scheduled[l]).at by {
        assert(planned[k].at <= planned[l].at);
    }
    assert forall|i: int| 0 <= i < a.len() implies item_duration_of()(#[trigger] a[i])
        == item_duration_of()(b[i]) by {}
    lemma_sum_of_pointwise(a, item_duration_of(), b, item_duration_of());
    assert forall|i: int| 0 <= i < a.len() implies {
        &&& (#[trigger] a[i]).price_list_item.is_valid()
        &&& 0 < a[i].duration <= a[i].price_list_item.duration
    } by {
        assert(b[i].price_list_item.is_valid());
    }
    assert forall|i: int, j: int| 0 <= i < j < a.len() implies (#[trigger] a[i]).price_list_item.end()
        <= (#[trigger] a[j]).price_list_item.starts_at by {
        assert(b[i].price_list_item.end() <= b[j].price_list_item.starts_at);
    }
}

/// A well-formed plan stays well formed when the answer of the gateway is recorded.
pub proof fn lemma_well_formed_after_recording(
    before: ConsumptionPlanView,
    after: ConsumptionPlanView,
    id: u128,
    outcome: Result<(), AppError>,
    now: i64,
)
    requires
        before.is_well_formed(),
        is_recorded(before, after, id, outcome, now) || is_completed(before, after, id, outcome, now),
    ensures
        after.is_well_formed(),
{
    let b = before.consumption_plan_items;
    let a = after.consumption_plan_items;
    let (i, j) = if is_recorded(before, after, id, outcome, now) {
        choose|i: int, j: int|
            {
                &&& #[trigger] is_first_with_id(b, id, i, j)
                &&& after == (ConsumptionPlanView {
                    consumption_plan_items: with_action_at(
                        b,
                        i,
                        j,
                        executed(b[i].switch_actions[j], outcome, now),
                    ),
                    ..before
                })
            }
    } else {
        choose|i: int, j: int|
            {
                let recorded = ConsumptionPlanView {
                    consumption_plan_items: with_action_at(
                        b,
                        i,
                        j,
                        executed(b[i].switch_actions[j], outcome, now),
                    ),
                    ..before
                };
                &&& #[trigger] is_first_with_id(b, id, i, j)
                &&& after == (ConsumptionPlanView { state: settled_state(recorded), ..recorded })
            }
    };
    assert(holds_id_at(b, id, i, j));
    assert(a =~= with_action_at(b, i, j, executed(b[i].switch_actions[j], outcome, now)));
    assert forall|k: int| 0 <= k < b.len() implies {
        &&& (#[trigger] a[k]).price_list_item == b[k].price_list_item
        &&& a[k].duration == b[k].duration
        &&& timeline(a[k].switch_actions) == timeline(b[k].switch_actions)
    } by {
        assert(timeline(a[k].switch_actions) =~= timeline(b[k].switch_actions));
    }
    lemma_well_formed_kept(before, after);
}

/// Schedules one switch action at `now`.
fn schedule_switch_action(switch_action: &mut SwitchAction, now: i64) -> (step: SwitchStep)
    ensures
        final(switch_action)@ == rescheduled(old(switch_action)@, now),
        step == step_for(old(switch_action)@, now),
{
    let scheduling_threshold = now as i128 + SCHEDULING_THRESHOLD as i128;
    if (switch_action.at as i128) < scheduling_threshold {
        switch_action.at = now;
        SwitchStep::ExecuteNow { action_id: switch_action.id, switch_on: switch_action.switch_on }
    } else {
        let sleep_for = (switch_action.at as i128 - now as i128) as u64;
        SwitchStep::ExecuteAfter { action_id: switch_action.id, sleep_for }
    }
}

/// Schedules the switch actions of one item at `now`.
fn schedule_item_actions(item: &mut ConsumptionPlanItem, now: i64, steps: &mut Vec<SwitchStep>)
    ensures
        final(item)@ == (ConsumptionPlanItemView {
            switch_actions: old(item)@.switch_actions.map_values(rescheduling(now)),
            ..old(item)@
        }),
        final(steps)@ == old(steps)@ + old(item)@.switch_actions.map_values(stepping(now)),
{
    let ghost before = item@;
    let ghost steps_before = steps@;
    let n = item.switch_actions.len();
    let mut j: usize = 0;
    while j < n
        invariant
            j <= n,
            n == before.switch_actions.len(),
            item.switch_actions@.len() == n,
            item.price_list_item == before.price_list_item,
            item.duration == before.duration,
            forall|b: int|
                0 <= b < j ==> (#[trigger] item.switch_actions@[b])@ == rescheduled(
                    before.switch_actions[b],
                    now,
                ),
            forall|b: int| j <= b < n ==> (#[trigger] item.switch_actions@[b])@ == before.switch_actions[b],
            steps@.len() == steps_before.len() + j,
            forall|b: int| 0 <= b < steps_before.len() ==> steps@[b] == steps_before[b],
            forall|b: int|
                steps_before.len() <= b < steps@.len() ==> #[trigger] steps@[b] == step_for(
                    before.switch_actions[b - steps_before.len()],
                    now,
                ),
        decreases n - j,
    {
        let step = schedule_switch_action(&mut item.switch_actions[j], now);
        steps.push(step);
        j += 1;
    }
    proof {
        assert(item@.switch_actions =~= before.switch_actions.map_values(rescheduling(now)));
        assert(steps@ =~= steps_before + before.switch_actions.map_values(stepping(now)));
    }
}

impl SwitchActionsScheduler {
    pub fn new(home_assistant_service: Arc<HomeAssistantService>) -> (scheduler: Self)
        ensures
            scheduler.home_assistant_service == home_assistant_service,
    {
        Self { home_assistant_service }
    }

    /// Decides, for every switch action of the plan in order, what is to be
    /// done about it at `now`.
    ///
    /// An action that is due within [`SCHEDULING_THRESHOLD`] is to be
    /// executed at once, and is moved to `now`. Every other action waits
    /// until its time has come.
    pub fn schedule_switch_actions(
        &self,
        consumption_plan: &mut ConsumptionPlan,
        now: i64,
    ) -> (steps: Vec<SwitchStep>)
        ensures
            final(consumption_plan)@ == (ConsumptionPlanView {
                consumption_plan_items: with_actions_changed(
                    old(consumption_plan)@.consumption_plan_items,
                    rescheduling(now),
                ),
                ..old(consumption_plan)@
            }),
            steps@ == old(consumption_plan)@.actions().map_values(stepping(now)),
            old(consumption_plan)@.is_well_formed() && old(consumption_plan).created_at <= now <= old(
                consumption_plan,
            ).finish_at ==> final(consumption_plan)@.is_well_formed(),
    {
        let ghost before = consumption_plan@;
        let ghost items = before.consumption_plan_items;
        let mut steps: Vec<SwitchStep> = Vec::new();
        let n = consumption_plan.consumption_plan_items.len();
        let mut i: usize = 0;
        proof {
            assert(items.take(0) =~= Seq::<ConsumptionPlanItemView>::empty());
            assert(steps@ =~= flat_actions(items.take(0)).map_values(stepping(now)));
        }
        while i < n
            invariant
                i <= n,
                n == items.len(),
                consumption_plan.consumption_plan_items@.len() == n,
                consumption_plan.id == before.id,
                consumption_plan.created_at == before.created_at,
                consumption_plan.consumption_duration == before.consumption_duration,
                consumption_plan.finish_at == before.finish_at,
                consumption_plan.state == before.state,
                forall|k: int|
                    0 <= k < i ==> (#[trigger] consumption_plan.consumption_plan_items@[k])@ == (
                    ConsumptionPlanItemView {
                        switch_actions: items[k].switch_actions.map_values(rescheduling(now)),
                        ..items[k]
                    }),
                forall|k: int|
                    i <= k < n ==> (#[trigger] consumption_plan.consumption_plan_items@[k])@
                        == items[k],
                steps@ == flat_actions(items.take(i as int)).map_values(stepping(now)),
            decreases n - i,
        {
            schedule_item_actions(&mut consumption_plan.consumption_plan_items[i], now, &mut steps);
            proof {
                lemma_flat_actions_next(items, i as int);
                assert(steps@ =~= flat_actions(items.take(i + 1)).map_values(stepping(now)));
            }
            i += 1;
        }
        proof {
            assert(items.take(n as int) =~= items);
            assert(consumption_plan@.consumption_plan_items =~= with_actions_changed(
                items,
                rescheduling(now),
            ));
            if before.is_well_formed() && before.created_at <= now <= before.finish_at {
                lemma_well_formed_after_scheduling(before, consumption_plan@, now);
            }
        }
        steps
    }
}

impl ConsumptionPlan {
    /// The place of the first switch action with the identifier `id`: the
    /// index of its item and its index among the actions of that item.
    pub fn get_switch_action_position(&self, id: u128) -> (position: Option<(usize, usize)>)
        ensures
            match position {
                Some((i, j)) => is_first_with_id(self@.consumption_plan_items, id, i as int, j as int),
                None => !has_action_with_id(self@.consumption_plan_items, id),
            },
    {
        let ghost items = self@.consumption_plan_items;
        let mut i: usize = 0;
        while i < self.consumption_plan_items.len()
            invariant
                i <= self.consumption_plan_items.len(),
                items == self@.consumption_plan_items,
                forall|a: int, b: int| #[trigger] holds_id_at(items, id, a, b) ==> a >= i,
            decreases self.consumption_plan_items.len() - i,
        {
            let item = &self.consumption_plan_items[i];
            assert(items[i as int] == item@);
            let mut j: usize = 0;
            while j < item.switch_actions.len()
                invariant
                    j <= item.switch_actions.len(),
                    i < items.len(),
                    items == self@.consumption_plan_items,
                    items[i as int] == item@,
                    forall|a: int, b: int|
                        #[trigger] holds_id_at(items, id, a, b) ==> a > i || (a == i && b >= j),
                decreases item.switch_actions.len() - j,
            {
                assert(items[i as int].switch_actions[j as int] == item.switch_actions@[j as int]@);
                if item.switch_actions[j].id == id {
                    assert(holds_id_at(items, id, i as int, j as int));
                    return Some((i, j));
                }
                j += 1;
            }
            i += 1;
        }
        None
    }

    /// Records what the gateway answered at `now` when it was asked to carry
    /// out the switch action with the identifier `id`.
    ///
    /// The action is the first with that identifier; it changes only if it
    /// was still waiting. Tells whether there is such an action.
    pub fn execute_switch_action_by_id(
        &mut self,
        id: u128,
        outcome: Result<(), AppError>,
        now: i64,
    ) -> (found: bool)
        ensures
            found == has_action_with_id(old(self)@.consumption_plan_items, id),
            !found ==> *final(self) == *old(self),
            found ==> is_recorded(old(self)@, final(self)@, id, outcome, now),
            old(self)@.is_well_formed() ==> final(self)@.is_well_formed(),
    {
        let ghost items = self@.consumption_plan_items;
        match self.get_switch_action_position(id) {
            Some((i, j)) => {
                assert(holds_id_at(items, id, i as int, j as int));
                assert(items[i as int] == self.consumption_plan_items@[i as int]@);
                execute_switch_action(
                    &mut self.consumption_plan_items[i].switch_actions[j],
                    outcome,
                    now,
                );
                proof {
                    let changed = with_action_at(
                        items,
                        i as int,
                        j as int,
                        executed(items[i as int].switch_actions[j as int], outcome, now),
                    );
                    assert(self@.consumption_plan_items[i as int].switch_actions
                        =~= changed[i as int].switch_actions);
                    assert(self@.consumption_plan_items =~= changed);
                    assert(is_first_with_id(items, id, i as int, j as int));
                    if old(self)@.is_well_formed() {
                        lemma_well_formed_after_recording(old(self)@, self@, id, outcome, now);
                    }
                }
                true
            },
            None => false,
        }
    }

    /// Records what the gateway answered at `now` when it was asked to carry
    /// out the switch action with the identifier `id`, and brings the state
    /// of the plan up to date; see [`is_completed`].
    ///
    /// A plan without such an action stays as it is. Tells whether there
    /// is such an action.
    pub fn complete_switch_action_by_id(
        &mut self,
        id: u128,
        outcome: Result<(), AppError>,
        now: i64,
    ) -> (found: bool)
        ensures
            found == has_action_with_id(old(self)@.consumption_plan_items, id),
            !found ==> *final(self) == *old(self),
            found ==> is_completed(old(self)@, final(self)@, id, outcome, now),
            old(self)@.is_well_formed() ==> final(self)@.is_well_formed(),
    {
        let ghost before = self@;
        let found = self.execute_switch_action_by_id(id, outcome, now);
        if found {
            proof {
                let (i, j) = choose|i: int, j: int|
                    {
                        &&& #[trigger] is_first_with_id(before.consumption_plan_items, id, i, j)
                        &&& self@ == (ConsumptionPlanView {
                            consumption_plan_items: with_action_at(
                                before.consumption_plan_items,
                                i,
                                j,
                                executed(
                                    before.consumption_plan_items[i].switch_actions[j],
                                    outcome,
                                    now,
                                ),
                            ),
                            ..before
                        })
                    };
                assert(is_first_with_id(before.consumption_plan_items, id, i, j));
            }
            switch_consumption_plan_state(self);
        }
        found
    }
}

} // verus!
