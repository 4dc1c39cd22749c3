//! What holds of a consumption plan from its creation on, whatever happens
//! to its switch actions.

use vstd::prelude::*;

use crate::model::consumption_plan::{
    flat_actions, item_views, ConsumptionPlanItem, ConsumptionPlanItemView, ConsumptionPlanView,
    SwitchActionView,
};
use crate::model::time::is_instant;
use crate::power_consumers::ordering::{lemma_sum_of_pointwise, sum_of};
use crate::power_consumers::plan_state::with_actions_changed;
use crate::power_consumers::selection::{duration_of, is_plan_within, selections_of, total_duration};
use crate::power_consumers::switching::{all_within, alternates, timeline, PlannedSwitch};

verus! {

/// The duration of a plan item, as a function.
pub open spec fn item_duration_of() -> spec_fn(ConsumptionPlanItemView) -> int {
    |item: ConsumptionPlanItemView| item.duration as int
}

/// No switch comes earlier than the one before.
pub open spec fn is_in_order(switches: Seq<PlannedSwitch>) -> bool {
    forall|k: int, l: int|
        0 <= k < l < switches.len() ==> (#[trigger] switches[k]).at <= (#[trigger] switches[l]).at
}

impl ConsumptionPlanView {
    /// The time that the items of the plan consume: the sum of their durations.
    pub open spec fn planned_duration(self) -> int {
        sum_of(self.consumption_plan_items, item_duration_of())
    }

    /// The plan is well formed.
    ///
    /// Its items use valid cells, each for some time and for no more than
    /// the cell lasts; the cells follow each other in time without reaching
    /// into one another; the durations of the items add up to the duration of
    /// the plan. Its switch actions take turns, beginning with on and ending
    /// with off; none comes earlier than the one before, none before the plan
    /// was created and none after it is to be finished.
    pub open spec fn is_well_formed(self) -> bool {
        let items = self.consumption_plan_items;
        let switches = timeline(self.actions());
        &&& is_instant(self.created_at as int)
        &&& is_instant(self.finish_at as int)
        &&& forall|i: int|
            0 <= i < items.len() ==> {
                &&& (#[trigger] items[i]).price_list_item.is_valid()
                &&& 0 < items[i].duration <= items[i].price_list_item.duration
            }
        &&& forall|i: int, j: int|
            0 <= i < j < items.len() ==> (#[trigger] items[i]).price_list_item.end() <= (
            #[trigger] items[j]).price_list_item.starts_at
        &&& self.planned_duration() == self.consumption_duration
        &&& alternates(switches)
        &&& all_within(switches, self.created_at as int, self.finish_at as int)
        &&& is_in_order(switches)
    }
}

/// A change of a switch action that leaves its time and its direction as they are.
pub open spec fn keeps_switches(change: spec_fn(SwitchActionView) -> SwitchActionView) -> bool {
    forall|action: SwitchActionView|
        (#[trigger] change(action)).at == action.at && change(action).switch_on == action.switch_on
}

/// The instants and directions of two lists of switch actions, one behind the other.
proof fn lemma_timeline_concat(a: Seq<SwitchActionView>, b: Seq<SwitchActionView>)
    ensures
        timeline(a + b) == timeline(a) + timeline(b),
{
    assert(timeline(a + b) =~= timeline(a) + timeline(b));
}

/// Items that agree, one by one, on the instants and directions of their
/// switch actions agree on those of all their switch actions taken together.
pub proof fn lemma_same_switches(
    a: Seq<ConsumptionPlanItemView>,
    b: Seq<ConsumptionPlanItemView>,
)
    requires
        a.len() == b.len(),
        forall|i: int|
            0 <= i < a.len() ==> timeline((#[trigger] a[i]).switch_actions) == timeline(
                b[i].switch_actions,
            ),
    ensures
        timeline(flat_actions(a)) == timeline(flat_actions(b)),
    decreases a.len(),
{
    if a.len() > 0 {
        assert forall|i: int| 0 <= i < a.drop_last().len() implies timeline(
            (#[trigger] a.drop_last()[i]).switch_actions,
        ) == timeline(b.drop_last()[i].switch_actions) by {
            assert(a.drop_last()[i] == a[i]);
            assert(b.drop_last()[i] == b[i]);
        }
        lemma_same_switches(a.drop_last(), b.drop_last());
        assert(timeline(a[a.len() - 1].switch_actions) == timeline(b[b.len() - 1].switch_actions));
        lemma_timeline_concat(flat_actions(a.drop_last()), a.last().switch_actions);
        lemma_timeline_concat(flat_actions(b.drop_last()), b.last().switch_actions);
    }
}

/// A plan stays well formed when its switch actions change in anything but
/// their times and directions, and when its state changes.
pub proof fn lemma_well_formed_kept(before: ConsumptionPlanView, after: ConsumptionPlanView)
    requires
        before.is_well_formed(),
        after.created_at == before.created_at,
        after.consumption_duration == before.consumption_duration,
        after.finish_at == before.finish_at,
        after.consumption_plan_items.len() == before.consumption_plan_items.len(),
        forall|i: int|
            0 <= i < before.consumption_plan_items.len() ==> {
                &&& (#[trigger] after.consumption_plan_items[i]).price_list_item
                    == before.consumption_plan_items[i].price_list_item
                &&& after.consumption_plan_items[i].duration
                    == before.consumption_plan_items[i].duration
                &&& timeline(after.consumption_plan_items[i].switch_actions) == timeline(
                    before.consumption_plan_items[i].switch_actions,
                )
            },
    ensures
        after.is_well_formed(),
{
    let a = after.consumption_plan_items;
    let b = before.consumption_plan_items;
    lemma_same_switches(a, b);
    assert forall|i: int| 0 <= i < a.len() implies item_duration_of()(#[trigger] a[i])
        == item_duration_of()(b[i]) by {}
    lemma_sum_of_pointwise(a, item_duration_of(), b, item_duration_of());
    assert forall|i: int| 0 <= i < a.len() implies {
        &&& (#[trigger] a[i]).price_list_item.is_valid()
        &&& 0 < a[i].duration <= a[i].price_list_item.duration
    } by {
        assert(b[i].price_list_item.is_valid());
    }
    assert forall|i: int, j: int| 0 <= i < j < a.len() implies (#[trigger] a[i]).price_list_item.end()
        <= (#[trigger] a[j]).price_list_item.starts_at by {
        assert(b[i].price_list_item.end() <= b[j].price_list_item.starts_at);
    }
}

/// A plan stays well formed when every switch action of it changes in
/// anything but its time and direction, and when its state changes.
pub proof fn lemma_well_formed_after_change(
    before: ConsumptionPlanView,
    after: ConsumptionPlanView,
    change: spec_fn(SwitchActionView) -> SwitchActionView,
)
    requires
        before.is_well_formed(),
        keeps_switches(change),
        after.created_at == before.created_at,
        after.consumption_duration == before.consumption_duration,
        after.finish_at == before.finish_at,
        after.consumption_plan_items == with_actions_changed(before.consumption_plan_items, change),
    ensures
        after.is_well_formed(),
{
    assert forall|i: int| 0 <= i < before.consumption_plan_items.len() implies timeline(
        (#[trigger] after.consumption_plan_items[i]).switch_actions,
    ) == timeline(before.consumption_plan_items[i].switch_actions) by {
        assert(timeline(after.consumption_plan_items[i].switch_actions) =~= timeline(
            before.consumption_plan_items[i].switch_actions,
        ));
    }
    lemma_well_formed_kept(before, after);
}

/// The items of a plan within a window consume what their selections
/// consume, and they are as a well-formed plan needs them.
pub proof fn lemma_plan_within_is_well_formed(
    items: Seq<ConsumptionPlanItem>,
    start_from: int,
    finish_at: int,
)
    requires
        is_plan_within(selections_of(items), start_from, finish_at),
    ensures
        sum_of(item_views(items), item_duration_of()) == total_duration(selections_of(items)),
        forall|i: int|
            0 <= i < items.len() ==> {
                &&& (#[trigger] item_views(items)[i]).price_list_item.is_valid()
                &&& 0 < item_views(items)[i].duration <= item_views(items)[i].price_list_item.duration
            },
        forall|i: int, j: int|
            0 <= i < j < items.len() ==> (#[trigger] item_views(items)[i]).price_list_item.end()
                <= (#[trigger] item_views(items)[j]).price_list_item.starts_at,
{
    let selected = selections_of(items);
    let views = item_views(items);
    assert forall|i: int| 0 <= i < views.len() implies item_duration_of()(#[trigger] views[i])
        == duration_of()(selected[i]) by {}
    lemma_sum_of_pointwise(views, item_duration_of(), selected, duration_of());
    assert forall|i: int| 0 <= i < items.len() implies {
        &&& (#[trigger] views[i]).price_list_item.is_valid()
        &&& 0 < views[i].duration <= views[i].price_list_item.duration
    } by {
        assert(selected[i].cell.is_valid());
    }
    assert forall|i: int, j: int| 0 <= i < j < items.len() implies (
    #[trigger] views[i]).price_list_item.end() <= (#[trigger] views[j]).price_list_item.starts_at by {
        assert(selected[i].cell.end() <= selected[j].cell.starts_at);
    }
}

} // verus!
