//! Turning a plan into the switch-on and switch-off events that carry it out.

use vstd::prelude::*;

use crate::model::consumption_plan::{
    flat_actions, item_views, ConsumptionPlanItem, SwitchAction, SwitchActionView,
};
use crate::power_consumers::selection::{
    effective_duration, is_plan_within, selection_of, selections_of, total_duration, Selection,
};

verus! {

/// A switch of the device at an instant: on or off.
pub struct PlannedSwitch {
    pub at: int,
    pub switch_on: bool,
}

/// The selection uses less than its whole cell.
pub open spec fn is_partial(selection: Selection) -> bool {
    selection.duration < selection.cell.duration
}

/// Whether the device is left on at the end of the cell of item `i`.
///
/// An item that uses its whole cell leaves the device on. An item that uses
/// part of its cell uses the end of the cell if the device comes to it
/// switched off, and then leaves it on; it uses the start of the cell if the
/// device is already on, and then switches it off.
pub open spec fn stays_on(plan: Seq<Selection>, i: int) -> bool
    decreases i,
{
    if i < 0 || i >= plan.len() {
        false
    } else {
        let continued = i > 0 && stays_on(plan, i - 1) && plan[i - 1].cell.end()
            == plan[i].cell.starts_at;
        if is_partial(plan[i]) {
            !continued
        } else {
            true
        }
    }
}

/// Whether the device comes to item `i` switched on: the item before left
/// it on, and its cell ends where the cell of item `i` starts.
pub open spec fn is_continued(plan: Seq<Selection>, i: int) -> bool {
    &&& 0 < i < plan.len()
    &&& stays_on(plan, i - 1)
    &&& plan[i - 1].cell.end() == plan[i].cell.starts_at
}

/// The instant from which item `i` has the device on.
pub open spec fn usage_start(plan: Seq<Selection>, finish_at: int, i: int) -> int {
    if is_partial(plan[i]) && !is_continued(plan, i) {
        let cell_end = plan[i].cell.end();
        (if finish_at < cell_end {
            finish_at
        } else {
            cell_end
        }) - plan[i].duration
    } else {
        plan[i].cell.starts_at as int
    }
}

/// The instant until which item `i` has the device on.
pub open spec fn usage_end(plan: Seq<Selection>, finish_at: int, i: int) -> int {
    usage_start(plan, finish_at, i) + plan[i].duration
}

/// The switch with which item `i` begins, if the device does not come to it switched on.
pub open spec fn leading_switch(
    plan: Seq<Selection>,
    finish_at: int,
    i: int,
) -> Seq<PlannedSwitch> {
    if is_continued(plan, i) {
        Seq::empty()
    } else {
        seq![PlannedSwitch { at: usage_start(plan, finish_at, i), switch_on: true }]
    }
}

/// The switches that fall into the cell of item `i`: on where its use
/// starts, unless the device is on already; off where its use ends, unless
/// the next item goes on from there.
pub open spec fn item_switches(plan: Seq<Selection>, finish_at: int, i: int) -> Seq<PlannedSwitch> {
    leading_switch(plan, finish_at, i) + (if is_continued(plan, i + 1) {
        Seq::empty()
    } else {
        seq![PlannedSwitch { at: usage_end(plan, finish_at, i), switch_on: false }]
    })
}

/// The switches of the first `count` items of the plan, in order.
pub open spec fn switches_up_to(
    plan: Seq<Selection>,
    finish_at: int,
    count: int,
) -> Seq<PlannedSwitch>
    decreases count,
{
    if count <= 0 {
        Seq::empty()
    } else {
        switches_up_to(plan, finish_at, count - 1) + item_switches(plan, finish_at, count - 1)
    }
}

/// All switches of the plan, in order.
pub open spec fn plan_switches(plan: Seq<Selection>, finish_at: int) -> Seq<PlannedSwitch> {
    switches_up_to(plan, finish_at, plan.len() as int)
}

/// Switches take turns, beginning with on and ending with off.
pub open spec fn alternates(switches: Seq<PlannedSwitch>) -> bool {
    &&& switches.len() % 2 == 0
    &&& forall|k: int| 0 <= k < switches.len() ==> (#[trigger] switches[k]).switch_on == (k % 2 == 0)
}

/// The time for which the device is on: from every switch-on to the
/// switch-off that follows it.
pub open spec fn on_time(switches: Seq<PlannedSwitch>) -> int
    decreases switches.len(),
{
    if switches.len() < 2 {
        0
    } else {
        on_time(switches.subrange(0, switches.len() - 2)) + (switches[switches.len() - 1].at
            - switches[switches.len() - 2].at)
    }
}

/// Every switch lies within the window from `start_from` to `finish_at`.
pub open spec fn all_within(switches: Seq<PlannedSwitch>, start_from: int, finish_at: int) -> bool {
    forall|k: int| 0 <= k < switches.len() ==> start_from <= (#[trigger] switches[k]).at <= finish_at
}

/// Every switch comes later than the one before.
pub open spec fn is_ascending(switches: Seq<PlannedSwitch>) -> bool {
    forall|k: int, l: int|
        0 <= k < l < switches.len() ==> (#[trigger] switches[k]).at < (#[trigger] switches[l]).at
}

/// The on-time so far, counting a last switch-on, if no switch-off follows it yet, up to `until`.
spec fn elapsed(switches: Seq<PlannedSwitch>, until: int) -> int {
    if switches.len() % 2 == 0 {
        on_time(switches)
    } else {
        on_time(switches.drop_last()) + (until - switches.last().at)
    }
}

/// What holds of the switches of the first `count` items of a plan.
spec fn holds_up_to(
    plan: Seq<Selection>,
    start_from: int,
    finish_at: int,
    count: int,
) -> bool {
    let switches = switches_up_to(plan, finish_at, count);
    &&& (switches.len() % 2 == 1) == is_continued(plan, count)
    &&& forall|k: int| 0 <= k < switches.len() ==> (#[trigger] switches[k]).switch_on == (k % 2 == 0)
    &&& all_within(switches, start_from, finish_at)
    &&& is_ascending(switches)
    &&& count > 0 ==> {
        &&& forall|k: int| 0 <= k < switches.len() ==> (#[trigger] switches[k]).at <= plan[count - 1].cell.end()
        &&& is_continued(plan, count) ==> switches.last().at < plan[count - 1].cell.end()
        &&& elapsed(switches, plan[count - 1].cell.end()) == total_duration(plan.take(count))
    }
    &&& count == 0 ==> switches.len() == 0
}

#[verifier::rlimit(40)]
proof fn lemma_holds_up_to(plan: Seq<Selection>, start_from: int, finish_at: int, count: int)
    requires
        is_plan_within(plan, start_from, finish_at),
        0 <= count <= plan.len(),
    ensures
        holds_up_to(plan, start_from, finish_at, count),
    decreases count,
{
    if count == 0 {
        assert(plan.take(0) =~= Seq::<Selection>::empty());
    } else {
        let n = count - 1;
        lemma_holds_up_to(plan, start_from, finish_at, n);
        let before = switches_up_to(plan, finish_at, n);
        let here = item_switches(plan, finish_at, n);
        let switches = switches_up_to(plan, finish_at, count);
        assert(switches == before + here);
        let item = plan[n];
        assert(item.cell.is_valid());
        assert(0 < item.duration <= effective_duration(item.cell, start_from, finish_at));
        if n > 0 {
            assert(plan[n - 1].cell.is_valid());
            assert(0 < plan[n - 1].duration <= effective_duration(
                plan[n - 1].cell,
                start_from,
                finish_at,
            ));
            assert(plan[n - 1].cell.end() <= plan[n].cell.starts_at);
        }
        if count < plan.len() {
            assert(plan[count].cell.is_valid());
            assert(0 < plan[count].duration <= effective_duration(
                plan[count].cell,
                start_from,
                finish_at,
            ));
            assert(plan[n].cell.end() <= plan[count].cell.starts_at);
        }
        assert(plan.take(count).drop_last() =~= plan.take(n));
        assert(plan.take(count).last() == item);
        assert(total_duration(plan.take(count)) == total_duration(plan.take(n)) + item.duration);
        let on = PlannedSwitch { at: usage_start(plan, finish_at, n), switch_on: true };
        let off = PlannedSwitch { at: usage_end(plan, finish_at, n), switch_on: false };
        let spent_before = total_duration(plan.take(n));
        if n == 0 {
            assert(plan.take(0) =~= Seq::<Selection>::empty());
            assert(before.len() == 0);
        }
        if is_continued(plan, n) {
            assert(elapsed(before, plan[n - 1].cell.end()) == spent_before);
            assert(item.cell.starts_at == plan[n - 1].cell.end());
            if is_continued(plan, count) {
                assert(here =~= Seq::<PlannedSwitch>::empty());
                assert(switches =~= before);
                assert(!is_partial(item));
                assert(item.duration == item.cell.duration);
            } else {
                assert(here =~= seq![off]);
                assert(switches =~= before.push(off));
                assert(switches.subrange(0, switches.len() - 2) =~= before.drop_last());
                assert(switches[switches.len() - 2] == before.last());
                assert(on_time(switches) == on_time(switches.subrange(0, switches.len() - 2)) + (
                switches[switches.len() - 1].at - switches[switches.len() - 2].at));
            }
        } else {
            assert(on_time(before) == spent_before);
            if is_continued(plan, count) {
                assert(here =~= seq![on]);
                assert(switches =~= before.push(on));
                assert(switches.drop_last() =~= before);
                assert(usage_end(plan, finish_at, n) == item.cell.end());
            } else {
                assert(here =~= seq![on, off]);
                assert(switches =~= before.push(on).push(off));
                assert(switches.subrange(0, switches.len() - 2) =~= before);
                assert(on_time(switches) == on_time(switches.subrange(0, switches.len() - 2)) + (
                switches[switches.len() - 1].at - switches[switches.len() - 2].at));
            }
        }
    }
}

/// The switches of a plan within a window take turns: the first, third,
/// fifth of them switch on, the ones between switch off; the first is a
/// switch-on and the last a switch-off.
pub proof fn lemma_switches_alternate(plan: Seq<Selection>, start_from: int, finish_at: int)
    requires
        is_plan_within(plan, start_from, finish_at),
    ensures
        alternates(plan_switches(plan, finish_at)),
        plan.len() > 0 ==> plan_switches(plan, finish_at).len() >= 2,
{
    lemma_holds_up_to(plan, start_from, finish_at, plan.len() as int);
    if plan.len() > 0 {
        let n = plan.len() - 1;
        assert(switches_up_to(plan, finish_at, plan.len() as int) == switches_up_to(
            plan,
            finish_at,
            n,
        ) + item_switches(plan, finish_at, n));
    }
}

/// The time for which the switches of a plan have the device on is the
/// time that the plan consumes.
pub proof fn lemma_switches_on_time(plan: Seq<Selection>, start_from: int, finish_at: int)
    requires
        is_plan_within(plan, start_from, finish_at),
    ensures
        on_time(plan_switches(plan, finish_at)) == total_duration(plan),
{
    lemma_holds_up_to(plan, start_from, finish_at, plan.len() as int);
    assert(plan.take(plan.len() as int) =~= plan);
    if plan.len() == 0 {
        assert(total_duration(plan) == 0);
    }
}

/// No switch of a plan within a window lies outside the window, and every
/// switch comes later than the one before.
pub proof fn lemma_switches_within_window(plan: Seq<Selection>, start_from: int, finish_at: int)
    requires
        is_plan_within(plan, start_from, finish_at),
    ensures
        all_within(plan_switches(plan, finish_at), start_from, finish_at),
        is_ascending(plan_switches(plan, finish_at)),
{
    lemma_holds_up_to(plan, start_from, finish_at, plan.len() as int);
}

/// The switches of an item of a plan within a window are at most two,
/// and they lie within the cell of the item.
pub proof fn lemma_item_switches_confined(
    plan: Seq<Selection>,
    start_from: int,
    finish_at: int,
    i: int,
)
    requires
        is_plan_within(plan, start_from, finish_at),
        0 <= i < plan.len(),
    ensures
        item_switches(plan, finish_at, i).len() <= 2,
        forall|k: int|
            0 <= k < item_switches(plan, finish_at, i).len() ==> plan[i].cell.starts_at <= (
            #[trigger] item_switches(plan, finish_at, i)[k]).at <= plan[i].cell.end(),
{
    assert(plan[i].cell.is_valid());
    assert(0 < plan[i].duration <= effective_duration(plan[i].cell, start_from, finish_at));
}

/// The plan is one stretch of whole cells: every item uses its whole
/// cell, and the cell of each ends where the cell of the next starts.
pub open spec fn is_single_stretch(plan: Seq<Selection>) -> bool {
    &&& plan.len() > 0
    &&& forall|i: int|
        0 <= i < plan.len() ==> (#[trigger] plan[i]).duration == plan[i].cell.duration
    &&& forall|i: int|
        0 < i < plan.len() ==> plan[i - 1].cell.end() == (#[trigger] plan[i]).cell.starts_at
}

/// Before the last item of a stretch of whole cells the device has been
/// switched on, at the start of the first cell, and not off.
proof fn lemma_stretch_stays_on(plan: Seq<Selection>, finish_at: int, count: int)
    requires
        is_single_stretch(plan),
        1 <= count < plan.len(),
    ensures
        switches_up_to(plan, finish_at, count) == seq![
            PlannedSwitch { at: plan[0].cell.starts_at as int, switch_on: true },
        ],
    decreases count,
{
    let switched_on = seq![PlannedSwitch { at: plan[0].cell.starts_at as int, switch_on: true }];
    assert(stays_on(plan, count - 1));
    assert(is_continued(plan, count));
    if count == 1 {
        assert(switches_up_to(plan, finish_at, 0) =~= Seq::<PlannedSwitch>::empty());
        assert(!is_continued(plan, 0));
        assert(item_switches(plan, finish_at, 0) =~= switched_on);
    } else {
        lemma_stretch_stays_on(plan, finish_at, count - 1);
        assert(stays_on(plan, count - 2));
        assert(is_continued(plan, count - 1));
        assert(item_switches(plan, finish_at, count - 1) =~= Seq::<PlannedSwitch>::empty());
    }
    assert(switches_up_to(plan, finish_at, count) =~= switched_on);
}

/// A plan that is one stretch of whole cells has the device switched on
/// once, at the start of its first cell, and off once, at the end of its last.
pub proof fn lemma_single_stretch_switches_once(plan: Seq<Selection>, finish_at: int)
    requires
        is_single_stretch(plan),
    ensures
        plan_switches(plan, finish_at) == seq![
            PlannedSwitch { at: plan[0].cell.starts_at as int, switch_on: true },
            PlannedSwitch { at: plan.last().cell.end(), switch_on: false },
        ],
{
    let last = plan.len() - 1;
    let switched = seq![
        PlannedSwitch { at: plan[0].cell.starts_at as int, switch_on: true },
        PlannedSwitch { at: plan.last().cell.end(), switch_on: false },
    ];
    assert(!is_continued(plan, plan.len() as int));
    assert(usage_end(plan, finish_at, last) == plan[last].cell.end());
    if last == 0 {
        assert(switches_up_to(plan, finish_at, 0) =~= Seq::<PlannedSwitch>::empty());
        assert(!is_continued(plan, 0));
    } else {
        lemma_stretch_stays_on(plan, finish_at, last);
        assert(stays_on(plan, last - 1));
        assert(is_continued(plan, last));
    }
    assert(switches_up_to(plan, finish_at, plan.len() as int) =~= switched);
}

/// The instants and directions of a list of switch actions, in order.
pub open spec fn timeline(actions: Seq<SwitchActionView>) -> Seq<PlannedSwitch> {
    actions.map_values(
        |action: SwitchActionView| PlannedSwitch { at: action.at as int, switch_on: action.switch_on },
    )
}

/// The switch actions are the planned switches, one for one, each waiting to be executed.
pub open spec fn carries(actions: Seq<SwitchAction>, planned: Seq<PlannedSwitch>) -> bool {
    &&& actions.len() == planned.len()
    &&& forall|j: int|
        0 <= j < actions.len() ==> (#[trigger] actions[j])@.is_planned(
            planned[j].at,
            planned[j].switch_on,
        )
}

/// Every item of the plan carries the switches that fall into its cell.
pub open spec fn carries_plan_switches(items: Seq<ConsumptionPlanItem>, finish_at: int) -> bool {
    forall|k: int|
        0 <= k < items.len() ==> carries(
            (#[trigger] items[k]).switch_actions@,
            item_switches(selections_of(items), finish_at, k),
        )
}

/// The switches that item `i` carries before the item after it has been looked at.
spec fn pending_switches(plan: Seq<Selection>, finish_at: int, i: int) -> Seq<PlannedSwitch> {
    leading_switch(plan, finish_at, i) + (if stays_on(plan, i) {
        Seq::empty()
    } else {
        seq![PlannedSwitch { at: usage_end(plan, finish_at, i), switch_on: false }]
    })
}

/// Where every item carries its switches, the switch actions of the first
/// `count` items, taken together, are the switches of those items.
proof fn lemma_timeline_up_to(items: Seq<ConsumptionPlanItem>, finish_at: int, count: int)
    requires
        carries_plan_switches(items, finish_at),
        0 <= count <= items.len(),
    ensures
        timeline(flat_actions(item_views(items).take(count))) == switches_up_to(
            selections_of(items),
            finish_at,
            count,
        ),
    decreases count,
{
    let views = item_views(items);
    let plan = selections_of(items);
    if count == 0 {
        assert(views.take(0) =~= Seq::empty());
        assert(timeline(flat_actions(views.take(0))) =~= Seq::empty());
    } else {
        let n = count - 1;
        lemma_timeline_up_to(items, finish_at, n);
        assert(views.take(count).drop_last() =~= views.take(n));
        assert(views.take(count).last() == items[n]@);
        assert(carries(items[n].switch_actions@, item_switches(plan, finish_at, n)));
        assert(timeline(items[n]@.switch_actions) =~= item_switches(plan, finish_at, n)) by {
            assert forall|j: int| 0 <= j < items[n].switch_actions@.len() implies timeline(
                items[n]@.switch_actions,
            )[j] == item_switches(plan, finish_at, n)[j] by {
                assert(items[n].switch_actions@[j]@.is_planned(
                    item_switches(plan, finish_at, n)[j].at,
                    item_switches(plan, finish_at, n)[j].switch_on,
                ));
            }
        }
        assert(timeline(flat_actions(views.take(n)) + items[n]@.switch_actions) =~= timeline(
            flat_actions(views.take(n)),
        ) + timeline(items[n]@.switch_actions));
    }
}

/// Where every item of a plan carries its switches, the switch actions of
/// the plan, taken together, are the switches of the plan.
pub proof fn lemma_plan_timeline(items: Seq<ConsumptionPlanItem>, finish_at: int)
    requires
        carries_plan_switches(items, finish_at),
    ensures
        timeline(flat_actions(item_views(items))) == plan_switches(selections_of(items), finish_at),
{
    lemma_timeline_up_to(items, finish_at, items.len() as int);
    assert(item_views(items).take(items.len() as int) =~= item_views(items));
}

/// What the item before item `i` carries once item `i` has been looked at:
/// a device left on is switched off at the end of the cell if item `i` does
/// not go on from there.
proof fn lemma_close_previous(plan: Seq<Selection>, start_from: int, finish_at: int, i: int)
    requires
        is_plan_within(plan, start_from, finish_at),
        0 < i < plan.len(),
    ensures
        plan[i - 1].cell.end() <= plan[i].cell.starts_at,
        stays_on(plan, i - 1) && plan[i - 1].cell.end() < plan[i].cell.starts_at ==> {
            &&& !is_continued(plan, i)
            &&& pending_switches(plan, finish_at, i - 1).push(
                PlannedSwitch { at: plan[i - 1].cell.end(), switch_on: false },
            ) == item_switches(plan, finish_at, i - 1)
        },
        !(stays_on(plan, i - 1) && plan[i - 1].cell.end() < plan[i].cell.starts_at) ==> {
            &&& is_continued(plan, i) == stays_on(plan, i - 1)
            &&& pending_switches(plan, finish_at, i - 1) == item_switches(plan, finish_at, i - 1)
        },
{
    assert(plan[i - 1].cell.is_valid());
    assert(0 < plan[i - 1].duration <= effective_duration(plan[i - 1].cell, start_from, finish_at));
    assert(plan[i].cell.is_valid());
    assert(0 < plan[i].duration <= effective_duration(plan[i].cell, start_from, finish_at));
    assert(plan[i - 1].cell.end() <= plan[i].cell.starts_at);
    if stays_on(plan, i - 1) && plan[i - 1].cell.end() < plan[i].cell.starts_at {
        assert(pending_switches(plan, finish_at, i - 1).push(
            PlannedSwitch { at: plan[i - 1].cell.end(), switch_on: false },
        ) =~= item_switches(plan, finish_at, i - 1));
    } else {
        assert(pending_switches(plan, finish_at, i - 1) =~= item_switches(plan, finish_at, i - 1));
    }
}

/// What item `i` carries before the item after it has been looked at, by
/// the way it uses its cell and by whether the device comes to it switched on.
proof fn lemma_open_item(plan: Seq<Selection>, start_from: int, finish_at: int, i: int)
    requires
        is_plan_within(plan, start_from, finish_at),
        0 <= i < plan.len(),
    ensures
        plan[i].cell.is_valid(),
        0 < plan[i].duration <= plan[i].cell.duration,
        plan[i].duration <= effective_duration(plan[i].cell, start_from, finish_at),
        is_partial(plan[i]) && is_continued(plan, i) ==> {
            &&& !stays_on(plan, i)
            &&& pending_switches(plan, finish_at, i) == seq![
                PlannedSwitch { at: plan[i].cell.starts_at + plan[i].duration, switch_on: false },
            ]
        },
        is_partial(plan[i]) && !is_continued(plan, i) ==> {
            &&& stays_on(plan, i)
            &&& pending_switches(plan, finish_at, i) == seq![
                PlannedSwitch {
                    at: (if finish_at < plan[i].cell.end() {
                        finish_at
                    } else {
                        plan[i].cell.end()
                    }) - plan[i].duration,
                    switch_on: true,
                },
            ]
        },
        !is_partial(plan[i]) && !is_continued(plan, i) ==> {
            &&& stays_on(plan, i)
            &&& pending_switches(plan, finish_at, i) == seq![
                PlannedSwitch { at: plan[i].cell.starts_at as int, switch_on: true },
            ]
        },
        !is_partial(plan[i]) && is_continued(plan, i) ==> {
            &&& stays_on(plan, i)
            &&& pending_switches(plan, finish_at, i) == Seq::<PlannedSwitch>::empty()
        },
{
    assert(plan[i].cell.is_valid());
    assert(0 < plan[i].duration <= effective_duration(plan[i].cell, start_from, finish_at));
    let pending = pending_switches(plan, finish_at, i);
    if is_partial(plan[i]) && is_continued(plan, i) {
        assert(pending =~= seq![
            PlannedSwitch { at: plan[i].cell.starts_at + plan[i].duration, switch_on: false },
        ]);
    } else if is_partial(plan[i]) {
        assert(pending =~= seq![
            PlannedSwitch {
                at: (if finish_at < plan[i].cell.end() {
                    finish_at
                } else {
                    plan[i].cell.end()
                }) - plan[i].duration,
                switch_on: true,
            },
        ]);
    } else if !is_continued(plan, i) {
        assert(pending =~= seq![PlannedSwitch { at: plan[i].cell.starts_at as int, switch_on: true }]);
    } else {
        assert(pending =~= Seq::<PlannedSwitch>::empty());
    }
}

/// What the last item carries in the end: a device left on is switched
/// off where the use of the item ends.
proof fn lemma_close_last(plan: Seq<Selection>, start_from: int, finish_at: int)
    requires
        is_plan_within(plan, start_from, finish_at),
        plan.len() > 0,
    ensures
        stays_on(plan, plan.len() - 1) ==> pending_switches(plan, finish_at, plan.len() - 1).push(
            PlannedSwitch { at: usage_end(plan, finish_at, plan.len() - 1), switch_on: false },
        ) == item_switches(plan, finish_at, plan.len() - 1),
        !stays_on(plan, plan.len() - 1) ==> pending_switches(plan, finish_at, plan.len() - 1)
            == item_switches(plan, finish_at, plan.len() - 1),
        stays_on(plan, plan.len() - 1) == (pending_switches(plan, finish_at, plan.len() - 1).len()
            == 0 || pending_switches(plan, finish_at, plan.len() - 1).last().switch_on),
        usage_start(plan, finish_at, plan.len() - 1) == if pending_switches(
            plan,
            finish_at,
            plan.len() - 1,
        ).len() > 0 && stays_on(plan, plan.len() - 1) {
            pending_switches(plan, finish_at, plan.len() - 1)[0].at
        } else {
            plan[plan.len() - 1].cell.starts_at as int
        },
{
    let last = plan.len() - 1;
    lemma_open_item(plan, start_from, finish_at, last);
    if stays_on(plan, last) {
        assert(pending_switches(plan, finish_at, last).push(
            PlannedSwitch { at: usage_end(plan, finish_at, last), switch_on: false },
        ) =~= item_switches(plan, finish_at, last));
    } else {
        assert(pending_switches(plan, finish_at, last) =~= item_switches(plan, finish_at, last));
    }
}

/// The actions still carry the planned switches when one more of each is added.
proof fn lemma_carries_push(
    actions: Seq<SwitchAction>,
    planned: Seq<PlannedSwitch>,
    action: SwitchAction,
    switch: PlannedSwitch,
)
    requires
        carries(actions, planned),
        action@.is_planned(switch.at, switch.switch_on),
    ensures
        carries(actions.push(action), planned.push(switch)),
{
}

/// Changing the switch actions of an item leaves the cells and durations of the plan as they are.
proof fn lemma_selections_kept(
    before: Seq<ConsumptionPlanItem>,
    after: Seq<ConsumptionPlanItem>,
)
    requires
        before.len() == after.len(),
        forall|k: int|
            0 <= k < before.len() ==> (#[trigger] after[k]).price_list_item
                == before[k].price_list_item && after[k].duration == before[k].duration,
    ensures
        selections_of(after) == selections_of(before),
{
    assert(selections_of(after) =~= selections_of(before));
}

/// Adds a switch action to the item at `index`.
fn push_switch_action(items: &mut Vec<ConsumptionPlanItem>, index: usize, action: SwitchAction)
    requires
        index < old(items).len(),
    ensures
        final(items).len() == old(items).len(),
        final(items)[index as int].switch_actions@ == old(items)[index as int].switch_actions@.push(
            action,
        ),
        forall|k: int|
            0 <= k < old(items).len() ==> (#[trigger] final(items)[k]).price_list_item == old(
                items,
            )[k].price_list_item && final(items)[k].duration == old(items)[k].duration,
        forall|k: int|
            0 <= k < old(items).len() && k != index ==> #[trigger] final(items)[k] == old(items)[k],
{
    items[index].switch_actions.push(action);
}

/// Gives every item of a plan the switch actions that fall into its cell.
///
/// The items come in order of time. A device that an item leaves on and
/// that the next item does not take over at once is switched off at the end
/// of the cell. An item that uses part of its cell switches the device off
/// after that part if the device was on, and otherwise switches it on late
/// enough to end with the cell, or with `finish_at` if that comes first. An
/// item that uses its whole cell switches the device on at the start of the
/// cell unless it is on already. After the last item the device is switched
/// off.
#[verifier::rlimit(40)]
pub fn create_switch_actions(
    consumption_plan_items: &mut Vec<ConsumptionPlanItem>,
    start_from: i64,
    finish_at: i64,
)
    requires
        is_plan_within(selections_of(old(consumption_plan_items)@), start_from as int, finish_at as int),
        forall|k: int|
            0 <= k < old(consumption_plan_items).len() ==> (#[trigger] old(
                consumption_plan_items,
            )[k]).switch_actions@.len() == 0,
    ensures
        selections_of(final(consumption_plan_items)@) == selections_of(old(consumption_plan_items)@),
        carries_plan_switches(final(consumption_plan_items)@, finish_at as int),
        timeline(flat_actions(item_views(final(consumption_plan_items)@))) == plan_switches(
            selections_of(old(consumption_plan_items)@),
            finish_at as int,
        ),
        alternates(timeline(flat_actions(item_views(final(consumption_plan_items)@)))),
        on_time(timeline(flat_actions(item_views(final(consumption_plan_items)@))))
            == total_duration(selections_of(old(consumption_plan_items)@)),
        all_within(
            timeline(flat_actions(item_views(final(consumption_plan_items)@))),
            start_from as int,
            finish_at as int,
        ),
        is_ascending(timeline(flat_actions(item_views(final(consumption_plan_items)@)))),
{
    let ghost plan = selections_of(consumption_plan_items@);
    let n = consumption_plan_items.len();
    let mut prev_item_is_adjacent = false;
    let mut i: usize = 0;
    while i < n
        invariant
            i <= n,
            consumption_plan_items@.len() == n,
            plan.len() == n,
            selections_of(consumption_plan_items@) == plan,
            is_plan_within(plan, start_from as int, finish_at as int),
            prev_item_is_adjacent == stays_on(plan, i - 1),
            forall|k: int|
                0 <= k < i - 1 ==> carries(
                    (#[trigger] consumption_plan_items@[k]).switch_actions@,
                    item_switches(plan, finish_at as int, k),
                ),
            i > 0 ==> carries(
                consumption_plan_items@[i - 1].switch_actions@,
                pending_switches(plan, finish_at as int, i - 1),
            ),
            forall|k: int|
                i <= k < n ==> (#[trigger] consumption_plan_items@[k]).switch_actions@.len() == 0,
        decreases n - i,
    {
        let price_list_item = consumption_plan_items[i].price_list_item;
        let duration = consumption_plan_items[i].duration;
        proof {
            assert(plan[i as int] == selection_of(consumption_plan_items@[i as int]));
            lemma_open_item(plan, start_from as int, finish_at as int, i as int);
            if i > 0 {
                assert(plan[i - 1] == selection_of(consumption_plan_items@[i - 1]));
                lemma_open_item(plan, start_from as int, finish_at as int, i - 1);
                lemma_close_previous(plan, start_from as int, finish_at as int, i as int);
            }
        }
        if i > 0 && prev_item_is_adjacent {
            let prev_price_list_item = consumption_plan_items[i - 1].price_list_item;
            if prev_price_list_item.ends_at() < price_list_item.starts_at {
                prev_item_is_adjacent = false;
                let at = prev_price_list_item.ends_at();
                let ghost before = consumption_plan_items@;
                let action = SwitchAction::new(at, false);
                push_switch_action(consumption_plan_items, i - 1, action);
                proof {
                    lemma_selections_kept(before, consumption_plan_items@);
                    lemma_carries_push(
                        before[i - 1].switch_actions@,
                        pending_switches(plan, finish_at as int, i - 1),
                        action,
                        PlannedSwitch { at: at as int, switch_on: false },
                    );
                }
            }
        }
        assert(prev_item_is_adjacent == is_continued(plan, i as int));
        assert(i > 0 ==> carries(
            consumption_plan_items@[i - 1].switch_actions@,
            item_switches(plan, finish_at as int, i - 1),
        ));
        let ghost before = consumption_plan_items@;
        assert(carries(before[i as int].switch_actions@, Seq::<PlannedSwitch>::empty()));
        if duration < price_list_item.duration {
            if prev_item_is_adjacent {
                let at = price_list_item.starts_at + duration;
                let action = SwitchAction::new(at, false);
                push_switch_action(consumption_plan_items, i, action);
                prev_item_is_adjacent = false;
                proof {
                    lemma_carries_push(
                        before[i as int].switch_actions@,
                        Seq::<PlannedSwitch>::empty(),
                        action,
                        PlannedSwitch { at: at as int, switch_on: false },
                    );
                    assert(Seq::<PlannedSwitch>::empty().push(
                        PlannedSwitch { at: at as int, switch_on: false },
                    ) =~= pending_switches(plan, finish_at as int, i as int));
                }
            } else {
                let price_list_item_end = price_list_item.ends_at();
                let forced_price_list_item_end = if finish_at < price_list_item_end {
                    finish_at
                } else {
                    price_list_item_end
                };
                let at = forced_price_list_item_end - duration;
                let action = SwitchAction::new(at, true);
                push_switch_action(consumption_plan_items, i, action);
                prev_item_is_adjacent = true;
                proof {
                    lemma_carries_push(
                        before[i as int].switch_actions@,
                        Seq::<PlannedSwitch>::empty(),
                        action,
                        PlannedSwitch { at: at as int, switch_on: true },
                    );
                    assert(Seq::<PlannedSwitch>::empty().push(
                        PlannedSwitch { at: at as int, switch_on: true },
                    ) =~= pending_switches(plan, finish_at as int, i as int));
                }
            }
        } else if !prev_item_is_adjacent {
            let at = price_list_item.starts_at;
            let action = SwitchAction::new(at, true);
            push_switch_action(consumption_plan_items, i, action);
            prev_item_is_adjacent = true;
            proof {
                lemma_carries_push(
                    before[i as int].switch_actions@,
                    Seq::<PlannedSwitch>::empty(),
                    action,
                    PlannedSwitch { at: at as int, switch_on: true },
                );
                assert(Seq::<PlannedSwitch>::empty().push(
                    PlannedSwitch { at: at as int, switch_on: true },
                ) =~= pending_switches(plan, finish_at as int, i as int));
            }
        }
        proof {
            lemma_selections_kept(before, consumption_plan_items@);
            assert forall|k: int| 0 <= k < i implies carries(
                (#[trigger] consumption_plan_items@[k]).switch_actions@,
                item_switches(plan, finish_at as int, k),
            ) by {
                assert(consumption_plan_items@[k] == before[k]);
            }
        }
        i += 1;
    }
    if n > 0 {
        let last = n - 1;
        let count = consumption_plan_items[last].switch_actions.len();
        let needs_switch_off = count == 0 || consumption_plan_items[last].switch_actions[count
            - 1].switch_on;
        proof {
            assert(plan[last as int] == selection_of(consumption_plan_items@[last as int]));
            lemma_open_item(plan, start_from as int, finish_at as int, last as int);
            lemma_close_last(plan, start_from as int, finish_at as int);
        }
        if needs_switch_off {
            let mut item_start_from = consumption_plan_items[last].price_list_item.starts_at;
            if count > 0 {
                item_start_from = consumption_plan_items[last].switch_actions[0].at;
            }
            let at = item_start_from + consumption_plan_items[last].duration;
            let ghost before = consumption_plan_items@;
            let action = SwitchAction::new(at, false);
            push_switch_action(consumption_plan_items, last, action);
            proof {
                lemma_selections_kept(before, consumption_plan_items@);
                lemma_carries_push(
                    before[last as int].switch_actions@,
                    pending_switches(plan, finish_at as int, last as int),
                    action,
                    PlannedSwitch { at: at as int, switch_on: false },
                );
                assert forall|k: int| 0 <= k < last implies carries(
                    (#[trigger] consumption_plan_items@[k]).switch_actions@,
                    item_switches(plan, finish_at as int, k),
                ) by {
                    assert(consumption_plan_items@[k] == before[k]);
                }
            }
        }
    }
    proof {
        assert(carries_plan_switches(consumption_plan_items@, finish_at as int));
        lemma_plan_timeline(consumption_plan_items@, finish_at as int);
        lemma_switches_alternate(plan, start_from as int, finish_at as int);
        lemma_switches_on_time(plan, start_from as int, finish_at as int);
        lemma_switches_within_window(plan, start_from as int, finish_at as int);
    }
}

} // verus!
