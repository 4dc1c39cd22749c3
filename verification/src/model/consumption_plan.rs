use vstd::prelude::*;

use super::identifier::fresh_id;
use super::price_list::PriceListItem;

verus! {

#[derive(Clone, Copy, Debug, PartialEq, Eq, Structural)]
pub enum SwitchActionState {
    Scheduled,
    Executed,
    Canceled,
}

/// One planned switch of the device, on or off, at a given instant.
#[derive(Debug)]
pub struct SwitchAction {
    pub id: u128,
    pub at: i64,
    pub switch_on: bool,
    pub state: SwitchActionState,
    pub executed_at: Option<i64>,
    pub result: Option<String>,
}

/// What a [`SwitchAction`] says, with its result as plain text.
pub struct SwitchActionView {
    pub id: u128,
    pub at: i64,
    pub switch_on: bool,
    pub state: SwitchActionState,
    pub executed_at: Option<i64>,
    pub result: Option<Seq<char>>,
}

impl View for SwitchAction {
    type V = SwitchActionView;

    open spec fn view(&self) -> SwitchActionView {
        SwitchActionView {
            id: self.id,
            at: self.at,
            switch_on: self.switch_on,
            state: self.state,
            executed_at: self.executed_at,
            result: match self.result {
                Some(text) => Some(text@),
                None => None,
            },
        }
    }
}

impl SwitchActionView {
    /// A switch as the planner creates it: at `at`, to `switch_on`, waiting to be executed.
    pub open spec fn is_planned(self, at: int, switch_on: bool) -> bool {
        &&& self.at == at
        &&& self.switch_on == switch_on
        &&& self.state == SwitchActionState::Scheduled
        &&& self.executed_at is None
        &&& self.result is None
    }
}

impl SwitchAction {
    /// A new scheduled switch with an identifier of its own.
    pub fn new(at: i64, switch_on: bool) -> (action: Self)
        ensures
            action@.is_planned(at as int, switch_on),
    {
        Self {
            id: fresh_id(),
            at,
            switch_on,
            state: SwitchActionState::Scheduled,
            executed_at: None,
            result: None,
        }
    }

    pub fn id(&self) -> (id: u128)
        ensures
            id == self.id,
    {
        self.id
    }

    pub fn at(&self) -> (at: i64)
        ensures
            at == self.at,
    {
        self.at
    }

    pub fn switch_on(&self) -> (switch_on: bool)
        ensures
            switch_on == self.switch_on,
    {
        self.switch_on
    }

    pub fn state(&self) -> (state: &SwitchActionState)
        ensures
            *state == self.state,
    {
        &self.state
    }

    pub fn set_result(&mut self, result: Option<String>)
        ensures
            final(self)@ == (SwitchActionView {
                result: match result {
                    Some(text) => Some(text@),
                    None => None,
                },
                ..old(self)@
            }),
    {
        self.result = result;
    }

    pub fn set_executed_at(&mut self, executed_at: Option<i64>)
        ensures
            final(self)@ == (SwitchActionView { executed_at, ..old(self)@ }),
    {
        self.executed_at = executed_at;
    }

    pub fn set_state(&mut self, state: SwitchActionState)
        ensures
            final(self)@ == (SwitchActionView { state, ..old(self)@ }),
    {
        self.state = state;
    }

    pub fn set_at(&mut self, at: i64)
        ensures
            final(self)@ == (SwitchActionView { at, ..old(self)@ }),
    {
        self.at = at;
    }
}

/// The views of a list of switch actions, in order.
pub open spec fn action_views(actions: Seq<SwitchAction>) -> Seq<SwitchActionView> {
    actions.map_values(|action: SwitchAction| action@)
}

/// The part of one price-list cell that a plan consumes.
///
/// The duration is never longer than the cell's. An item carries the switch
/// actions that fall into its cell: none, one or two.
#[derive(Debug)]
pub struct ConsumptionPlanItem {
    pub price_list_item: PriceListItem,
    pub duration: i64,
    pub switch_actions: Vec<SwitchAction>,
}

pub struct ConsumptionPlanItemView {
    pub price_list_item: PriceListItem,
    pub duration: i64,
    pub switch_actions: Seq<SwitchActionView>,
}

impl View for ConsumptionPlanItem {
    type V = ConsumptionPlanItemView;

    open spec fn view(&self) -> ConsumptionPlanItemView {
        ConsumptionPlanItemView {
            price_list_item: self.price_list_item,
            duration: self.duration,
            switch_actions: action_views(self.switch_actions@),
        }
    }
}

impl ConsumptionPlanItem {
    pub fn new(price_list_item: PriceListItem, duration: i64) -> (item: Self)
        ensures
            item.price_list_item == price_list_item,
            item.duration == duration,
            item.switch_actions@ == Seq::<SwitchAction>::empty(),
    {
        Self { price_list_item, duration, switch_actions: Vec::new() }
    }

    pub fn price_list_item(&self) -> (cell: &PriceListItem)
        ensures
            *cell == self.price_list_item,
    {
        &self.price_list_item
    }

    pub fn duration(&self) -> (duration: i64)
        ensures
            duration == self.duration,
    {
        self.duration
    }

    pub fn switch_actions_mut(&mut self) -> (actions: &mut Vec<SwitchAction>)
        ensures
            *actions == old(self).switch_actions,
            *final(self) == (ConsumptionPlanItem {
                switch_actions: *final(actions),
                ..*old(self)
            }),
    {
        &mut self.switch_actions
    }

    pub fn switch_actions(&self) -> (actions: &[SwitchAction])
        ensures
            actions@ == self.switch_actions@,
    {
        self.switch_actions.as_slice()
    }
}

/// The views of a list of plan items, in order.
pub open spec fn item_views(items: Seq<ConsumptionPlanItem>) -> Seq<ConsumptionPlanItemView> {
    items.map_values(|item: ConsumptionPlanItem| item@)
}

#[derive(Clone, Copy, Debug, PartialEq, Eq, Structural)]
pub enum ConsumptionPlanState {
    Processing,
    Executed,
    Canceled,
}

/// The scheduled consumption of one device.
///
/// The durations of the items add up to `consumption_duration`.
#[derive(Debug)]
pub struct ConsumptionPlan {
    pub id: u128,
    pub created_at: i64,
    pub consumption_duration: i64,
    pub finish_at: i64,
    pub consumption_plan_items: Vec<ConsumptionPlanItem>,
    pub state: ConsumptionPlanState,
}

pub struct ConsumptionPlanView {
    pub id: u128,
    pub created_at: i64,
    pub consumption_duration: i64,
    pub finish_at: i64,
    pub consumption_plan_items: Seq<ConsumptionPlanItemView>,
    pub state: ConsumptionPlanState,
}

impl View for ConsumptionPlan {
    type V = ConsumptionPlanView;

    open spec fn view(&self) -> ConsumptionPlanView {
        ConsumptionPlanView {
            id: self.id,
            created_at: self.created_at,
            consumption_duration: self.consumption_duration,
            finish_at: self.finish_at,
            consumption_plan_items: item_views(self.consumption_plan_items@),
            state: self.state,
        }
    }
}

/// All switch actions of a list of plan items, item by item, in order.
pub open spec fn flat_actions(items: Seq<ConsumptionPlanItemView>) -> Seq<SwitchActionView>
    decreases items.len(),
{
    if items.len() == 0 {
        Seq::empty()
    } else {
        flat_actions(items.drop_last()) + items.last().switch_actions
    }
}

impl ConsumptionPlanView {
    /// All switch actions of the plan in the order of its items.
    pub open spec fn actions(self) -> Seq<SwitchActionView> {
        flat_actions(self.consumption_plan_items)
    }
}

/// A device as it is shown to a client: what to call it, what to propose
/// for a new plan, and its current plan if it has one.
#[derive(Debug)]
pub struct PowerConsumerModel<'a> {
    pub id: String,
    pub name: String,
    pub default_finish_at: Option<i64>,
    pub default_consumption_duration: i64,
    pub charging_status_url: Option<String>,
    pub consumption_plan: Option<&'a ConsumptionPlan>,
}

impl<'a> PowerConsumerModel<'a> {
    pub fn new(
        id: String,
        name: String,
        default_finish_at: i64,
        default_consumption_duration: i64,
        consumption_plan: Option<&'a ConsumptionPlan>,
    ) -> (model: Self)
        ensures
            model.id == id,
            model.name == name,
            model.default_finish_at == Some(default_finish_at),
            model.default_consumption_duration == default_consumption_duration,
            model.charging_status_url is None,
            model.consumption_plan == consumption_plan,
    {
        Self {
            id,
            name,
            default_consumption_duration,
            default_finish_at: Some(default_finish_at),
            charging_status_url: None,
            consumption_plan,
        }
    }
}

} // verus!
