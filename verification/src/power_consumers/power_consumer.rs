use std::sync::Arc;
use vstd::prelude::*;
use vstd::string::StringExecFns;

use crate::calendar::{
    current_instant, format_local, format_utc, local_hour, local_time_on_day_of, utc_text,
};
use crate::model::consumption_plan::{
    ConsumptionPlan, ConsumptionPlanItem, ConsumptionPlanState, ConsumptionPlanView,
    PowerConsumerModel,
};
use crate::model::errors::AppError;
use crate::model::identifier::fresh_id;
use crate::model::price_list::PriceListItem;
use crate::model::text::{decimal_digits, to_decimal};
use crate::model::time::{is_instant, is_valid_instant, MILLIS_PER_DAY, MILLIS_PER_MINUTE};
use crate::power_consumers::home_assistant_service::HomeAssistantService;
use crate::power_consumers::plan_invariant::lemma_plan_within_is_well_formed;
use crate::power_consumers::plan_state::{
    cancel_plan, canceled_plan, forced_switch_offs, has_started, with_actions_changed,
};
use crate::power_consumers::selection::{
    available_duration, is_assembled_price_list, is_plan_within, plan_from_price_list,
    selected_plan, selections_of, total_duration, uncovered_period_message,
};
use crate::power_consumers::selection_laws::{
    lemma_selected_plan_covers_duration, lemma_selected_plan_within_window,
};
use crate::power_consumers::switch_actions_scheduler::{
    rescheduling, stepping, SwitchActionsScheduler, SwitchStep,
};
use crate::power_consumers::switching::{
    all_within, alternates, carries_plan_switches, create_switch_actions, is_ascending, on_time,
    timeline,
};
use crate::price_list_providers::commons::SingleDayPriceList;
use crate::price_list_providers::time_period_price_list_service::{
    is_failure_of_period, is_price_list_of_period, TimePeriodPriceListService,
};

verus! {

/// The duration proposed for a new plan: ninety minutes.
pub const DEFAULT_CONSUMPTION_DURATION: i64 = 5_400_000;

/// Before this hour of the local day a plan is proposed to finish soon;
/// from this hour on, the next morning.
pub const LATEST_HOUR_TO_FINISH_SOON: u32 = 16;

/// How far ahead a plan is proposed to finish soon: two hours.
pub const TIME_TO_FINISH_SOON: i64 = 7_200_000;

/// The hour of the next morning at which a plan is proposed to finish.
pub const MORNING_HOUR: u32 = 7;

/// A request to the gateway to switch a device on or off.
#[derive(Debug)]
pub struct SwitchCommand {
    pub entity_id: String,
    pub switch_on: bool,
}

/// A power consumer is a device behind a switch. It prepares its
/// consumption plan, cancels it, and keeps it up to date while the planned
/// switches are carried out.
pub struct PowerConsumer<Source: SingleDayPriceList> {
    pub ha_device_name: String,
    pub name: String,
    pub time_period_price_list_service: Arc<TimePeriodPriceListService<Source>>,
    pub home_assistant_service: Arc<HomeAssistantService>,
    pub consumption_plan: Option<ConsumptionPlan>,
}

/// The instant at which a plan is proposed to finish, given the instant
/// `now`, the hour that the local clock shows then, and the instant at
/// which it shows [`MORNING_HOUR`] on the next day: two hours from `now`
/// while the local day is young, and otherwise the next morning. None is
/// proposed where `now` lies outside the supported range, where the hour is
/// not known, or where the next morning is asked for and not known.
pub open spec fn default_finish(
    now: i64,
    local_hour: Option<u32>,
    next_morning: Option<i64>,
) -> Option<i64> {
    if !is_instant(now as int) {
        None
    } else {
        match local_hour {
            Some(hour) => if hour < LATEST_HOUR_TO_FINISH_SOON {
                Some((now + TIME_TO_FINISH_SOON) as i64)
            } else {
                next_morning
            },
            None => None,
        }
    }
}

/// The instant at which a plan is proposed to finish; see [`default_finish`].
///
/// `local_hour` is the hour that the local clock shows at `now`, and
/// `next_morning` the instant at which it shows [`MORNING_HOUR`] on the
/// next day, as far as the clock and the calendar gave them.
pub fn default_charging_finish_time(
    now: i64,
    local_hour: Option<u32>,
    next_morning: Option<i64>,
) -> (finish_at: Option<i64>)
    ensures
        finish_at == default_finish(now, local_hour, next_morning),
{
    if !is_valid_instant(now) {
        return None;
    }
    match local_hour {
        Some(hour) => {
            if hour < LATEST_HOUR_TO_FINISH_SOON {
                Some(now + TIME_TO_FINISH_SOON)
            } else {
                next_morning
            }
        },
        None => None,
    }
}

/// What the calendar is asked for the next morning, as of `now`: the
/// instant one day after `now`, whose local day is meant, and
/// [`MORNING_HOUR`]. Nothing is asked where `now` or the instant one day
/// later lies outside the supported range.
pub open spec fn next_morning_asked(now: i64) -> Option<(i64, u32)> {
    if is_instant(now as int) && is_instant(now + MILLIS_PER_DAY) {
        Some(((now + MILLIS_PER_DAY) as i64, MORNING_HOUR))
    } else {
        None
    }
}

/// What the calendar is asked for the next morning, as of `now`; see
/// [`next_morning_asked`].
pub fn next_morning_request(now: i64) -> (asked: Option<(i64, u32)>)
    ensures
        asked == next_morning_asked(now),
{
    if is_valid_instant(now) && is_valid_instant(now + MILLIS_PER_DAY) {
        Some((now + MILLIS_PER_DAY, MORNING_HOUR))
    } else {
        None
    }
}

/// The pattern under which the time of a cancellation is shown: hours,
/// minutes and seconds of the local day.
pub open spec fn time_of_day_pattern() -> Seq<char> {
    "%H:%M:%S"@
}

/// The pattern under which the time of a cancellation is shown; see
/// [`time_of_day_pattern`].
pub fn time_of_day_format() -> (pattern: &'static str)
    ensures
        pattern@ == time_of_day_pattern(),
{
    "%H:%M:%S"
}

/// The pattern under which the requested finish time is shown to the user.
pub open spec fn finish_time_pattern() -> Seq<char> {
    "%Y %m %d %H:%M:%S"@
}

/// The requested finish time as it is shown to the user; nothing where it
/// lies outside the supported range or cannot be written.
pub open spec fn finish_time_text(finish_at: i64) -> Seq<char> {
    if is_instant(finish_at as int) {
        match utc_text(finish_at, finish_time_pattern()) {
            Some(text) => text,
            None => Seq::empty(),
        }
    } else {
        Seq::empty()
    }
}

/// What is said to a request to finish in the past.
pub open spec fn finish_in_the_past_message(finish_at: i64) -> Seq<char> {
    "Finish at should be in the future! Requested finish time: "@ + finish_time_text(finish_at)
}

/// What is said to a request that leaves too little time: it names the
/// requested duration in whole minutes.
pub open spec fn finish_too_early_message(consumption_duration: i64) -> Seq<char> {
    "Finish at is too early to execute required consumption duration time "@ + decimal_digits(
        (consumption_duration / MILLIS_PER_MINUTE) as nat,
    ) + " minutes!"@
}

/// A plan as it is created for a request: in process, with the requested
/// values; its items lie within the window, in strictly ascending order of
/// time, and their durations add up to the requested duration; its switch
/// actions take turns, beginning with on and ending with off; they lie
/// within the window, each later than the one before, and have the device
/// on for the requested duration.
pub open spec fn is_new_plan(
    plan: ConsumptionPlan,
    consumption_duration: i64,
    start_from: i64,
    finish_at: i64,
) -> bool {
    let selected = selections_of(plan.consumption_plan_items@);
    let switches = timeline(plan@.actions());
    &&& plan.created_at == start_from
    &&& plan.consumption_duration == consumption_duration
    &&& plan.finish_at == finish_at
    &&& plan.state == ConsumptionPlanState::Processing
    &&& plan@.is_well_formed()
    &&& is_instant(start_from as int)
    &&& is_instant(finish_at as int)
    &&& is_plan_within(selected, start_from as int, finish_at as int)
    &&& forall|i: int, j: int|
        0 <= i < j < selected.len() ==> (#[trigger] selected[i]).cell.starts_at < (
        #[trigger] selected[j]).cell.starts_at
    &&& total_duration(selected) == consumption_duration
    &&& carries_plan_switches(plan.consumption_plan_items@, finish_at as int)
    &&& alternates(switches)
    &&& on_time(switches) == consumption_duration
    &&& all_within(switches, start_from as int, finish_at as int)
    &&& is_ascending(switches)
}

/// The items are the plan selected from a price list of the period that
/// the source of the service answered: a price curve assembled for the
/// window that offers the requested duration.
pub open spec fn is_selected_from<Source: SingleDayPriceList>(
    service: TimePeriodPriceListService<Source>,
    items: Seq<ConsumptionPlanItem>,
    consumption_duration: i64,
    start_from: i64,
    finish_at: i64,
) -> bool {
    exists|price_list: Seq<PriceListItem>|
        {
            &&& is_price_list_of_period(
                *service.single_day_price_list,
                price_list,
                start_from,
                finish_at,
            )
            &&& is_assembled_price_list(price_list, start_from as int, finish_at as int)
            &&& consumption_duration <= available_duration(
                price_list,
                start_from as int,
                finish_at as int,
            )
            &&& selections_of(items) == #[trigger] selected_plan(
                price_list,
                consumption_duration as int,
                start_from as int,
                finish_at as int,
            )
        }
}

/// Why no plan could be selected: the price list of the period failed, or
/// it cannot carry the plan.
pub open spec fn is_failure_to_select<Source: SingleDayPriceList>(
    service: TimePeriodPriceListService<Source>,
    error: AppError,
) -> bool {
    ||| is_failure_of_period(*service.single_day_price_list, error)
    ||| error.is_system_error(uncovered_period_message())
}

/// The device `after` is the device `before` with a plan scheduled at
/// `start_from`: the request was in order; a new plan was created, and every
/// switch action of it that was due at `start_from` was moved there; `steps`
/// says, action by action, what is to be done.
pub open spec fn is_scheduled<Source: SingleDayPriceList>(
    before: PowerConsumer<Source>,
    after: PowerConsumer<Source>,
    steps: Seq<SwitchStep>,
    consumption_duration: i64,
    start_from: i64,
    finish_at: i64,
) -> bool {
    &&& !before.is_processing()
    &&& consumption_duration > 0
    &&& start_from <= finish_at - consumption_duration
    &&& exists|created: ConsumptionPlan|
        {
            &&& #[trigger] is_new_plan(created, consumption_duration, start_from, finish_at)
            &&& is_selected_from(
                *before.time_period_price_list_service,
                created.consumption_plan_items@,
                consumption_duration,
                start_from,
                finish_at,
            )
            &&& steps == created@.actions().map_values(stepping(start_from))
            &&& after.consumption_plan matches Some(plan) && plan@ == (ConsumptionPlanView {
                consumption_plan_items: with_actions_changed(
                    created@.consumption_plan_items,
                    rescheduling(start_from),
                ),
                ..created@
            })
        }
    &&& after.has_well_formed_plan()
}

/// What is said to a request that is refused before a plan is made, in the
/// order in which requests are refused; a request in order is not refused.
pub open spec fn is_refusal<Source: SingleDayPriceList>(
    consumer: PowerConsumer<Source>,
    error: AppError,
    consumption_duration: i64,
    finish_at: i64,
    now: i64,
) -> bool {
    if consumer.is_processing() {
        error.is_user_error("Current plan needs to be canceled!"@)
    } else if consumption_duration <= 0 {
        error.is_user_error("Consumption duration should be grater than zero!"@)
    } else if finish_at <= now {
        error.is_user_error(finish_in_the_past_message(finish_at))
    } else {
        &&& now > finish_at - consumption_duration
        &&& error.is_user_error(finish_too_early_message(consumption_duration))
    }
}

/// The request is in order: no plan is in process, the duration is positive,
/// and enough time is left until the finish.
pub open spec fn is_request_in_order<Source: SingleDayPriceList>(
    consumer: PowerConsumer<Source>,
    consumption_duration: i64,
    finish_at: i64,
    now: i64,
) -> bool {
    &&& !consumer.is_processing()
    &&& consumption_duration > 0
    &&& finish_at > now
    &&& now <= finish_at - consumption_duration
}

/// The requests to switch the device off that a cancellation of its plan
/// hands to the gateway: for a plan that was in process, one for every switch
/// action that the cancellation forced, and one more to make sure.
pub open spec fn is_cancellation_batch<Source: SingleDayPriceList>(
    before: PowerConsumer<Source>,
    commands: Seq<SwitchCommand>,
) -> bool {
    &&& commands.len() == if before.is_processing() {
        forced_switch_offs(
            before.consumption_plan->0@.actions(),
            has_started(before.consumption_plan->0@.consumption_plan_items),
        ).len() + 1
    } else {
        0
    }
    &&& forall|k: int|
        0 <= k < commands.len() ==> (#[trigger] commands[k]).entity_id@ == before.ha_device_name@
            && !commands[k].switch_on
}

/// The device `after` is the device `before` with its plan canceled at
/// `now`; `time_of_day` is the time shown in the result of a forced switch-off.
pub open spec fn is_canceled<Source: SingleDayPriceList>(
    before: PowerConsumer<Source>,
    after: PowerConsumer<Source>,
    now: i64,
    time_of_day: Seq<char>,
) -> bool {
    &&& after.ha_device_name == before.ha_device_name
    &&& after.name == before.name
    &&& after.time_period_price_list_service == before.time_period_price_list_service
    &&& after.home_assistant_service == before.home_assistant_service
    &&& match before.consumption_plan {
        Some(plan) => after.consumption_plan matches Some(canceled) && canceled@ == canceled_plan(
            plan@,
            now,
            time_of_day,
        ),
        None => after.consumption_plan is None,
    }
    &&& before.has_well_formed_plan() ==> after.has_well_formed_plan()
}

impl<Source: SingleDayPriceList> PowerConsumer<Source> {
    pub fn new(
        ha_device_name: String,
        name: String,
        time_period_price_list_service: Arc<TimePeriodPriceListService<Source>>,
        home_assistant_service: Arc<HomeAssistantService>,
    ) -> (consumer: Self)
        ensures
            consumer.ha_device_name == ha_device_name,
            consumer.name == name,
            consumer.time_period_price_list_service == time_period_price_list_service,
            consumer.home_assistant_service == home_assistant_service,
            consumer.consumption_plan is None,
    {
        Self {
            ha_device_name,
            name,
            consumption_plan: None,
            time_period_price_list_service,
            home_assistant_service,
        }
    }

    pub fn consumption_plan(&self) -> (plan: Option<&ConsumptionPlan>)
        ensures
            match plan {
                Some(plan) => self.consumption_plan == Some(*plan),
                None => self.consumption_plan is None,
            },
    {
        self.consumption_plan.as_ref()
    }

    pub fn consumption_plan_mut(&mut self) -> (plan: Option<&mut ConsumptionPlan>)
        ensures
            final(self).ha_device_name == old(self).ha_device_name,
            final(self).name == old(self).name,
            final(self).time_period_price_list_service == old(self).time_period_price_list_service,
            final(self).home_assistant_service == old(self).home_assistant_service,
            match old(self).consumption_plan {
                Some(current) => plan matches Some(handed) && *handed == current
                    && final(self).consumption_plan == Some(*final(handed)),
                None => plan is None && final(self).consumption_plan is None,
            },
    {
        self.consumption_plan.as_mut()
    }

    pub fn id(&self) -> (id: &str)
        ensures
            id@ == self.ha_device_name@,
    {
        self.ha_device_name.as_str()
    }

    /// The plan of the device, if it has one, is well formed.
    pub open spec fn has_well_formed_plan(&self) -> bool {
        self.consumption_plan matches Some(plan) ==> plan@.is_well_formed()
    }

    /// The plan of the device is in process.
    pub open spec fn is_processing(&self) -> bool {
        self.consumption_plan matches Some(plan) && plan.state == ConsumptionPlanState::Processing
    }

    /// Tells whether the plan of the device is in process.
    pub fn has_processing_plan(&self) -> (processing: bool)
        ensures
            processing == self.is_processing(),
    {
        match &self.consumption_plan {
            Some(plan) => match plan.state {
                ConsumptionPlanState::Processing => true,
                _ => false,
            },
            None => false,
        }
    }

    /// The instant at which a new plan is proposed to finish, as of now;
    /// see [`default_charging_finish_time`]. There is none where the clock
    /// or the calendar gives no answer within the supported range.
    pub fn get_default_charging_finish_time() -> (finish_at: Option<i64>)
        ensures
            exists|now: i64, local_hour: Option<u32>, next_morning: Option<i64>|
                finish_at == #[trigger] default_finish(now, local_hour, next_morning),
    {
        let now = current_instant();
        let hour = if is_valid_instant(now) {
            local_hour(now)
        } else {
            None
        };
        let next_morning = match (hour, next_morning_request(now)) {
            (Some(shown), Some(asked)) => {
                if shown >= LATEST_HOUR_TO_FINISH_SOON {
                    local_time_on_day_of(asked.0, asked.1)
                } else {
                    None
                }
            },
            _ => None,
        };
        default_charging_finish_time(now, hour, next_morning)
    }

    /// The device as it is shown to a client.
    pub fn to_power_consumer_model(&self) -> (model: PowerConsumerModel<'_>)
        ensures
            model.id@ == self.ha_device_name@,
            model.name@ == self.name@,
            model.default_consumption_duration == DEFAULT_CONSUMPTION_DURATION,
            exists|now: i64, local_hour: Option<u32>, next_morning: Option<i64>|
                model.default_finish_at == #[trigger] default_finish(
                    now,
                    local_hour,
                    next_morning,
                ),
            model.charging_status_url is None,
            match model.consumption_plan {
                Some(plan) => self.consumption_plan == Some(*plan),
                None => self.consumption_plan is None,
            },
    {
        PowerConsumerModel {
            id: self.ha_device_name.clone(),
            name: self.name.clone(),
            default_finish_at: Self::get_default_charging_finish_time(),
            default_consumption_duration: DEFAULT_CONSUMPTION_DURATION,
            charging_status_url: None,
            consumption_plan: self.consumption_plan.as_ref(),
        }
    }

    /// Tells whether a plan may be scheduled at `now` that runs for
    /// `consumption_duration` and is finished at `finish_at`.
    ///
    /// It may not while the current plan is in process, for a duration that
    /// is not positive, to finish at `now` or earlier, or when less than
    /// the duration is left until `finish_at`. Whatever is refused first, in
    /// that order, is said.
    pub fn validate_schedule_consumption_plan_inputs(
        &self,
        consumption_duration: i64,
        finish_at: i64,
        now: i64,
    ) -> (validated: Result<(), AppError>)
        ensures
            match validated {
                Ok(_) => is_request_in_order(*self, consumption_duration, finish_at, now),
                Err(error) => is_refusal(*self, error, consumption_duration, finish_at, now)
                    && !is_request_in_order(*self, consumption_duration, finish_at, now),
            },
    {
        if self.has_processing_plan() {
            return Err(AppError::user_error("Current plan needs to be canceled!"));
        }
        if consumption_duration <= 0 {
            return Err(AppError::user_error("Consumption duration should be grater than zero!"));
        }
        if finish_at <= now {
            let requested = if is_valid_instant(finish_at) {
                match format_utc(finish_at, "%Y %m %d %H:%M:%S") {
                    Some(text) => text,
                    None => String::new(),
                }
            } else {
                String::new()
            };
            let message = String::from_str(
                "Finish at should be in the future! Requested finish time: ",
            ).concat(requested.as_str());
            return Err(AppError::user_error(message.as_str()));
        }
        if now as i128 > finish_at as i128 - consumption_duration as i128 {
            let minutes: i64 = consumption_duration / MILLIS_PER_MINUTE;
            let written = to_decimal(minutes as u64);
            let message = String::from_str(
                "Finish at is too early to execute required consumption duration time ",
            ).concat(written.as_str()).concat(" minutes!");
            return Err(AppError::user_error(message.as_str()));
        }
        Ok(())
    }

    /// Picks the price-list cells of a plan that runs for
    /// `consumption_duration` between `start_from` and `finish_at`: asks for
    /// the price list of that period and selects from it; see
    /// [`plan_from_price_list`].
    ///
    /// A failure of the price list is handed on as it is.
    pub fn select_price_list_items_for_consumption_plan(
        &self,
        consumption_duration: i64,
        start_from: i64,
        finish_at: i64,
    ) -> (selected: Result<Vec<ConsumptionPlanItem>, AppError>)
        requires
            consumption_duration > 0,
        ensures
            match selected {
                Ok(items) => {
                    &&& is_selected_from(
                        *self.time_period_price_list_service,
                        items@,
                        consumption_duration,
                        start_from,
                        finish_at,
                    )
                    &&& is_instant(start_from as int)
                    &&& is_instant(finish_at as int)
                    &&& is_plan_within(selections_of(items@), start_from as int, finish_at as int)
                    &&& total_duration(selections_of(items@)) == consumption_duration
                    &&& forall|i: int|
                        0 <= i < items.len() ==> (#[trigger] items[i]).switch_actions@.len() == 0
                },
                Err(error) => is_failure_to_select(*self.time_period_price_list_service, error),
            },
    {
        let price_list = match self.time_period_price_list_service.get_price_list(
            start_from,
            finish_at,
        ) {
            Ok(price_list) => price_list,
            Err(error) => {
                return Err(error);
            },
        };
        let ghost curve = price_list@;
        let selected = plan_from_price_list(price_list, consumption_duration, start_from, finish_at);
        proof {
            if selected is Ok {
                lemma_selected_plan_within_window(
                    curve,
                    consumption_duration as int,
                    start_from as int,
                    finish_at as int,
                );
                lemma_selected_plan_covers_duration(
                    curve,
                    consumption_duration as int,
                    start_from as int,
                    finish_at as int,
                );
            }
        }
        selected
    }

    /// Creates the plan that runs the device for `consumption_duration`
    /// between `start_from` and `finish_at` in the cheapest cells of the
    /// price list, and makes it the plan of the device.
    ///
    /// Where the price list fails or cannot carry the plan, the device keeps
    /// the plan it had.
    pub fn create_consumption_plan(
        &mut self,
        consumption_duration: i64,
        start_from: i64,
        finish_at: i64,
    ) -> (created: Result<(), AppError>)
        requires
            consumption_duration > 0,
        ensures
            final(self).ha_device_name == old(self).ha_device_name,
            final(self).name == old(self).name,
            final(self).time_period_price_list_service == old(self).time_period_price_list_service,
            final(self).home_assistant_service == old(self).home_assistant_service,
            match created {
                Ok(_) => final(self).consumption_plan matches Some(plan) && is_new_plan(
                    plan,
                    consumption_duration,
                    start_from,
                    finish_at,
                ) && is_selected_from(
                    *old(self).time_period_price_list_service,
                    plan.consumption_plan_items@,
                    consumption_duration,
                    start_from,
                    finish_at,
                ),
                Err(error) => final(self).consumption_plan == old(self).consumption_plan
                    && is_failure_to_select(*old(self).time_period_price_list_service, error),
            },
    {
        let mut consumption_plan_items = match self.select_price_list_items_for_consumption_plan(
            consumption_duration,
            start_from,
            finish_at,
        ) {
            Ok(items) => items,
            Err(error) => {
                return Err(error);
            },
        };
        create_switch_actions(&mut consumption_plan_items, start_from, finish_at);
        let plan = ConsumptionPlan {
            id: fresh_id(),
            created_at: start_from,
            consumption_duration,
            finish_at,
            consumption_plan_items,
            state: ConsumptionPlanState::Processing,
        };
        proof {
            lemma_plan_within_is_well_formed(
                plan.consumption_plan_items@,
                start_from as int,
                finish_at as int,
            );
            let selected = selections_of(plan.consumption_plan_items@);
            assert forall|i: int, j: int| 0 <= i < j < selected.len() implies (
            #[trigger] selected[i]).cell.starts_at < (#[trigger] selected[j]).cell.starts_at by {
                assert(selected[i].cell.is_valid());
                assert(selected[i].cell.end() <= selected[j].cell.starts_at);
            }
        }
        self.consumption_plan = Some(plan);
        Ok(())
    }

    /// Schedules a plan at `start_from`: checks the request, creates the
    /// plan and decides what is to be done about each of its switch actions.
    ///
    /// A request that is refused leaves the device as it was.
    pub fn schedule_consumption_plan(
        &mut self,
        switch_actions_scheduler: &SwitchActionsScheduler,
        consumption_duration: i64,
        start_from: i64,
        finish_at: i64,
    ) -> (scheduled: Result<Vec<SwitchStep>, AppError>)
        ensures
            final(self).ha_device_name == old(self).ha_device_name,
            final(self).name == old(self).name,
            final(self).time_period_price_list_service == old(self).time_period_price_list_service,
            final(self).home_assistant_service == old(self).home_assistant_service,
            match scheduled {
                Ok(steps) => is_scheduled(
                    *old(self),
                    *final(self),
                    steps@,
                    consumption_duration,
                    start_from,
                    finish_at,
                ),
                Err(error) => {
                    &&& final(self).consumption_plan == old(self).consumption_plan
                    &&& if is_request_in_order(
                        *old(self),
                        consumption_duration,
                        finish_at,
                        start_from,
                    ) {
                        is_failure_to_select(*old(self).time_period_price_list_service, error)
                    } else {
                        is_refusal(*old(self), error, consumption_duration, finish_at, start_from)
                    }
                },
            },
    {
        match self.validate_schedule_consumption_plan_inputs(
            consumption_duration,
            finish_at,
            start_from,
        ) {
            Ok(_) => {},
            Err(error) => {
                return Err(error);
            },
        }
        match self.create_consumption_plan(consumption_duration, start_from, finish_at) {
            Ok(_) => {},
            Err(error) => {
                return Err(error);
            },
        }
        match &mut self.consumption_plan {
            Some(consumption_plan) => {
                let ghost created = *consumption_plan;
                let steps = switch_actions_scheduler.schedule_switch_actions(
                    consumption_plan,
                    start_from,
                );
                assert(is_new_plan(created, consumption_duration, start_from, finish_at));
                Ok(steps)
            },
            None => Ok(Vec::new()),
        }
    }

    /// Cancels the plan of the device at `now`; see [`canceled_plan`].
    ///
    /// `time_of_day` is the time of the cancellation as it is to be shown.
    /// Hands out the requests that the gateway has to carry out: for a plan
    /// that was in process, a switch-off for every switch action that the
    /// cancellation forced, and one more to make sure.
    pub fn cancel_consumption_plan_at(
        &mut self,
        now: i64,
        time_of_day: &str,
    ) -> (commands: Vec<SwitchCommand>)
        ensures
            is_canceled(*old(self), *final(self), now, time_of_day@),
            is_cancellation_batch(*old(self), commands@),
    {
        let mut commands: Vec<SwitchCommand> = Vec::new();
        let processing = self.has_processing_plan();
        match &mut self.consumption_plan {
            Some(consumption_plan) => {
                let forced = cancel_plan(consumption_plan, now, time_of_day);
                if processing {
                    let mut k: usize = 0;
                    while k < forced.len()
                        invariant
                            k <= forced.len(),
                            commands.len() == k,
                            forall|c: int|
                                0 <= c < commands.len() ==> (#[trigger] commands[c]).entity_id@
                                    == self.ha_device_name@ && !commands[c].switch_on,
                        decreases forced.len() - k,
                    {
                        commands.push(
                            SwitchCommand { entity_id: self.ha_device_name.clone(), switch_on: false },
                        );
                        k += 1;
                    }
                    commands.push(
                        SwitchCommand { entity_id: self.ha_device_name.clone(), switch_on: false },
                    );
                }
            },
            None => {},
        }
        commands
    }

    /// Cancels the plan of the device at `now`, showing the local time of
    /// day in the result of every switch-off that the cancellation forces;
    /// see [`PowerConsumer::cancel_consumption_plan_at`].
    pub fn cancel_consumption_plan(&mut self, now: i64) -> (commands: Vec<SwitchCommand>)
        ensures
            exists|time_of_day: Seq<char>| #[trigger]
                is_canceled(*old(self), *final(self), now, time_of_day),
            is_cancellation_batch(*old(self), commands@),
    {
        let time_of_day = if is_valid_instant(now) {
            match format_local(now, time_of_day_format()) {
                Some(text) => text,
                None => String::new(),
            }
        } else {
            String::new()
        };
        let commands = self.cancel_consumption_plan_at(now, time_of_day.as_str());
        assert(is_canceled(*old(self), *self, now, time_of_day@));
        commands
    }
}

} // verus!
