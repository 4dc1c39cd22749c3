use std::sync::Arc;
use vstd::prelude::*;

use crate::calendar::current_instant;
use crate::model::consumption_plan::{ConsumptionPlanView, PowerConsumerModel, SwitchActionState};
use crate::model::errors::AppError;
use crate::power_consumers::home_assistant_service::HomeAssistantService;
use crate::power_consumers::plan_state::{settled_state, switch_consumption_plan_state};
use crate::power_consumers::power_consumer::{
    is_canceled, is_cancellation_batch, is_failure_to_select, is_refusal, is_request_in_order,
    is_scheduled, PowerConsumer, SwitchCommand,
};
use crate::power_consumers::switch_actions_scheduler::{
    has_action_with_id, holds_id_at, is_completed, is_first_with_id, is_recorded,
    SwitchActionsScheduler, SwitchStep,
};
use crate::price_list_providers::commons::SingleDayPriceList;
use crate::price_list_providers::time_period_price_list_service::TimePeriodPriceListService;
use crate::settings::PowerConsumerConfig;

verus! {

/// The registry of power consumers. It takes the requests to schedule a
/// consumption plan or to cancel one, finds the consumer that is meant and
/// hands the request on to it.
pub struct PowerConsumersService<Source: SingleDayPriceList> {
    pub switch_actions_scheduler: Option<Arc<SwitchActionsScheduler>>,
    pub power_consumers: Vec<PowerConsumer<Source>>,
}

/// The place of the consumer with the identifier `id` among `consumers`, if there is one.
pub open spec fn is_registered_at<Source: SingleDayPriceList>(
    consumers: Seq<PowerConsumer<Source>>,
    id: Seq<char>,
    at: int,
) -> bool {
    0 <= at < consumers.len() && consumers[at].ha_device_name@ == id
}

/// Some consumer among `consumers` has the identifier `id`.
pub open spec fn is_registered<Source: SingleDayPriceList>(
    consumers: Seq<PowerConsumer<Source>>,
    id: Seq<char>,
) -> bool {
    exists|at: int| is_registered_at(consumers, id, at)
}

/// No two consumers have the same identifier.
pub open spec fn has_distinct_ids<Source: SingleDayPriceList>(
    consumers: Seq<PowerConsumer<Source>>,
) -> bool {
    forall|a: int, b: int|
        0 <= a < b < consumers.len() ==> (#[trigger] consumers[a]).ha_device_name@ != (
        #[trigger] consumers[b]).ha_device_name@
}

/// The first consumer among `consumers` with the identifier `id` is the one at place `at`.
pub open spec fn is_first_registered_at<Source: SingleDayPriceList>(
    consumers: Seq<PowerConsumer<Source>>,
    id: Seq<char>,
    at: int,
) -> bool {
    &&& is_registered_at(consumers, id, at)
    &&& forall|k: int| 0 <= k < at ==> !is_registered_at(consumers, id, k)
}

/// Nothing changed but, at most, the consumer at place `at`, whose identifier stayed.
pub open spec fn is_changed_at<Source: SingleDayPriceList>(
    before: PowerConsumersService<Source>,
    after: PowerConsumersService<Source>,
    at: int,
) -> bool {
    &&& after.switch_actions_scheduler == before.switch_actions_scheduler
    &&& after.power_consumers.len() == before.power_consumers.len()
    &&& 0 <= at < before.power_consumers.len()
    &&& after.power_consumers[at].ha_device_name == before.power_consumers[at].ha_device_name
    &&& forall|k: int|
        0 <= k < before.power_consumers.len() && k != at ==> (#[trigger] after.power_consumers[k])
            == before.power_consumers[k]
}

/// Nothing changed.
pub open spec fn is_unchanged<Source: SingleDayPriceList>(
    before: PowerConsumersService<Source>,
    after: PowerConsumersService<Source>,
) -> bool {
    &&& after.switch_actions_scheduler == before.switch_actions_scheduler
    &&& after.power_consumers@ == before.power_consumers@
}

/// The switch action `switch_action_id` of the plan of the consumer is
/// waiting, and switches the device on or off as `switch_on` says.
pub open spec fn is_waiting_switch<Source: SingleDayPriceList>(
    consumer: PowerConsumer<Source>,
    switch_action_id: u128,
    switch_on: bool,
) -> bool {
    consumer.consumption_plan matches Some(plan) && exists|i: int, j: int|
        {
            &&& #[trigger] is_first_with_id(plan@.consumption_plan_items, switch_action_id, i, j)
            &&& plan@.consumption_plan_items[i].switch_actions[j].state
                == SwitchActionState::Scheduled
            &&& plan@.consumption_plan_items[i].switch_actions[j].switch_on == switch_on
        }
}

/// The consumer is the one made for the device at place `k` of the first
/// `count` configured devices, the last of them with its identifier: it has
/// the identifier and the name of that device, takes its price lists from
/// `source`, switches through `gateway`, and has no plan.
pub open spec fn is_made_for<Source: SingleDayPriceList>(
    consumer: PowerConsumer<Source>,
    configured: Seq<PowerConsumerConfig>,
    k: int,
    count: int,
    source: Arc<Source>,
    gateway: Arc<HomeAssistantService>,
) -> bool {
    &&& 0 <= k < count <= configured.len()
    &&& consumer.ha_device_name@ == configured[k].device_id@
    &&& consumer.name@ == configured[k].name@
    &&& forall|later: int|
        k < later < count ==> (#[trigger] configured[later]).device_id@
            != consumer.ha_device_name@
    &&& consumer.time_period_price_list_service.single_day_price_list == source
    &&& consumer.home_assistant_service == gateway
    &&& consumer.consumption_plan is None
}

/// The consumer is the one made for one of the first `count` configured
/// devices; see [`is_made_for`].
pub open spec fn is_configured<Source: SingleDayPriceList>(
    consumer: PowerConsumer<Source>,
    configured: Seq<PowerConsumerConfig>,
    count: int,
    source: Arc<Source>,
    gateway: Arc<HomeAssistantService>,
) -> bool {
    exists|k: int| #[trigger] is_made_for(consumer, configured, k, count, source, gateway)
}

/// The registry `after` is the registry `before` with the state of the plan
/// of the device `id` brought up to date, `found` telling whether the device
/// is registered and has a plan; without one, nothing changed.
pub open spec fn is_settled<Source: SingleDayPriceList>(
    before: PowerConsumersService<Source>,
    after: PowerConsumersService<Source>,
    id: Seq<char>,
    found: bool,
) -> bool {
    &&& !found ==> is_unchanged(before, after)
    &&& found ==> exists|at: int|
        {
            &&& #[trigger] is_first_registered_at(before.power_consumers@, id, at)
            &&& is_changed_at(before, after, at)
            &&& before.power_consumers[at].consumption_plan is Some
            &&& after.power_consumers[at].consumption_plan is Some
            &&& after.power_consumers[at].consumption_plan->0@ == (ConsumptionPlanView {
                state: settled_state(before.power_consumers[at].consumption_plan->0@),
                ..before.power_consumers[at].consumption_plan->0@
            })
        }
    &&& found == exists|at: int| #[trigger]
        is_first_registered_at(before.power_consumers@, id, at)
            && before.power_consumers[at].consumption_plan is Some
}

/// A change of one consumer that keeps its identifier and leaves it with
/// a well-formed plan, if with any, keeps the registry well formed.
proof fn lemma_well_formed_kept<Source: SingleDayPriceList>(
    before: PowerConsumersService<Source>,
    after: PowerConsumersService<Source>,
    at: int,
)
    requires
        is_changed_at(before, after, at),
        before.is_well_formed(),
        after.power_consumers[at].has_well_formed_plan(),
    ensures
        after.is_well_formed(),
{
    assert forall|k: int| 0 <= k < after.power_consumers.len() implies (
    #[trigger] after.power_consumers[k]).has_well_formed_plan() by {
        if k != at {
            assert(before.power_consumers[k].has_well_formed_plan());
        }
    }
    assert forall|a: int, b: int| 0 <= a < b < after.power_consumers.len() implies (
    #[trigger] after.power_consumers@[a]).ha_device_name@ != (
    #[trigger] after.power_consumers@[b]).ha_device_name@ by {
        assert(before.power_consumers@[a].ha_device_name@ != before.power_consumers@[b].ha_device_name@);
    }
}

/// The place of the first consumer with the identifier `id`.
fn position_of<Source: SingleDayPriceList>(
    power_consumers: &Vec<PowerConsumer<Source>>,
    power_consumer_id: &String,
) -> (position: Option<usize>)
    ensures
        match position {
            Some(at) => is_first_registered_at(power_consumers@, power_consumer_id@, at as int),
            None => !is_registered(power_consumers@, power_consumer_id@),
        },
{
    let mut at: usize = 0;
    while at < power_consumers.len()
        invariant
            at <= power_consumers.len(),
            forall|k: int| 0 <= k < at ==> !is_registered_at(power_consumers@, power_consumer_id@, k),
        decreases power_consumers.len() - at,
    {
        if power_consumers[at].ha_device_name == *power_consumer_id {
            return Some(at);
        }
        at += 1;
    }
    None
}

impl<Source: SingleDayPriceList> PowerConsumersService<Source> {
    /// The registry is well formed: no two of its consumers share an
    /// identifier, and the plan of every consumer that has one is well formed.
    pub open spec fn is_well_formed(&self) -> bool {
        &&& has_distinct_ids(self.power_consumers@)
        &&& forall|at: int|
            0 <= at < self.power_consumers.len() ==> (
            #[trigger] self.power_consumers[at]).has_well_formed_plan()
    }

    /// A registry of the configured devices, each without a plan. Where two
    /// devices are configured under one identifier, the later one counts.
    pub fn new(
        power_consumers_config: &Vec<PowerConsumerConfig>,
        tariff_selector_price_list: Arc<Source>,
        home_assistant_service: Arc<HomeAssistantService>,
    ) -> (service: Self)
        ensures
            service.is_well_formed(),
            service.switch_actions_scheduler is None,
            forall|k: int|
                0 <= k < power_consumers_config.len() ==> is_registered(
                    service.power_consumers@,
                    (#[trigger] power_consumers_config[k]).device_id@,
                ),
            forall|at: int|
                0 <= at < service.power_consumers.len() ==> is_configured(
                    #[trigger] service.power_consumers[at],
                    power_consumers_config@,
                    power_consumers_config.len() as int,
                    tariff_selector_price_list,
                    home_assistant_service,
                ),
    {
        let time_period_price_list_service = Arc::new(
            TimePeriodPriceListService::new(tariff_selector_price_list),
        );
        let mut power_consumers: Vec<PowerConsumer<Source>> = Vec::new();
        let mut i: usize = 0;
        while i < power_consumers_config.len()
            invariant
                i <= power_consumers_config.len(),
                has_distinct_ids(power_consumers@),
                forall|k: int|
                    0 <= k < i ==> is_registered(
                        power_consumers@,
                        (#[trigger] power_consumers_config[k]).device_id@,
                    ),
                time_period_price_list_service.single_day_price_list == tariff_selector_price_list,
                forall|at: int|
                    0 <= at < power_consumers.len() ==> is_configured(
                        #[trigger] power_consumers[at],
                        power_consumers_config@,
                        i as int,
                        tariff_selector_price_list,
                        home_assistant_service,
                    ),
            decreases power_consumers_config.len() - i,
        {
            let config = &power_consumers_config[i];
            let power_consumer = PowerConsumer::new(
                config.device_id.clone(),
                config.name.clone(),
                time_period_price_list_service.clone(),
                home_assistant_service.clone(),
            );
            let ghost before = power_consumers@;
            let ghost placed: int;
            match position_of(&power_consumers, &config.device_id) {
                Some(at) => {
                    proof {
                        placed = at as int;
                    }
                    power_consumers.set(at, power_consumer);
                    proof {
                        assert forall|k: int| 0 <= k < i + 1 implies is_registered(
                            power_consumers@,
                            (#[trigger] power_consumers_config[k]).device_id@,
                        ) by {
                            if k < i {
                                let was = choose|was: int|
                                    is_registered_at(before, power_consumers_config[k].device_id@, was);
                                assert(is_registered_at(
                                    power_consumers@,
                                    power_consumers_config[k].device_id@,
                                    was,
                                ));
                            } else {
                                assert(is_registered_at(
                                    power_consumers@,
                                    power_consumers_config[k].device_id@,
                                    at as int,
                                ));
                            }
                        }
                        assert forall|a: int, b: int|
                            0 <= a < b < power_consumers.len() implies (
                        #[trigger] power_consumers[a]).ha_device_name@ != (
                        #[trigger] power_consumers[b]).ha_device_name@ by {
                            assert(before[a].ha_device_name@ != before[b].ha_device_name@);
                        }
                    }
                },
                None => {
                    proof {
                        placed = before.len() as int;
                    }
                    power_consumers.push(power_consumer);
                    proof {
                        assert forall|k: int| 0 <= k < i + 1 implies is_registered(
                            power_consumers@,
                            (#[trigger] power_consumers_config[k]).device_id@,
                        ) by {
                            if k < i {
                                let was = choose|was: int|
                                    is_registered_at(before, power_consumers_config[k].device_id@, was);
                                assert(is_registered_at(
                                    power_consumers@,
                                    power_consumers_config[k].device_id@,
                                    was,
                                ));
                            } else {
                                assert(is_registered_at(
                                    power_consumers@,
                                    power_consumers_config[k].device_id@,
                                    before.len() as int,
                                ));
                            }
                        }
                        assert forall|a: int, b: int|
                            0 <= a < b < power_consumers.len() implies (
                        #[trigger] power_consumers[a]).ha_device_name@ != (
                        #[trigger] power_consumers[b]).ha_device_name@ by {
                            if b == before.len() {
                                assert(!is_registered_at(before, config.device_id@, a));
                            } else {
                                assert(before[a].ha_device_name@ != before[b].ha_device_name@);
                            }
                        }
                    }
                },
            }
            proof {
                assert forall|at: int| 0 <= at < power_consumers.len() implies is_configured(
                    #[trigger] power_consumers[at],
                    power_consumers_config@,
                    i + 1,
                    tariff_selector_price_list,
                    home_assistant_service,
                ) by {
                    if at == placed {
                        assert(is_made_for(
                            power_consumers[at],
                            power_consumers_config@,
                            i as int,
                            i + 1,
                            tariff_selector_price_list,
                            home_assistant_service,
                        ));
                    } else {
                        assert(power_consumers[at] == before[at]);
                        assert(is_configured(
                            before[at],
                            power_consumers_config@,
                            i as int,
                            tariff_selector_price_list,
                            home_assistant_service,
                        ));
                        assert(before[at].ha_device_name@ != config.device_id@) by {
                            if placed < before.len() {
                                assert(before[placed].ha_device_name@ == config.device_id@);
                                if at < placed {
                                    assert(before[at].ha_device_name@ != before[placed].ha_device_name@);
                                } else {
                                    assert(before[placed].ha_device_name@ != before[at].ha_device_name@);
                                }
                            } else {
                                assert(!is_registered_at(before, config.device_id@, at));
                            }
                        }
                        let k = choose|k: int| #[trigger]
                            is_made_for(
                                before[at],
                                power_consumers_config@,
                                k,
                                i as int,
                                tariff_selector_price_list,
                                home_assistant_service,
                            );
                        assert(is_made_for(
                            power_consumers[at],
                            power_consumers_config@,
                            k,
                            i + 1,
                            tariff_selector_price_list,
                            home_assistant_service,
                        ));
                    }
                }
            }
            i += 1;
        }
        Self { switch_actions_scheduler: None, power_consumers }
    }

    pub fn switch_actions_scheduler(&self) -> (scheduler: Option<&Arc<SwitchActionsScheduler>>)
        ensures
            match scheduler {
                Some(scheduler) => self.switch_actions_scheduler == Some(*scheduler),
                None => self.switch_actions_scheduler is None,
            },
    {
        self.switch_actions_scheduler.as_ref()
    }

    pub fn set_switch_actions_scheduler(
        &mut self,
        switch_actions_scheduler: Option<Arc<SwitchActionsScheduler>>,
    )
        ensures
            final(self).switch_actions_scheduler == switch_actions_scheduler,
            final(self).power_consumers == old(self).power_consumers,
            old(self).is_well_formed() ==> final(self).is_well_formed(),
    {
        self.switch_actions_scheduler = switch_actions_scheduler;
    }

    /// The consumer with the identifier `power_consumer_id`, if it is registered.
    pub fn get_power_consumer(
        &self,
        power_consumer_id: &String,
    ) -> (found: Option<&PowerConsumer<Source>>)
        ensures
            match found {
                Some(consumer) => consumer.ha_device_name@ == power_consumer_id@
                    && self.power_consumers@.contains(*consumer),
                None => !is_registered(self.power_consumers@, power_consumer_id@),
            },
    {
        match position_of(&self.power_consumers, power_consumer_id) {
            Some(at) => {
                assert(self.power_consumers@[at as int] == self.power_consumers[at as int]);
                Some(&self.power_consumers[at])
            },
            None => None,
        }
    }

    /// The consumer with the identifier `power_consumer_id`, if it is
    /// registered, to be changed in place.
    pub fn get_power_consumer_mut(
        &mut self,
        power_consumer_id: &String,
    ) -> (found: Option<&mut PowerConsumer<Source>>)
        ensures
            final(self).switch_actions_scheduler == old(self).switch_actions_scheduler,
            match found {
                Some(consumer) => exists|at: int|
                    {
                        &&& #[trigger] is_first_registered_at(
                            old(self).power_consumers@,
                            power_consumer_id@,
                            at,
                        )
                        &&& *consumer == old(self).power_consumers[at]
                        &&& final(self).power_consumers@ == old(self).power_consumers@.update(
                            at,
                            *final(consumer),
                        )
                    },
                None => !is_registered(old(self).power_consumers@, power_consumer_id@)
                    && final(self).power_consumers@ == old(self).power_consumers@,
            },
    {
        match position_of(&self.power_consumers, power_consumer_id) {
            Some(at) => {
                assert(is_first_registered_at(
                    old(self).power_consumers@,
                    power_consumer_id@,
                    at as int,
                ));
                Some(&mut self.power_consumers[at])
            },
            None => None,
        }
    }

    /// Every registered device as it is shown to a client.
    pub fn get_power_consumers_model_list(&self) -> (models: Vec<PowerConsumerModel<'_>>)
        ensures
            models.len() == self.power_consumers.len(),
            forall|k: int|
                0 <= k < models.len() ==> {
                    &&& (#[trigger] models[k]).id@ == self.power_consumers[k].ha_device_name@
                    &&& models[k].name@ == self.power_consumers[k].name@
                    &&& match models[k].consumption_plan {
                        Some(plan) => self.power_consumers[k].consumption_plan == Some(*plan),
                        None => self.power_consumers[k].consumption_plan is None,
                    }
                },
    {
        let mut models: Vec<PowerConsumerModel<'_>> = Vec::new();
        let mut k: usize = 0;
        while k < self.power_consumers.len()
            invariant
                k <= self.power_consumers.len(),
                models.len() == k,
                forall|m: int|
                    0 <= m < models.len() ==> {
                        &&& (#[trigger] models[m]).id@ == self.power_consumers[m].ha_device_name@
                        &&& models[m].name@ == self.power_consumers[m].name@
                        &&& match models[m].consumption_plan {
                            Some(plan) => self.power_consumers[m].consumption_plan == Some(*plan),
                            None => self.power_consumers[m].consumption_plan is None,
                        }
                    },
            decreases self.power_consumers.len() - k,
        {
            models.push(self.power_consumers[k].to_power_consumer_model());
            k += 1;
        }
        models
    }

    /// Schedules a plan for the device `power_consumer_id` at `now`; see
    /// [`PowerConsumer::schedule_consumption_plan`].
    ///
    /// An unknown device is not found; a registry without a scheduler is a
    /// system error. Whatever fails, every device keeps its plan.
    pub fn schedule_consumption_plan_at(
        &mut self,
        power_consumer_id: String,
        consumption_duration: i64,
        now: i64,
        finish_at: i64,
    ) -> (scheduled: Result<Vec<SwitchStep>, AppError>)
        ensures
            old(self).is_well_formed() ==> final(self).is_well_formed(),
            match scheduled {
                Ok(steps) => exists|at: int|
                    {
                        &&& #[trigger] is_first_registered_at(
                            old(self).power_consumers@,
                            power_consumer_id@,
                            at,
                        )
                        &&& is_changed_at(*old(self), *final(self), at)
                        &&& is_scheduled(
                            old(self).power_consumers[at],
                            final(self).power_consumers[at],
                            steps@,
                            consumption_duration,
                            now,
                            finish_at,
                        )
                    },
                Err(error) => {
                    &&& is_unchanged(*old(self), *final(self))
                    &&& old(self).switch_actions_scheduler is None ==> error.is_system_error(
                        "Switch actions scheduler is missing"@,
                    )
                    &&& old(self).switch_actions_scheduler is Some && !is_registered(
                        old(self).power_consumers@,
                        power_consumer_id@,
                    ) ==> error.is_not_found("Power consumer not found"@)
                    &&& forall|at: int|
                        old(self).switch_actions_scheduler is Some && #[trigger] is_first_registered_at(
                            old(self).power_consumers@,
                            power_consumer_id@,
                            at,
                        ) ==> if is_request_in_order(
                            old(self).power_consumers[at],
                            consumption_duration,
                            finish_at,
                            now,
                        ) {
                            is_failure_to_select(
                                *old(self).power_consumers[at].time_period_price_list_service,
                                error,
                            )
                        } else {
                            is_refusal(
                                old(self).power_consumers[at],
                                error,
                                consumption_duration,
                                finish_at,
                                now,
                            )
                        }
                },
            },
    {
        let switch_actions_scheduler = match &self.switch_actions_scheduler {
            Some(scheduler) => scheduler.clone(),
            None => {
                return Err(AppError::system_error("Switch actions scheduler is missing"));
            },
        };
        let at = match position_of(&self.power_consumers, &power_consumer_id) {
            Some(at) => at,
            None => {
                return Err(AppError::not_found("Power consumer not found"));
            },
        };
        let scheduled = self.power_consumers[at].schedule_consumption_plan(
            &switch_actions_scheduler,
            consumption_duration,
            now,
            finish_at,
        );
        proof {
            assert(is_changed_at(*old(self), *self, at as int));
            if old(self).is_well_formed() {
                lemma_well_formed_kept(*old(self), *self, at as int);
            }
            if scheduled is Err {
                assert(self.power_consumers@ =~= old(self).power_consumers@);
            } else {
                assert(is_first_registered_at(
                    old(self).power_consumers@,
                    power_consumer_id@,
                    at as int,
                ));
            }
        }
        scheduled
    }

    /// Schedules a plan for the device `power_consumer_id` as of now; see
    /// [`PowerConsumersService::schedule_consumption_plan_at`].
    pub fn schedule_consumption_plan(
        &mut self,
        power_consumer_id: String,
        consumption_duration: i64,
        finish_at: i64,
    ) -> (scheduled: Result<Vec<SwitchStep>, AppError>)
        ensures
            old(self).is_well_formed() ==> final(self).is_well_formed(),
            match scheduled {
                Ok(steps) => exists|at: int, now: i64|
                    {
                        &&& #[trigger] is_first_registered_at(
                            old(self).power_consumers@,
                            power_consumer_id@,
                            at,
                        )
                        &&& is_changed_at(*old(self), *final(self), at)
                        &&& #[trigger] is_scheduled(
                            old(self).power_consumers[at],
                            final(self).power_consumers[at],
                            steps@,
                            consumption_duration,
                            now,
                            finish_at,
                        )
                    },
                Err(error) => {
                    &&& is_unchanged(*old(self), *final(self))
                    &&& old(self).switch_actions_scheduler is None ==> error.is_system_error(
                        "Switch actions scheduler is missing"@,
                    )
                    &&& old(self).switch_actions_scheduler is Some && !is_registered(
                        old(self).power_consumers@,
                        power_consumer_id@,
                    ) ==> error.is_not_found("Power consumer not found"@)
                },
            },
    {
        let now = current_instant();
        let scheduled = self.schedule_consumption_plan_at(
            power_consumer_id,
            consumption_duration,
            now,
            finish_at,
        );
        proof {
            if scheduled is Ok {
                let at = choose|at: int|
                    {
                        &&& #[trigger] is_first_registered_at(
                            old(self).power_consumers@,
                            power_consumer_id@,
                            at,
                        )
                        &&& is_changed_at(*old(self), *self, at)
                        &&& is_scheduled(
                            old(self).power_consumers[at],
                            self.power_consumers[at],
                            scheduled->Ok_0@,
                            consumption_duration,
                            now,
                            finish_at,
                        )
                    };
                assert(is_scheduled(
                    old(self).power_consumers[at],
                    self.power_consumers[at],
                    scheduled->Ok_0@,
                    consumption_duration,
                    now,
                    finish_at,
                ));
            }
        }
        scheduled
    }

    /// Cancels the plan of the device `power_consumer_id` at `now`; see
    /// [`PowerConsumer::cancel_consumption_plan`]. An unknown device is not found.
    pub fn cancel_consumption_plan_at(
        &mut self,
        power_consumer_id: String,
        now: i64,
    ) -> (canceled: Result<Vec<SwitchCommand>, AppError>)
        ensures
            old(self).is_well_formed() ==> final(self).is_well_formed(),
            match canceled {
                Ok(commands) => exists|at: int, time_of_day: Seq<char>|
                    {
                        &&& #[trigger] is_first_registered_at(
                            old(self).power_consumers@,
                            power_consumer_id@,
                            at,
                        )
                        &&& is_changed_at(*old(self), *final(self), at)
                        &&& #[trigger] is_canceled(
                            old(self).power_consumers[at],
                            final(self).power_consumers[at],
                            now,
                            time_of_day,
                        )
                        &&& is_cancellation_batch(old(self).power_consumers[at], commands@)
                    },
                Err(error) => {
                    &&& !is_registered(old(self).power_consumers@, power_consumer_id@)
                    &&& error.is_not_found("Power consumer not found"@)
                    &&& is_unchanged(*old(self), *final(self))
                },
            },
    {
        let at = match position_of(&self.power_consumers, &power_consumer_id) {
            Some(at) => at,
            None => {
                return Err(AppError::not_found("Power consumer not found"));
            },
        };
        let commands = self.power_consumers[at].cancel_consumption_plan(now);
        proof {
            assert(is_changed_at(*old(self), *self, at as int));
            if old(self).is_well_formed() {
                lemma_well_formed_kept(*old(self), *self, at as int);
            }
            let time_of_day = choose|time_of_day: Seq<char>| #[trigger]
                is_canceled(
                    old(self).power_consumers[at as int],
                    self.power_consumers[at as int],
                    now,
                    time_of_day,
                );
            assert(is_first_registered_at(old(self).power_consumers@, power_consumer_id@, at as int));
            assert(is_canceled(
                old(self).power_consumers[at as int],
                self.power_consumers[at as int],
                now,
                time_of_day,
            ));
        }
        Ok(commands)
    }

    /// Cancels the plan of the device `power_consumer_id` as of now; see
    /// [`PowerConsumersService::cancel_consumption_plan_at`].
    pub fn cancel_consumption_plan(
        &mut self,
        power_consumer_id: String,
    ) -> (canceled: Result<Vec<SwitchCommand>, AppError>)
        ensures
            old(self).is_well_formed() ==> final(self).is_well_formed(),
            match canceled {
                Ok(commands) => exists|at: int, now: i64, time_of_day: Seq<char>|
                    {
                        &&& #[trigger] is_first_registered_at(
                            old(self).power_consumers@,
                            power_consumer_id@,
                            at,
                        )
                        &&& is_changed_at(*old(self), *final(self), at)
                        &&& #[trigger] is_canceled(
                            old(self).power_consumers[at],
                            final(self).power_consumers[at],
                            now,
                            time_of_day,
                        )
                        &&& is_cancellation_batch(old(self).power_consumers[at], commands@)
                    },
                Err(error) => {
                    &&& !is_registered(old(self).power_consumers@, power_consumer_id@)
                    &&& error.is_not_found("Power consumer not found"@)
                    &&& is_unchanged(*old(self), *final(self))
                },
            },
    {
        let now = current_instant();
        let canceled = self.cancel_consumption_plan_at(power_consumer_id, now);
        proof {
            if canceled is Ok {
                let (at, time_of_day) = choose|at: int, time_of_day: Seq<char>|
                    {
                        &&& #[trigger] is_first_registered_at(
                            old(self).power_consumers@,
                            power_consumer_id@,
                            at,
                        )
                        &&& is_changed_at(*old(self), *self, at)
                        &&& #[trigger] is_canceled(
                            old(self).power_consumers[at],
                            self.power_consumers[at],
                            now,
                            time_of_day,
                        )
                        &&& is_cancellation_batch(old(self).power_consumers[at], canceled->Ok_0@)
                    };
                assert(is_canceled(
                    old(self).power_consumers[at],
                    self.power_consumers[at],
                    now,
                    time_of_day,
                ));
            }
        }
        canceled
    }

    /// Tells what the gateway is to be asked when the time of the switch
    /// action `switch_action_id` of the device `power_consumer_id` has come:
    /// to switch the device as the action says, if the device is registered,
    /// has a plan with that action, and the action is still waiting.
    /// Otherwise nothing is to be done.
    pub fn due_switch_command(
        &self,
        power_consumer_id: &String,
        switch_action_id: u128,
    ) -> (command: Option<SwitchCommand>)
        ensures
            match command {
                Some(command) => {
                    &&& command.entity_id@ == power_consumer_id@
                    &&& exists|at: int| #[trigger]
                        is_first_registered_at(self.power_consumers@, power_consumer_id@, at)
                            && is_waiting_switch(
                            self.power_consumers[at],
                            switch_action_id,
                            command.switch_on,
                        )
                },
                None => forall|at: int, switch_on: bool| #[trigger]
                    is_first_registered_at(self.power_consumers@, power_consumer_id@, at)
                        ==> !#[trigger] is_waiting_switch(
                        self.power_consumers[at],
                        switch_action_id,
                        switch_on,
                    ),
            },
    {
        let at = match position_of(&self.power_consumers, power_consumer_id) {
            Some(at) => at,
            None => {
                return None;
            },
        };
        let power_consumer = &self.power_consumers[at];
        let consumption_plan = match &power_consumer.consumption_plan {
            Some(plan) => plan,
            None => {
                return None;
            },
        };
        let ghost items = consumption_plan@.consumption_plan_items;
        match consumption_plan.get_switch_action_position(switch_action_id) {
            Some((i, j)) => {
                assert(holds_id_at(items, switch_action_id, i as int, j as int));
                assert(items[i as int] == consumption_plan.consumption_plan_items@[i as int]@);
                let switch_action = &consumption_plan.consumption_plan_items[i].switch_actions[j];
                assert(items[i as int].switch_actions[j as int] == switch_action@);
                match switch_action.state {
                    SwitchActionState::Scheduled => {
                        let command = SwitchCommand {
                            entity_id: power_consumer.ha_device_name.clone(),
                            switch_on: switch_action.switch_on,
                        };
                        proof {
                            assert(is_first_with_id(items, switch_action_id, i as int, j as int));
                            assert(is_waiting_switch(
                                self.power_consumers[at as int],
                                switch_action_id,
                                command.switch_on,
                            ));
                            assert(is_first_registered_at(
                                self.power_consumers@,
                                power_consumer_id@,
                                at as int,
                            ));
                        }
                        Some(command)
                    },
                    _ => {
                        proof {
                            assert forall|other: int, switch_on: bool| #[trigger]
                                is_first_registered_at(
                                    self.power_consumers@,
                                    power_consumer_id@,
                                    other,
                                ) implies !#[trigger] is_waiting_switch(
                                self.power_consumers[other],
                                switch_action_id,
                                switch_on,
                            ) by {
                                assert(other == at);
                                if is_waiting_switch(self.power_consumers[other], switch_action_id, switch_on) {
                                    let (a, b) = choose|a: int, b: int|
                                        {
                                            &&& #[trigger] is_first_with_id(items, switch_action_id, a, b)
                                            &&& items[a].switch_actions[b].state
                                                == SwitchActionState::Scheduled
                                            &&& items[a].switch_actions[b].switch_on == switch_on
                                        };
                                    assert(holds_id_at(items, switch_action_id, a, b));
                                    assert(holds_id_at(items, switch_action_id, i as int, j as int));
                                    assert(a == i && b == j);
                                }
                            }
                        }
                        None
                    },
                }
            },
            None => {
                proof {
                    assert forall|other: int, switch_on: bool| #[trigger]
                        is_first_registered_at(
                            self.power_consumers@,
                            power_consumer_id@,
                            other,
                        ) implies !#[trigger] is_waiting_switch(
                        self.power_consumers[other],
                        switch_action_id,
                        switch_on,
                    ) by {
                        assert(other == at);
                        if is_waiting_switch(self.power_consumers[other], switch_action_id, switch_on) {
                            let (a, b) = choose|a: int, b: int|
                                {
                                    &&& #[trigger] is_first_with_id(items, switch_action_id, a, b)
                                    &&& items[a].switch_actions[b].state
                                        == SwitchActionState::Scheduled
                                    &&& items[a].switch_actions[b].switch_on == switch_on
                                };
                            assert(holds_id_at(items, switch_action_id, a, b));
                        }
                    }
                }
                None
            },
        }
    }

    /// Records what the gateway answered at `now` when it was asked to carry
    /// out the switch action `switch_action_id` of the device
    /// `power_consumer_id`, and brings the state of the plan up to date; see
    /// [`is_completed`].
    ///
    /// Nothing changes where the device is not registered, has no plan, or
    /// its plan no such action. Tells whether the action was found.
    pub fn complete_switch_action(
        &mut self,
        power_consumer_id: &String,
        switch_action_id: u128,
        outcome: Result<(), AppError>,
        now: i64,
    ) -> (found: bool)
        ensures
            old(self).is_well_formed() ==> final(self).is_well_formed(),
            !found ==> is_unchanged(*old(self), *final(self)),
            found ==> exists|at: int|
                {
                    &&& #[trigger] is_first_registered_at(
                        old(self).power_consumers@,
                        power_consumer_id@,
                        at,
                    )
                    &&& is_changed_at(*old(self), *final(self), at)
                    &&& old(self).power_consumers[at].consumption_plan is Some
                    &&& final(self).power_consumers[at].consumption_plan is Some
                    &&& is_completed(
                        old(self).power_consumers[at].consumption_plan->0@,
                        final(self).power_consumers[at].consumption_plan->0@,
                        switch_action_id,
                        outcome,
                        now,
                    )
                },
            found == exists|at: int| #[trigger]
                is_first_registered_at(old(self).power_consumers@, power_consumer_id@, at) && (old(
                    self,
                ).power_consumers[at].consumption_plan matches Some(plan) && has_action_with_id(
                    plan@.consumption_plan_items,
                    switch_action_id,
                )),
    {
        let at = match position_of(&self.power_consumers, power_consumer_id) {
            Some(at) => at,
            None => {
                return false;
            },
        };
        let found = match &mut self.power_consumers[at].consumption_plan {
            Some(consumption_plan) => consumption_plan.complete_switch_action_by_id(
                switch_action_id,
                outcome,
                now,
            ),
            None => false,
        };
        proof {
            assert(is_changed_at(*old(self), *self, at as int));
            if old(self).is_well_formed() {
                lemma_well_formed_kept(*old(self), *self, at as int);
            }
            assert(is_first_registered_at(old(self).power_consumers@, power_consumer_id@, at as int));
            if !found {
                assert(self.power_consumers@ =~= old(self).power_consumers@);
                assert forall|other: int| #[trigger]
                    is_first_registered_at(
                        old(self).power_consumers@,
                        power_consumer_id@,
                        other,
                    ) implies other == at by {}
            }
        }
        found
    }

    /// Records what the gateway answered at `now` when it was asked to carry
    /// out the switch action `switch_action_id` of the device
    /// `power_consumer_id`; see [`is_recorded`]. The state of the plan is
    /// left as it is: it is brought up to date once a batch of switches is
    /// through, by [`PowerConsumersService::settle_consumption_plan`].
    ///
    /// Nothing changes where the device is not registered, has no plan, or
    /// its plan no such action. Tells whether the action was found.
    pub fn record_switch_action(
        &mut self,
        power_consumer_id: &String,
        switch_action_id: u128,
        outcome: Result<(), AppError>,
        now: i64,
    ) -> (found: bool)
        ensures
            old(self).is_well_formed() ==> final(self).is_well_formed(),
            !found ==> is_unchanged(*old(self), *final(self)),
            found ==> exists|at: int|
                {
                    &&& #[trigger] is_first_registered_at(
                        old(self).power_consumers@,
                        power_consumer_id@,
                        at,
                    )
                    &&& is_changed_at(*old(self), *final(self), at)
                    &&& old(self).power_consumers[at].consumption_plan is Some
                    &&& final(self).power_consumers[at].consumption_plan is Some
                    &&& is_recorded(
                        old(self).power_consumers[at].consumption_plan->0@,
                        final(self).power_consumers[at].consumption_plan->0@,
                        switch_action_id,
                        outcome,
                        now,
                    )
                },
            found == exists|at: int| #[trigger]
                is_first_registered_at(old(self).power_consumers@, power_consumer_id@, at) && (old(
                    self,
                ).power_consumers[at].consumption_plan matches Some(plan) && has_action_with_id(
                    plan@.consumption_plan_items,
                    switch_action_id,
                )),
    {
        let at = match position_of(&self.power_consumers, power_consumer_id) {
            Some(at) => at,
            None => {
                return false;
            },
        };
        let found = match &mut self.power_consumers[at].consumption_plan {
            Some(consumption_plan) => consumption_plan.execute_switch_action_by_id(
                switch_action_id,
                outcome,
                now,
            ),
            None => false,
        };
        proof {
            assert(is_changed_at(*old(self), *self, at as int));
            if old(self).is_well_formed() {
                lemma_well_formed_kept(*old(self), *self, at as int);
            }
            assert(is_first_registered_at(old(self).power_consumers@, power_consumer_id@, at as int));
            if !found {
                assert(self.power_consumers@ =~= old(self).power_consumers@);
                assert forall|other: int| #[trigger]
                    is_first_registered_at(
                        old(self).power_consumers@,
                        power_consumer_id@,
                        other,
                    ) implies other == at by {}
            }
        }
        found
    }

    /// Brings the state of the plan of the device `power_consumer_id` up to
    /// date: a plan in process with no switch action left waiting has been
    /// executed. Tells whether the device is registered and has a plan.
    pub fn settle_consumption_plan(&mut self, power_consumer_id: &String) -> (found: bool)
        ensures
            old(self).is_well_formed() ==> final(self).is_well_formed(),
            is_settled(*old(self), *final(self), power_consumer_id@, found),
    {
        let at = match position_of(&self.power_consumers, power_consumer_id) {
            Some(at) => at,
            None => {
                return false;
            },
        };
        let found = match &mut self.power_consumers[at].consumption_plan {
            Some(consumption_plan) => {
                switch_consumption_plan_state(consumption_plan);
                true
            },
            None => false,
        };
        proof {
            assert(is_changed_at(*old(self), *self, at as int));
            if old(self).is_well_formed() {
                lemma_well_formed_kept(*old(self), *self, at as int);
            }
            assert(is_first_registered_at(old(self).power_consumers@, power_consumer_id@, at as int));
            if !found {
                assert(self.power_consumers@ =~= old(self).power_consumers@);
                assert forall|other: int| #[trigger]
                    is_first_registered_at(
                        old(self).power_consumers@,
                        power_consumer_id@,
                        other,
                    ) implies other == at by {}
            }
        }
        found
    }

    /// Closes a batch of switch actions of the device `power_consumer_id`
    /// that were due when its plan was scheduled: where any of them was
    /// carried out, `carried_out` being their number, the state of the plan is
    /// brought up to date, once for all of them; see
    /// [`PowerConsumersService::settle_consumption_plan`]. Where none was,
    /// nothing changes.
    pub fn settle_after_batch(
        &mut self,
        power_consumer_id: &String,
        carried_out: usize,
    ) -> (found: bool)
        ensures
            old(self).is_well_formed() ==> final(self).is_well_formed(),
            carried_out == 0 ==> !found && is_unchanged(*old(self), *final(self)),
            carried_out > 0 ==> is_settled(*old(self), *final(self), power_consumer_id@, found),
    {
        if carried_out > 0 {
            self.settle_consumption_plan(power_consumer_id)
        } else {
            false
        }
    }
}

} // verus!
