//! Devices that consume power, and the plans by which they do so cheaply.
//!
//! * [`selection`] picks the cells of a plan from a price list;
//!   [`selection_laws`] says what holds of every plan picked so, and
//!   [`ordering`] what holds of the orders it uses.
//! * [`switching`] turns the picked cells into switch actions.
//! * [`plan_state`] and [`switch_actions_scheduler`] follow a plan through
//!   scheduling, execution and cancellation; [`plan_invariant`] says what
//!   holds of a plan all the while.
//! * [`power_consumer`] is a device with its plan, [`power_consumers_service`]
//!   the registry of devices, and [`home_assistant_service`] the description
//!   of a request to the gateway.

pub mod home_assistant_service;
pub mod ordering;
pub mod plan_invariant;
pub mod plan_state;
pub mod power_consumer;
pub mod power_consumers_service;
pub mod selection;
pub mod selection_laws;
pub mod switch_actions_scheduler;
pub mod switching;

pub use self::home_assistant_service::HomeAssistantService;
pub use self::power_consumer::PowerConsumer;
pub use self::power_consumers_service::PowerConsumersService;
pub use self::switch_actions_scheduler::SwitchActionsScheduler;
