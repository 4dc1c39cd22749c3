//! Planning and bookkeeping for price-aware switching of household power consumers.
//!
//! A consumer asks to run for a given duration and to be finished by a given
//! instant. The planner picks the cheapest cells of the price curve that cover
//! the duration, turns them into switch-on and switch-off events, and keeps the
//! state of the resulting plan while the events are executed or canceled.
//!
//! All instants are milliseconds since the Unix epoch (UTC); all durations are
//! milliseconds.
//!
//! * [`model`] holds the data: price-list cells, plans with their items and
//!   switch actions, and errors.
//! * [`price_list_providers`] holds the sources of price lists, day by day,
//!   and the service that puts the days of a period together.
//! * [`power_consumers`] holds the planner, the state of plans under
//!   execution and cancellation, and the registry of devices.
//! * [`calendar`] holds what the library takes from the calendar and the clock.
//! * [`settings`] holds what is configured.
//!
//! The library decides; it does not wait, send or read. Whoever runs it asks
//! the gateway what the library says is to be asked, and tells the library
//! what the gateway answered.

pub mod calendar;
pub mod model;
pub mod power_consumers;
pub mod price_list_providers;
pub mod settings;
