use vstd::prelude::*;

use crate::price_list_providers::tariff_selector::TariffTypes;

verus! {

/// Where the gateway is and the token that authorizes requests to it.
#[derive(Debug)]
pub struct HttpCallConfig {
    pub base_url: String,
    pub token: String,
}

/// A device to plan for: the name by which the gateway knows it, and the
/// name to show.
#[derive(Debug)]
pub struct PowerConsumerConfig {
    pub device_id: String,
    pub name: String,
}

#[derive(Debug)]
pub struct Settings {
    pub application_port: u16,
    pub tariff_type: TariffTypes,
    pub home_assistant_config: HttpCallConfig,
    pub power_consumers: Vec<PowerConsumerConfig>,
}

} // verus!
