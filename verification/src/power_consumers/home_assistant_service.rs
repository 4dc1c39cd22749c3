use vstd::prelude::*;
use vstd::string::StringExecFns;

use crate::model::errors::AppError;
use crate::settings::HttpCallConfig;

verus! {

/// What `serde_json` writes for an object with the one member `key`, whose
/// value is the text `value`; or why it could not be written.
pub uninterp spec fn json_object_text(key: Seq<char>, value: Seq<char>) -> Result<
    Seq<char>,
    Seq<char>,
>;

/// A JSON object with the one member `key`, whose value is the text `value`.
///
/// Builds the object as a `serde_json::Value` and writes it with
/// `serde_json::to_string`; a failure comes back as the text of the error.
#[verifier::external_body]
fn write_json_object(key: &str, value: &str) -> (written: Result<String, String>)
    ensures
        match written {
            Ok(text) => json_object_text(key@, value@) == Ok::<Seq<char>, Seq<char>>(text@),
            Err(why) => json_object_text(key@, value@) == Err::<Seq<char>, Seq<char>>(why@),
        },
{
    let mut object = serde_json::Map::new();
    object.insert(key.to_owned(), serde_json::Value::String(value.to_owned()));
    serde_json::to_string(&serde_json::Value::Object(object)).map_err(|error| error.to_string())
}

/// A request to the gateway: where to post, with which token, and what.
#[derive(Debug)]
pub struct SwitchRequest {
    pub url: String,
    pub token: String,
    pub body: String,
}

/// The gateway that switches devices: a Home Assistant server and the
/// token that authorizes requests to it.
#[derive(Debug)]
pub struct HomeAssistantService {
    pub token: String,
    pub base_url: String,
}

/// The name of the service that switches a device on or off.
pub open spec fn switch_operation(switch_on: bool) -> Seq<char> {
    if switch_on {
        "turn_on"@
    } else {
        "turn_off"@
    }
}

/// The address of the service that switches a device on or off.
pub open spec fn switch_url(base_url: Seq<char>, switch_on: bool) -> Seq<char> {
    base_url + "/api/services/switch/"@ + switch_operation(switch_on)
}

impl HomeAssistantService {
    pub fn new(home_assistant_config: &HttpCallConfig) -> (service: Self)
        ensures
            service.token@ == home_assistant_config.token@,
            service.base_url@ == home_assistant_config.base_url@,
    {
        Self {
            token: home_assistant_config.token.clone(),
            base_url: home_assistant_config.base_url.clone(),
        }
    }

    /// The request that switches the device `device_name` on or off.
    ///
    /// Without a token no request is made: that is a system error, and so
    /// is a device name that cannot be written into the body.
    pub fn switch_request(
        &self,
        device_name: &str,
        switch_on: bool,
    ) -> (request: Result<SwitchRequest, AppError>)
        ensures
            match request {
                Ok(request) => {
                    &&& self.token@.len() > 0
                    &&& request.url@ == switch_url(self.base_url@, switch_on)
                    &&& request.token@ == self.token@
                    &&& json_object_text("entity_id"@, device_name@) == Ok::<Seq<char>, Seq<char>>(
                        request.body@,
                    )
                },
                Err(error) => if self.token@.len() == 0 {
                    error.is_system_error("Home assistant authorization token is missing"@)
                } else {
                    json_object_text("entity_id"@, device_name@) matches Err(why)
                        && error.is_system_error(
                        "Home assistant request serialization error: "@ + why,
                    )
                },
            },
    {
        if self.token.as_str().is_empty() {
            return Err(AppError::system_error("Home assistant authorization token is missing"));
        }
        let operation = if switch_on {
            "turn_on"
        } else {
            "turn_off"
        };
        let url = self.base_url.clone().concat("/api/services/switch/").concat(operation);
        match write_json_object("entity_id", device_name) {
            Ok(body) => Ok(SwitchRequest { url, token: self.token.clone(), body }),
            Err(why) => {
                let message = String::from_str("Home assistant request serialization error: ").concat(
                    why.as_str(),
                );
                Err(AppError::system_error(message.as_str()))
            },
        }
    }
}

} // verus!
