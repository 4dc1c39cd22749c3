pub mod consumption_plan;
pub mod errors;
pub mod identifier;
pub mod price_list;
pub mod text;
pub mod time;

pub use self::consumption_plan::{
    ConsumptionPlan, ConsumptionPlanItem, ConsumptionPlanState, PowerConsumerModel, SwitchAction,
    SwitchActionState,
};
pub use self::errors::{AppError, ErrorMessage};
pub use self::price_list::{Currency, PriceCategory, PriceListItem};
pub use self::time::{is_valid_duration, is_valid_instant, MAX_DURATION, MAX_INSTANT, MIN_INSTANT};
