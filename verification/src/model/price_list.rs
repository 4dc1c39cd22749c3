use vstd::prelude::*;

use super::time::{is_duration, is_instant, MAX_DURATION, MAX_INSTANT, MIN_INSTANT};

verus! {

/// A price in hundred-thousandths of the currency unit; lower is cheaper.
pub type Currency = i32;

#[derive(Clone, Copy, Debug, PartialEq, Eq, Structural)]
pub enum PriceCategory {
    Min,
    Medium,
    Max,
}

/// One cell of a price curve: from `starts_at`, for `duration`, energy costs `price`.
///
/// Twenty-four cells make a daily price list; each cell ends where the next one starts.
/// The `weight` is filled in by the planner and orders cells of equal price.
#[derive(Clone, Copy, Debug, PartialEq, Eq, Structural)]
pub struct PriceListItem {
    pub starts_at: i64,
    pub duration: i64,
    pub price: Currency,
    pub weight: i64,
    pub category: PriceCategory,
}

impl PriceListItem {
    /// The instant at which the cell ends.
    pub open spec fn end(self) -> int {
        self.starts_at + self.duration
    }

    /// A cell starts at a supported instant and lasts for a positive, supported duration.
    pub open spec fn is_valid(self) -> bool {
        &&& is_instant(self.starts_at as int)
        &&& is_duration(self.duration as int)
        &&& self.duration > 0
    }

    pub fn new(
        starts_at: i64,
        duration: i64,
        price: Currency,
        category: PriceCategory,
    ) -> (item: Self)
        ensures
            item == (PriceListItem { starts_at, duration, price, weight: 0, category }),
    {
        Self { starts_at, duration, price, weight: 0, category }
    }

    pub fn starts_at(&self) -> (starts_at: i64)
        ensures
            starts_at == self.starts_at,
    {
        self.starts_at
    }

    pub fn duration(&self) -> (duration: i64)
        ensures
            duration == self.duration,
    {
        self.duration
    }

    pub fn price(&self) -> (price: Currency)
        ensures
            price == self.price,
    {
        self.price
    }

    pub fn weight(&self) -> (weight: i64)
        ensures
            weight == self.weight,
    {
        self.weight
    }

    pub fn set_weight(&mut self, weight: i64)
        ensures
            *final(self) == (PriceListItem { weight, ..*old(self) }),
    {
        self.weight = weight;
    }

    /// Tells whether the cell satisfies [`PriceListItem::is_valid`].
    pub fn check_valid(&self) -> (valid: bool)
        ensures
            valid == self.is_valid(),
    {
        MIN_INSTANT <= self.starts_at && self.starts_at <= MAX_INSTANT && 0 < self.duration
            && self.duration <= MAX_DURATION
    }

    /// The instant at which the cell ends.
    pub fn ends_at(&self) -> (end: i64)
        requires
            self.is_valid(),
        ensures
            end == self.end(),
    {
        self.starts_at + self.duration
    }
}

/// The price in whole cents: the price with its last three digits cut off.
///
/// Prices that agree in whole cents count as the same price when the planner
/// looks for stretches of equally priced cells.
pub open spec fn price_in_cents(price: Currency) -> int {
    if price >= 0 {
        price as int / 1000
    } else {
        -((-(price as int)) / 1000)
    }
}

pub fn whole_cents(price: Currency) -> (cents: i32)
    ensures
        cents == price_in_cents(price),
{
    if price >= 0 {
        price / 1000
    } else if price == i32::MIN {
        -2_147_483
    } else {
        -((-price) / 1000)
    }
}

} // verus!
