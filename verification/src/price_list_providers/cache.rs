//! The store of price lists that were fetched before.
//!
//! The store is a `moka::sync::Cache`. What can be read from it is named
//! here, and the calls say how it changes: the store lets go of entries
//! when it sees fit, so after a call it may hold less than was handed to
//! it, never more and never anything else. The store changes behind a shared
//! reference; the calls that may change it take it by unique reference
//! here, and the library hands no second handle on it to anyone.

use std::sync::Arc;
use vstd::prelude::*;

use crate::model::price_list::PriceListItem;

verus! {

#[verifier::external_type_specification]
#[verifier::external_body]
#[verifier::reject_recursive_types(K)]
#[verifier::reject_recursive_types(V)]
#[verifier::reject_recursive_types(S)]
pub struct ExCache<K, V, S>(moka::sync::Cache<K, V, S>);

/// The price lists that can be read from the store, by the start of their day.
pub uninterp spec fn held_price_lists(
    cache: moka::sync::Cache<i64, Arc<Vec<PriceListItem>>>,
) -> Map<i64, Seq<PriceListItem>>;

/// Whatever is read from `after` under a day is read from `before` under
/// that day: nothing was added and nothing changed.
pub open spec fn is_kept_from(
    after: Map<i64, Seq<PriceListItem>>,
    before: Map<i64, Seq<PriceListItem>>,
) -> bool {
    forall|for_day: i64| #[trigger]
        after.contains_key(for_day) ==> before.contains_key(for_day) && after[for_day]
            == before[for_day]
}

/// The number of entries that the store was made for; it stays as it is.
pub uninterp spec fn store_limit(cache: moka::sync::Cache<i64, Arc<Vec<PriceListItem>>>) -> u64;

/// A store for the price lists of up to `max_capacity` days.
///
/// Calls `moka::sync::Cache::new`, which makes an empty cache that will
/// store up to `max_capacity` entries.
#[verifier::external_body]
pub(crate) fn new_price_list_cache(
    max_capacity: u64,
) -> (store: moka::sync::Cache<i64, Arc<Vec<PriceListItem>>>)
    ensures
        forall|for_day: i64| !held_price_lists(store).contains_key(for_day),
        store_limit(store) == max_capacity,
{
    moka::sync::Cache::new(max_capacity)
}

/// Tells whether the store holds a price list for the day that starts at `for_day`.
///
/// Calls `moka::sync::Cache::contains_key`, which looks the key up and
/// leaves the cache as it is.
#[verifier::external_body]
pub(crate) fn holds_price_list(
    cache: &moka::sync::Cache<i64, Arc<Vec<PriceListItem>>>,
    for_day: i64,
) -> (held: bool)
    ensures
        held == held_price_lists(*cache).contains_key(for_day),
{
    cache.contains_key(&for_day)
}

/// The price list that the store holds for the day that starts at `for_day`.
///
/// Calls `moka::sync::Cache::get`, which hands out the value stored under
/// the key, if there is one, and then may let go of entries.
#[verifier::external_body]
pub(crate) fn held_price_list(
    cache: &mut moka::sync::Cache<i64, Arc<Vec<PriceListItem>>>,
    for_day: i64,
) -> (price_list: Option<Arc<Vec<PriceListItem>>>)
    ensures
        match price_list {
            Some(list) => held_price_lists(*old(cache)).contains_key(for_day) && list@
                == held_price_lists(*old(cache))[for_day],
            None => !held_price_lists(*old(cache)).contains_key(for_day),
        },
        is_kept_from(held_price_lists(*final(cache)), held_price_lists(*old(cache))),
        store_limit(*final(cache)) == store_limit(*old(cache)),
{
    cache.get(&for_day)
}

/// Hands the price list of the day that starts at `for_day` to the store.
///
/// Calls `moka::sync::Cache::insert`, which stores the value under the key,
/// in the place of a value that was stored under it before, and then may
/// let go of entries, of this one too.
#[verifier::external_body]
pub(crate) fn hold_price_list(
    cache: &mut moka::sync::Cache<i64, Arc<Vec<PriceListItem>>>,
    for_day: i64,
    price_list: Arc<Vec<PriceListItem>>,
)
    ensures
        is_kept_from(
            held_price_lists(*final(cache)),
            held_price_lists(*old(cache)).insert(for_day, price_list@),
        ),
        store_limit(*final(cache)) == store_limit(*old(cache)),
{
    cache.insert(for_day, price_list)
}

} // verus!
