use vstd::prelude::*;

verus! {

/// Draws a new random identifier.
///
/// Calls `uuid::Uuid::new_v4` and hands the identifier out as a 128-bit number
/// (`Uuid::as_u128`). The identifier is random, so nothing is claimed about it.
#[verifier::external_body]
pub(crate) fn fresh_id() -> (id: u128) {
    uuid::Uuid::new_v4().as_u128()
}

} // verus!
