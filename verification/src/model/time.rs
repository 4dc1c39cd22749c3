use vstd::prelude::*;

verus! {

/// Earliest instant the library works with, in milliseconds since the epoch.
///
/// The bounds lie well inside the range of calendar dates that the date
/// routines can represent, so that adding a day or a time-zone offset to a
/// valid instant never leaves that range.
pub const MIN_INSTANT: i64 = -8_000_000_000_000_000;

/// Latest instant the library works with, in milliseconds since the epoch.
pub const MAX_INSTANT: i64 = 8_000_000_000_000_000;

/// Longest duration the library works with, in milliseconds.
pub const MAX_DURATION: i64 = 8_000_000_000_000_000;

pub const MILLIS_PER_MINUTE: i64 = 60_000;

pub const MILLIS_PER_HOUR: i64 = 3_600_000;

pub const MILLIS_PER_DAY: i64 = 86_400_000;

/// An instant is a number of milliseconds since the epoch within the supported range.
pub open spec fn is_instant(millis: int) -> bool {
    MIN_INSTANT <= millis <= MAX_INSTANT
}

/// A duration is a non-negative number of milliseconds within the supported range.
pub open spec fn is_duration(millis: int) -> bool {
    0 <= millis <= MAX_DURATION
}

pub fn is_valid_instant(millis: i64) -> (valid: bool)
    ensures
        valid == is_instant(millis as int),
{
    MIN_INSTANT <= millis && millis <= MAX_INSTANT
}

pub fn is_valid_duration(millis: i64) -> (valid: bool)
    ensures
        valid == is_duration(millis as int),
{
    0 <= millis && millis <= MAX_DURATION
}

} // verus!
