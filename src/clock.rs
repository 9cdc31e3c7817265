//! The authority's current day, as a Julian day number.
use vstd::prelude::*;

verus! {

/// Relies on time's `OffsetDateTime::now_utc` for the current instant, read
/// as the Julian day number of its UTC date (`Date::to_julian_day`).
#[verifier::external_body]
fn julian_day_now() -> (r: i32) {
    time::OffsetDateTime::now_utc().date().to_julian_day()
}

/// The day number of a Julian day, if it is not negative.
pub open spec fn day_number(julian: i32) -> Option<u32> {
    if julian >= 0 {
        Some(julian as u32)
    } else {
        None
    }
}

/// Converts a Julian day to a day number; `None` for days before the epoch
/// of the Julian calendar.
pub fn day_from_julian(julian: i32) -> (r: Option<u32>)
    ensures
        r == day_number(julian),
{
    if julian >= 0 {
        Some(julian as u32)
    } else {
        None
    }
}

/// Today's day number, read from the clock; `None` only for a clock set
/// before the epoch of the Julian calendar.
pub fn today() -> (r: Option<u32>)
    ensures
        r matches Some(d) ==> d <= i32::MAX,
{
    day_from_julian(julian_day_now())
}

} // verus!
