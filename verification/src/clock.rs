//! The wall clock. Reading the time is the one thing the engine takes
//! from outside on its own; everything computed from it takes the instant
//! as an argument and is verified for every value of it.

use vstd::prelude::*;

verus! {

/// Relies on chrono's `Utc::now` and `DateTime::timestamp_millis`: the
/// current UTC wall-clock time in milliseconds since the Unix epoch.
/// `Utc::now` reads the system clock and aborts the process when that
/// clock is set before 1970, so a returned value is never negative;
/// nothing else is promised, as the clock can be set to anything later.
#[verifier::external_body]
pub(crate) fn now_utc_ms() -> (r: i64)
    ensures
        r >= 0,
{
    chrono::Utc::now().timestamp_millis()
}

} // verus!
