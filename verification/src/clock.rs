//! Wall-clock readings. Time is not a function of anything the library
//! holds, so nothing is claimed of the values; callers take them as inputs.
use vstd::prelude::*;

verus! {

/// Whole seconds since the Unix epoch, `0` for a clock set before it.
/// Calls `SystemTime::now().duration_since(UNIX_EPOCH)`, then
/// `unwrap_or_default().as_secs()`; nothing is claimed of the value.
#[verifier::external_body]
pub(crate) fn unix_time_secs() -> (t: u64) {
    std::time::SystemTime::now().duration_since(std::time::UNIX_EPOCH).unwrap_or_default().as_secs()
}

/// Milliseconds since the Unix epoch, `0` for a clock set before it (and
/// `i64::MAX` past what an `i64` holds). Calls
/// `SystemTime::now().duration_since(UNIX_EPOCH)`, then
/// `unwrap_or_default().as_millis()`, converted with `i64::try_from`; only
/// that the value is not negative is claimed.
#[verifier::external_body]
pub(crate) fn wall_clock_millis() -> (t: i64)
    ensures
        t >= 0,
{
    let ms = std::time::SystemTime::now().duration_since(std::time::UNIX_EPOCH).unwrap_or_default().as_millis();
    i64::try_from(ms).unwrap_or(i64::MAX)
}

} // verus!
