//! Wall-clock readings. The value depends on when it is taken, so nothing
//! is promised of it; the functions that use it say what holds for every
//! reading.
use vstd::prelude::*;

verus! {

/// Seconds since the Unix epoch (`SystemTime::now().duration_since(UNIX_EPOCH)`,
/// zero when the clock is before the epoch). Nothing is stated of the value.
#[verifier::external_body]
pub(crate) fn current_timestamp_secs() -> u64 {
    std::time::SystemTime::now().duration_since(std::time::UNIX_EPOCH).unwrap_or_default().as_secs()
}

/// Milliseconds since the Unix epoch (zero when the clock is before the
/// epoch, truncated to 64 bits). Nothing is stated of the value.
#[verifier::external_body]
pub(crate) fn current_timestamp_millis() -> u64 {
    std::time::SystemTime::now().duration_since(std::time::UNIX_EPOCH).map(|d| d.as_millis() as u64).unwrap_or(0u64)
}

} // verus!
