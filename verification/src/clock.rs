use vstd::prelude::*;

verus! {

/// Reads the wall clock: the nanoseconds that `std::time::SystemTime::elapsed`
/// reports for the Unix epoch, or 0 where the clock stands before the epoch.
/// Nothing is claimed of the value: two reads may give any two numbers.
#[verifier::external_body]
pub(crate) fn unix_nanos() -> u128 {
    match std::time::UNIX_EPOCH.elapsed() {
        Ok(since_epoch) => since_epoch.as_nanos(),
        Err(_) => 0,
    }
}

/// `tokio::time::Instant`, a reading of the monotonic clock. It is carried
/// through; nothing of its inside is visible here.
#[verifier::external_type_specification]
#[verifier::external_body]
pub struct ExInstant(tokio::time::Instant);

/// Calls `tokio::time::Instant::now`: a reading of the monotonic clock.
#[verifier::external_body]
pub(crate) fn instant_now() -> tokio::time::Instant {
    tokio::time::Instant::now()
}

/// Calls `tokio::time::Instant::elapsed` and gives the duration in
/// nanoseconds: the time on the monotonic clock since `start` was read.
/// Nothing is claimed of the value.
#[verifier::external_body]
pub(crate) fn nanos_since(start: &tokio::time::Instant) -> u128 {
    start.elapsed().as_nanos()
}

} // verus!
