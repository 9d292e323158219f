//! The time of day, read from the system clock.

use vstd::prelude::*;

verus! {

/// `std::time::SystemTime`, a point in time. Nothing of it is read here.
#[verifier::external_type_specification]
#[verifier::external_body]
pub struct ExSystemTime(std::time::SystemTime);

/// `std::time::SystemTimeError`, the error of `SystemTime::duration_since`.
#[verifier::external_type_specification]
#[verifier::external_body]
pub struct ExSystemTimeError(std::time::SystemTimeError);

/// Calls `SystemTime::now`. Nothing is known of the time that comes back.
#[verifier::external_body]
fn system_now() -> (time: std::time::SystemTime) {
    std::time::SystemTime::now()
}

/// Calls `SystemTime::duration_since` with `UNIX_EPOCH`: the time that has
/// passed since 1970, or an error for a time before it.
#[verifier::external_body]
fn since_epoch(time: &std::time::SystemTime) -> (elapsed: Result<
    std::time::Duration,
    std::time::SystemTimeError,
>) {
    time.duration_since(std::time::UNIX_EPOCH)
}

/// Calls `Duration::as_secs`: the whole seconds of a span of time.
#[verifier::external_body]
fn whole_seconds(elapsed: &std::time::Duration) -> (seconds: u64) {
    elapsed.as_secs()
}

/// The seconds that have passed since the start of 1970, by the system
/// clock. A clock that is set before 1970 reads as 0.
pub(crate) fn unix_seconds() -> (seconds: u64) {
    let time = system_now();
    match since_epoch(&time) {
        Ok(elapsed) => whole_seconds(&elapsed),
        Err(_) => 0,
    }
}

} // verus!
