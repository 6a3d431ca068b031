//! The wall clock, as milliseconds since the Unix epoch.
use vstd::prelude::*;

verus! {

#[verifier::external_type_specification]
#[verifier::external_body]
pub struct ExSystemTime(std::time::SystemTime);

/// The current time (`std::time::SystemTime::now`); which time comes out is
/// left open.
#[verifier::external_body]
fn system_now() -> std::time::SystemTime {
    std::time::SystemTime::now()
}

/// The time elapsed since the Unix epoch (`SystemTime::duration_since` with
/// `UNIX_EPOCH`), or `None` for a time before the epoch; which is left open.
#[verifier::external_body]
fn since_epoch(t: &std::time::SystemTime) -> Option<std::time::Duration> {
    t.duration_since(std::time::UNIX_EPOCH).ok()
}

/// The whole milliseconds of a duration (`Duration::as_millis`); the value is
/// not stated.
#[verifier::external_body]
fn whole_millis(d: &std::time::Duration) -> u128 {
    d.as_millis()
}

/// Milliseconds since the Unix epoch, or `None` when the clock stands before it.
pub fn now_millis() -> Option<u128> {
    let now = system_now();
    match since_epoch(&now) {
        Some(d) => Some(whole_millis(&d)),
        None => None,
    }
}

} // verus!
