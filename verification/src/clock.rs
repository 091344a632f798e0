//! The wall clock, read in whole seconds since the Unix epoch.
use vstd::prelude::*;

use std::time::{Duration, SystemTime, SystemTimeError};

verus! {

/// `std::time::SystemTime`, a point in time of the system clock; opaque.
#[verifier::external_type_specification]
#[verifier::external_body]
pub struct ExSystemTime(SystemTime);

/// `std::time::SystemTimeError`, a clock reading before the epoch; opaque.
#[verifier::external_type_specification]
#[verifier::external_body]
pub struct ExSystemTimeError(SystemTimeError);

/// The current time of the system clock (`SystemTime::now`); nothing is
/// claimed of its value.
#[verifier::external_body]
fn system_time_now() -> SystemTime {
    SystemTime::now()
}

/// The time elapsed from the Unix epoch to `t`, or an error where `t` lies
/// before it (`SystemTime::duration_since(UNIX_EPOCH)`); nothing is claimed
/// of the value.
#[verifier::external_body]
fn since_unix_epoch(t: &SystemTime) -> Result<Duration, SystemTimeError> {
    t.duration_since(std::time::UNIX_EPOCH)
}

/// The whole seconds of `d` (`Duration::as_secs`); nothing is claimed of
/// the value, which the library cannot see inside a `Duration`.
#[verifier::external_body]
fn whole_seconds(d: &Duration) -> u64 {
    d.as_secs()
}

/// The Unix time in whole seconds from what the clock gave: the whole
/// seconds elapsed since the epoch, or 0 (`None`) where the clock read a
/// time before it.
pub fn unix_seconds(elapsed_secs: Option<u64>) -> (s: u64)
    ensures
        s == match elapsed_secs {
            Some(x) => x,
            None => 0,
        },
{
    match elapsed_secs {
        Some(x) => x,
        None => 0,
    }
}

/// The current Unix time in whole seconds, or 0 where the clock reads a time
/// before the epoch.
pub fn now_unix() -> u64 {
    let elapsed_secs = match since_unix_epoch(&system_time_now()) {
        Ok(d) => Some(whole_seconds(&d)),
        Err(_) => None,
    };
    unix_seconds(elapsed_secs)
}

} // verus!
