//! The wall clock in whole seconds.
use std::time::{Duration, SystemTime, SystemTimeError};
use vstd::prelude::*;

verus! {

/// `std::time::SystemTime`, a reading of the wall clock.
#[verifier::external_type_specification]
#[verifier::external_body]
pub struct ExSystemTime(SystemTime);

/// `std::time::SystemTimeError`, the refusal of a time that lies before another.
#[verifier::external_type_specification]
#[verifier::external_body]
pub struct ExSystemTimeError(SystemTimeError);

/// The time from the Unix epoch to a time; `None` for a time before the epoch.
pub uninterp spec fn epoch_duration(time: SystemTime) -> Option<Duration>;

/// The whole seconds of a duration.
pub uninterp spec fn whole_seconds(duration: Duration) -> u64;

/// `SystemTime::now`: a reading of the wall clock, of which nothing is known beforehand.
#[verifier::external_body]
fn system_now() -> SystemTime {
    SystemTime::now()
}

/// `SystemTime::duration_since` the Unix epoch: the time that has passed since the epoch, or an
/// error for a time before it. Its result is named by the time.
#[verifier::external_body]
fn since_unix_epoch(time: &SystemTime) -> (elapsed: Result<Duration, SystemTimeError>)
    ensures
        match elapsed {
            Ok(duration) => epoch_duration(*time) == Some(duration),
            Err(_) => epoch_duration(*time) is None,
        },
{
    time.duration_since(SystemTime::UNIX_EPOCH)
}

/// `Duration::as_secs`: the whole seconds of a duration, named by the duration.
pub assume_specification[ Duration::as_secs ](duration: &Duration) -> (seconds: u64)
    ensures
        seconds == whole_seconds(*duration),
;

/// The whole seconds since the Unix epoch at a time; `None` for a time before it.
pub open spec fn unix_seconds(time: SystemTime) -> Option<u64> {
    match epoch_duration(time) {
        Some(duration) => Some(whole_seconds(duration)),
        None => None,
    }
}

/// The seconds since the Unix epoch at a time; `None` for a time before it.
pub fn unix_seconds_at(time: &SystemTime) -> (seconds: Option<u64>)
    ensures
        seconds == unix_seconds(*time),
{
    match since_unix_epoch(time) {
        Ok(duration) => Some(duration.as_secs()),
        Err(_) => None,
    }
}

/// The seconds since the Unix epoch at what the wall clock reads; `None` where it reads a time
/// before the epoch. Which time it reads is not stated.
pub fn now_unix_seconds() -> (seconds: Option<u64>)
    ensures
        exists|time: SystemTime| seconds == #[trigger] unix_seconds(time),
{
    let time = system_now();
    unix_seconds_at(&time)
}

/// The seconds of a time are the whole seconds from the epoch to it; a time before the epoch has
/// none.
pub proof fn seconds_are_counted_from_the_epoch(time: SystemTime, duration: Duration)
    ensures
        epoch_duration(time) is None ==> unix_seconds(time) is None,
        epoch_duration(time) == Some(duration) ==> unix_seconds(time) == Some(
            whole_seconds(duration),
        ),
{
}

} // verus!
