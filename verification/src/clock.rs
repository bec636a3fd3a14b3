//! The time of day.
use crate::error::AiPassError;
use vstd::prelude::*;

verus! {

/// Wraps `std::time::SystemTime::elapsed` of the Unix epoch, taken in whole seconds. Nothing is
/// claimed of the reading; there is none when the clock stands before the epoch.
#[verifier::external_body]
fn read_clock() -> (r: Option<u64>)
{
    std::time::UNIX_EPOCH.elapsed().ok().map(|since| since.as_secs())
}

/// The clock gave this reading.
pub closed spec fn clock_gave(reading: Option<u64>) -> bool {
    call_ensures(read_clock, (), reading)
}

/// What the function returns.
fn result_of<F: Fn() -> Option<u64>>(read: F) -> (r: Option<u64>)
    requires
        call_requires(read, ()),
    ensures
        call_ensures(read, (), r),
{
    read()
}

/// A reading of the clock, taken now.
pub fn current_reading() -> (r: Option<u64>)
    ensures
        clock_gave(r),
{
    result_of(read_clock)
}

/// What a reading of the clock stands for.
pub open spec fn epoch_seconds(reading: Option<u64>) -> Result<u64, AiPassError> {
    match reading {
        Some(seconds) => Ok(seconds),
        None => Err(AiPassError::ClockUnavailable),
    }
}

/// The seconds of a reading of the clock, if there is one.
pub fn seconds_of(reading: Option<u64>) -> (r: Result<u64, AiPassError>)
    ensures
        r == epoch_seconds(reading),
{
    match reading {
        Some(seconds) => Ok(seconds),
        None => Err(AiPassError::ClockUnavailable),
    }
}

/// The seconds since the Unix epoch.
pub fn now_epoch_seconds() -> (r: Result<u64, AiPassError>)
    ensures
        exists|reading: Option<u64>| clock_gave(reading) && r == #[trigger] epoch_seconds(reading),
{
    seconds_of(current_reading())
}

/// A reading of the clock is the seconds since the epoch, whatever they are; a missing one is a
/// failure.
pub proof fn reading_is_the_seconds(seconds: u64)
    ensures
        epoch_seconds(Some(seconds)) == Ok::<u64, AiPassError>(seconds),
        epoch_seconds(None) == Err::<u64, AiPassError>(AiPassError::ClockUnavailable),
{
}

} // verus!
