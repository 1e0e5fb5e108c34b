//! Wall-clock time.

use std::time::{Duration, SystemTime, SystemTimeError};

use vstd::prelude::*;

verus! {

#[verifier::external_type_specification]
#[verifier::external_body]
pub struct ExSystemTime(SystemTime);

#[verifier::external_type_specification]
#[verifier::external_body]
pub struct ExSystemTimeError(SystemTimeError);

/// `SystemTime::now`: the current wall-clock time. Nothing is claimed of it.
#[verifier::external_body]
fn system_now() -> SystemTime {
    SystemTime::now()
}

/// `SystemTime::duration_since(UNIX_EPOCH)`: the time elapsed since the UNIX
/// epoch, or an error when `t` lies before it. Nothing is claimed of which
/// comes back: the type is opaque here.
#[verifier::external_body]
fn duration_since_epoch(t: &SystemTime) -> Result<Duration, SystemTimeError> {
    t.duration_since(std::time::UNIX_EPOCH)
}

/// `Duration::as_millis`: the whole milliseconds of `d`. Nothing is claimed
/// of the value: the type is opaque here.
#[verifier::external_body]
fn duration_as_millis(d: &Duration) -> u128 {
    d.as_millis()
}

/// Milliseconds since the epoch cut to 64 bits (as `as u64` does); `None`
/// stays `None`.
pub fn millis_as_u64(ms: Option<u128>) -> (r: Option<u64>)
    ensures
        r == match ms {
            Some(m) => Some(m as u64),
            None => None::<u64>,
        },
{
    match ms {
        Some(m) => Some(m as u64),
        None => None,
    }
}

/// The current time in milliseconds since the UNIX epoch, truncated to 64
/// bits; `None` when the system clock is set before the epoch. The clock
/// reading itself is not stated; what is done with it is
/// [`millis_as_u64`].
pub fn unix_as_millis() -> Option<u64> {
    let now = system_now();
    let ms: Option<u128> = match duration_since_epoch(&now) {
        Ok(d) => Some(duration_as_millis(&d)),
        Err(_) => None,
    };
    millis_as_u64(ms)
}

} // verus!
