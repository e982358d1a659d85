use std::time::{Duration, SystemTime, UNIX_EPOCH};
use vstd::prelude::*;

verus! {

#[verifier::external_type_specification]
#[verifier::external_body]
pub struct ExSystemTime(SystemTime);

/// `SystemTime::now` of std: the reading of the system clock. Nothing is
/// claimed of it.
#[verifier::external_body]
fn system_now() -> SystemTime {
    SystemTime::now()
}

/// `SystemTime::duration_since` of std, from the Unix epoch: the time
/// that passed from the epoch to `at`, or nothing where `at` is before the
/// epoch. Nothing is claimed of it.
#[verifier::external_body]
fn since_epoch(at: &SystemTime) -> Option<Duration> {
    match at.duration_since(UNIX_EPOCH) {
        Ok(d) => Some(d),
        Err(_) => None,
    }
}

/// `Duration::as_nanos` of std: the duration in nanoseconds. Nothing is
/// claimed of it.
#[verifier::external_body]
fn duration_nanos(d: &Duration) -> u128 {
    d.as_nanos()
}

/// Thirty days in nanoseconds.
pub const THIRTY_DAYS_NS: i64 = 2_592_000_000_000_000;

/// The timestamp for a reading of the clock in nanoseconds since the
/// epoch: the reading itself where it fits, the greatest timestamp where
/// it does not, and the epoch where the clock is behind the epoch.
pub open spec fn timestamp_of_reading(reading: Option<u128>) -> i64 {
    match reading {
        Some(n) => if n <= i64::MAX as u128 {
            n as i64
        } else {
            i64::MAX
        },
        None => 0,
    }
}

/// The timestamp for a reading of the clock.
pub fn timestamp_ns(reading: Option<u128>) -> (out: i64)
    ensures
        out == timestamp_of_reading(reading),
        out >= 0,
{
    match reading {
        Some(n) => if n <= i64::MAX as u128 {
            n as i64
        } else {
            i64::MAX
        },
        None => 0,
    }
}

/// The timestamp thirty days before `now`.
pub fn thirty_days_before(now: i64) -> (out: i64)
    requires
        now >= i64::MIN + THIRTY_DAYS_NS,
    ensures
        out == now - THIRTY_DAYS_NS,
{
    now - THIRTY_DAYS_NS
}

/// The time of the system clock, in nanoseconds since the Unix epoch.
pub fn current_timestamp_ns() -> (out: i64)
    ensures
        out >= 0,
{
    let now = system_now();
    let reading = match since_epoch(&now) {
        Some(d) => Some(duration_nanos(&d)),
        None => None,
    };
    timestamp_ns(reading)
}

/// The time of the system clock thirty days ago, in nanoseconds since the
/// Unix epoch.
pub fn thirty_days_before_now_timestamp_ns() -> (out: i64)
    ensures
        out >= -THIRTY_DAYS_NS,
{
    thirty_days_before(current_timestamp_ns())
}

} // verus!
