//! The system clock, as time since the Unix epoch.

use std::time::{Duration, SystemTime, SystemTimeError};
use vstd::prelude::*;

verus! {

/// A point on the system clock.
#[verifier::external_type_specification]
#[verifier::external_body]
pub struct ExSystemTime(SystemTime);

/// The error of [`SystemTime::duration_since`].
#[verifier::external_type_specification]
#[verifier::external_body]
pub struct ExSystemTimeError(SystemTimeError);

/// Nanoseconds from the Unix epoch to a point on the system clock; negative before the epoch.
pub uninterp spec fn instant_nanos(t: SystemTime) -> int;

/// Nanoseconds that a duration lasts.
pub uninterp spec fn span_nanos(d: Duration) -> nat;

/// `SystemTime::now` reads the clock of the machine: nothing is promised of what it says.
pub assume_specification[ SystemTime::now ]() -> SystemTime;

/// `SystemTime::duration_since` gives the time from `earlier` to `later`, and an error exactly
/// where `earlier` is the later of the two.
pub assume_specification[ SystemTime::duration_since ](
    later: &SystemTime,
    earlier: SystemTime,
) -> (span: Result<Duration, SystemTimeError>)
    ensures
        span is Ok <==> instant_nanos(earlier) <= instant_nanos(*later),
        span matches Ok(d) ==> span_nanos(d) == instant_nanos(*later) - instant_nanos(earlier),
;

/// `Duration::as_millis` counts the whole milliseconds.
pub assume_specification[ Duration::as_millis ](d: &Duration) -> (millis: u128)
    ensures
        millis == span_nanos(*d) / 1_000_000,
;

/// `Duration::as_secs` counts the whole seconds.
pub assume_specification[ Duration::as_secs ](d: &Duration) -> (secs: u64)
    ensures
        secs == span_nanos(*d) / 1_000_000_000,
;

/// The constant `SystemTime::UNIX_EPOCH` is the origin from which [`instant_nanos`] counts.
#[verifier::external_body]
fn unix_epoch() -> (epoch: SystemTime)
    ensures
        instant_nanos(epoch) == 0,
{
    SystemTime::UNIX_EPOCH
}

/// Whole milliseconds since the Unix epoch, in the low bits of an `i64`; 0 before it.
pub open spec fn unix_millis_of(t: SystemTime) -> i64 {
    if instant_nanos(t) >= 0 {
        (instant_nanos(t) / 1_000_000) as i64
    } else {
        0
    }
}

/// Whole seconds since the Unix epoch, in the low bits of an `i64`; 0 before it.
pub open spec fn unix_secs_of(t: SystemTime) -> i64 {
    if instant_nanos(t) >= 0 {
        (instant_nanos(t) / 1_000_000_000) as i64
    } else {
        0
    }
}

/// The milliseconds that a clock reading stands for.
pub fn unix_millis(t: SystemTime) -> (millis: i64)
    ensures
        millis == unix_millis_of(t),
{
    match t.duration_since(unix_epoch()) {
        Ok(span) => span.as_millis() as i64,
        Err(_) => 0,
    }
}

/// The seconds that a clock reading stands for.
pub fn unix_secs(t: SystemTime) -> (secs: i64)
    ensures
        secs == unix_secs_of(t),
{
    match t.duration_since(unix_epoch()) {
        Ok(span) => span.as_secs() as i64,
        Err(_) => 0,
    }
}

} // verus!
