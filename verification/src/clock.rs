//! Readings of the machine's clocks, through `std::time`. Nothing is promised of
//! a reading: each depends on the moment it is taken.

use std::time::{Duration, Instant, SystemTime};
use vstd::prelude::*;

verus! {

/// `std::time::Instant`, a reading of the monotonic clock; opaque here.
#[verifier::external_type_specification]
#[verifier::external_body]
pub struct ExInstant(Instant);

/// `std::time::SystemTime`, a reading of the wall clock; opaque here.
#[verifier::external_type_specification]
#[verifier::external_body]
pub struct ExSystemTime(SystemTime);

/// `Instant::now`: the monotonic clock now. Nothing is stated of it.
#[verifier::external_body]
pub(crate) fn instant_now() -> Instant {
    Instant::now()
}

/// `Instant - Instant` (`Sub`): the span from `earlier` to `later`, zero when
/// `later` is the earlier one (the std documentation says it saturates).
/// Nothing is stated of it.
#[verifier::external_body]
pub(crate) fn instant_span(later: Instant, earlier: Instant) -> Duration {
    later - earlier
}

/// `Instant::elapsed`: the span from `start` to now. Nothing is stated of it.
#[verifier::external_body]
pub(crate) fn instant_elapsed(start: &Instant) -> Duration {
    start.elapsed()
}

/// `Duration::as_nanos`: the span in whole nanoseconds. The span is opaque
/// here, so nothing is stated of the number.
#[verifier::external_body]
pub(crate) fn duration_nanos(d: &Duration) -> u128 {
    d.as_nanos()
}

/// `Duration::as_secs`: the span in whole seconds. The span is opaque here, so
/// nothing is stated of the number.
#[verifier::external_body]
pub(crate) fn duration_secs(d: &Duration) -> u64 {
    d.as_secs()
}

/// `SystemTime::now`: the wall clock now. Nothing is stated of it.
#[verifier::external_body]
pub(crate) fn system_now() -> SystemTime {
    SystemTime::now()
}

/// `SystemTime::duration_since(UNIX_EPOCH)`: the span since the Unix epoch, or
/// `None` where the reading lies before it. Nothing is stated of it.
#[verifier::external_body]
pub(crate) fn since_unix_epoch(t: &SystemTime) -> Option<Duration> {
    t.duration_since(SystemTime::UNIX_EPOCH).ok()
}

/// Whole seconds since the Unix epoch on the wall clock; 0 for a reading before
/// the epoch, which is what the zero span (the default) measures.
pub(crate) fn unix_seconds() -> u64 {
    let now = system_now();
    match since_unix_epoch(&now) {
        Some(d) => duration_secs(&d),
        None => 0,
    }
}

/// Nanoseconds since the Unix epoch on the wall clock, cut to 64 bits; 0 for a
/// reading before the epoch.
pub(crate) fn unix_nanos() -> u64 {
    let now = system_now();
    match since_unix_epoch(&now) {
        Some(d) => duration_nanos(&d) as u64,
        None => 0,
    }
}

} // verus!
