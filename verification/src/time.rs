//! The wall clock and spans of time, taken on trust of std.

use std::time::{Duration, SystemTime, UNIX_EPOCH};
use vstd::prelude::*;

verus! {

/// An instant of the wall clock of std. Nothing of its inside is known here.
#[verifier::external_type_specification]
#[verifier::external_body]
pub struct ExSystemTime(SystemTime);

/// Calls `SystemTime::now` of std. Nothing is claimed of the instant: two
/// reads may differ in either direction.
#[verifier::external_body]
pub(crate) fn system_time_now() -> (t: SystemTime) {
    SystemTime::now()
}

/// Calls `SystemTime::duration_since` of std with the Unix epoch. Nothing is
/// claimed of the result; there is none for an instant before the epoch.
#[verifier::external_body]
pub(crate) fn since_unix_epoch(t: &SystemTime) -> (d: Option<Duration>) {
    t.duration_since(UNIX_EPOCH).ok()
}

/// The whole milliseconds of a span of time, as `Duration::as_millis` of std
/// gives them, narrowed to 64 bits.
pub uninterp spec fn duration_millis(d: Duration) -> u64;

/// The whole seconds of a span of time, as `Duration::as_secs` of std gives
/// them.
pub uninterp spec fn duration_secs(d: Duration) -> u64;

/// Calls `Duration::as_millis` of std and narrows the result to 64 bits.
/// The contract claims that the result depends on the span alone.
#[verifier::external_body]
pub(crate) fn duration_to_ms(d: Duration) -> (ms: u64)
    ensures
        ms == duration_millis(d),
{
    d.as_millis() as u64
}

/// Calls `Duration::as_secs` of std. The contract claims that the result
/// depends on the span alone.
#[verifier::external_body]
pub(crate) fn duration_to_secs(d: Duration) -> (secs: u64)
    ensures
        secs == duration_secs(d),
{
    d.as_secs()
}

/// Calls `Duration::from_millis` of std. The contract claims that the span
/// has the milliseconds it was made of.
#[verifier::external_body]
pub(crate) fn duration_from_ms(ms: u64) -> (d: Duration)
    ensures
        duration_millis(d) == ms,
{
    Duration::from_millis(ms)
}

/// The wall clock in milliseconds since the Unix epoch, zero if the clock
/// stands before it.
pub(crate) fn wall_clock_ms() -> (now: u64) {
    match since_unix_epoch(&system_time_now()) {
        Some(d) => duration_to_ms(d),
        None => 0,
    }
}

/// The wall clock in whole seconds since the Unix epoch, zero if the clock
/// stands before it.
pub(crate) fn wall_clock_secs() -> (now: u64) {
    match since_unix_epoch(&system_time_now()) {
        Some(d) => duration_to_secs(d),
        None => 0,
    }
}

} // verus!
