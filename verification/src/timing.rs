//! How long the server remembers things, and how often it tidies up.
use vstd::prelude::*;

verus! {

/// Seconds that a cache lookup or access check is reused.
pub const LOOKUP_TTL_SECS: u64 = 30;
/// Seconds that an announced upload waits for its NAR.
pub const UPLOAD_SESSION_SECS: u64 = 300;
/// Seconds that a received NAR waits for its confirmation.
pub const FINISH_SESSION_SECS: u64 = 120;
/// Seconds between two sweeps of expired upload sessions.
pub const SESSION_SWEEP_SECS: u64 = 60;
/// Seconds after which one client address may make one more request.
pub const RATE_LIMIT_REPLENISH_SECS: u64 = 10;
/// Requests that one client address may make in a burst.
pub const RATE_LIMIT_BURST: u32 = 20;
/// Seconds between two sweeps of the rate limiter's state.
pub const RATE_LIMIT_SWEEP_SECS: u64 = 600;

/// Whether something `elapsed_nanos` old is younger than `secs` seconds.
pub open spec fn younger_than(elapsed_nanos: u128, secs: u64) -> bool {
    elapsed_nanos < secs * 1_000_000_000
}

/// Whether something `elapsed_nanos` old is younger than `secs` seconds.
pub fn is_younger(elapsed_nanos: u128, secs: u64) -> (r: bool)
    ensures
        r == younger_than(elapsed_nanos, secs),
{
    elapsed_nanos < (secs as u128) * 1_000_000_000u128
}

/// Whether a remembered lookup made `elapsed_nanos` ago may be reused.
pub fn lookup_is_fresh(elapsed_nanos: u128) -> (r: bool)
    ensures
        r == younger_than(elapsed_nanos, LOOKUP_TTL_SECS),
{
    is_younger(elapsed_nanos, LOOKUP_TTL_SECS)
}

/// Whether an upload announced `elapsed_nanos` ago is still kept.
pub fn upload_session_alive(elapsed_nanos: u128) -> (r: bool)
    ensures
        r == younger_than(elapsed_nanos, UPLOAD_SESSION_SECS),
{
    is_younger(elapsed_nanos, UPLOAD_SESSION_SECS)
}

/// Whether a NAR received `elapsed_nanos` ago still waits for confirmation.
pub fn finish_session_alive(elapsed_nanos: u128) -> (r: bool)
    ensures
        r == younger_than(elapsed_nanos, FINISH_SESSION_SECS),
{
    is_younger(elapsed_nanos, FINISH_SESSION_SECS)
}

/// What a remembered lookup, with its age in nanoseconds, still gives:
/// its value while younger than `LOOKUP_TTL_SECS`, nothing after.
pub open spec fn fresh_value<V>(entry: Option<(u128, V)>) -> Option<V> {
    match entry {
        Some((age, v)) => if younger_than(age, LOOKUP_TTL_SECS) { Some(v) } else { None },
        None => None,
    }
}

/// The value of a remembered lookup, if it is still fresh enough to use.
pub fn fresh_entry<V>(entry: Option<(u128, V)>) -> (r: Option<V>)
    ensures
        r == fresh_value(entry),
{
    match entry {
        Some((age, v)) => if lookup_is_fresh(age) { Some(v) } else { None },
        None => None,
    }
}

} // verus!
