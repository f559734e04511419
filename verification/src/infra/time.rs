use vstd::prelude::*;

use std::time::{Duration, Instant};

verus! {

/// Milliseconds since an arbitrary origin.
pub type TimestampMs = u64;

#[verifier::external_type_specification]
#[verifier::external_body]
pub struct ExInstant(std::time::Instant);

/// `Instant` is `Copy`: its `clone` (used by `Clock`'s derived `Clone`)
/// returns the same instant.
pub assume_specification[ <std::time::Instant as Clone>::clone ](i: &Instant) -> (r: Instant)
    ensures
        r == *i,
;

/// Calls `std::time::Instant::now`. The value depends on the clock, so
/// nothing is stated of it.
#[verifier::external_body]
fn instant_now() -> Instant {
    Instant::now()
}

/// Calls `std::time::Instant::elapsed`. The elapsed time depends on the
/// clock, so nothing is stated of it.
#[verifier::external_body]
fn instant_elapsed(start: &Instant) -> Duration {
    start.elapsed()
}

/// Calls `std::time::Duration::as_secs`. `Duration` is held opaque here, so
/// its whole seconds cannot be named; nothing is stated.
#[verifier::external_body]
fn duration_secs(d: &Duration) -> u64 {
    d.as_secs()
}

/// Calls `std::time::Duration::subsec_nanos`, which its documentation says
/// is below one second.
#[verifier::external_body]
fn duration_subsec_nanos(d: &Duration) -> (r: u32)
    ensures
        r < 1_000_000_000,
{
    d.subsec_nanos()
}

/// Whole milliseconds in a duration of `secs` seconds and `nanos`
/// nanoseconds, wrapped to 64 bits.
pub open spec fn millis_of(secs: u64, nanos: u32) -> int {
    (secs * 1000 + nanos / 1_000_000) % 0x1_0000_0000_0000_0000
}

/// Whole milliseconds of a duration given as seconds and sub-second
/// nanoseconds, truncated to 64 bits.
pub fn millis_from_parts(secs: u64, nanos: u32) -> (r: TimestampMs)
    ensures
        r as int == millis_of(secs, nanos),
{
    let ms: u128 = secs as u128 * 1000 + (nanos / 1_000_000) as u128;
    let r = ms as u64;
    assert(r == ms % 0x1_0000_0000_0000_0000) by (bit_vector)
        requires
            r == ms as u64,
    ;
    r
}

/// A monotonic clock counting from its creation.
#[derive(Debug, Clone)]
pub struct Clock {
    start: Instant,
}

impl Clock {
    pub fn new() -> Self {
        Clock { start: instant_now() }
    }

    /// Milliseconds elapsed since the clock was created.
    pub fn now_ms(&self) -> TimestampMs {
        let elapsed = instant_elapsed(&self.start);
        millis_from_parts(duration_secs(&elapsed), duration_subsec_nanos(&elapsed))
    }
}

} // verus!
