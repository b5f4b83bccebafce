//! Frame timing: elapsed wall-clock time between simulation steps.
use vstd::prelude::*;
use crate::player::MAX_STEP_MS;

verus! {

#[verifier::external_type_specification]
#[verifier::external_body]
pub struct ExInstant(std::time::Instant);

/// Relies on `std::time::Instant::now`: a reading of the monotonic clock.
#[verifier::external_body]
fn clock_now() -> (r: std::time::Instant) {
    std::time::Instant::now()
}

/// Relies on `std::time::Instant::saturating_duration_since`: the time from
/// `earlier` to `later`, zero if `earlier` is the later one.
#[verifier::external_body]
fn time_between(later: &std::time::Instant, earlier: &std::time::Instant) -> (r: std::time::Duration) {
    later.saturating_duration_since(*earlier)
}

/// Relies on `std::time::Duration::as_millis`: the whole milliseconds of a duration.
#[verifier::external_body]
fn whole_millis(d: &std::time::Duration) -> (r: u128) {
    d.as_millis()
}

/// Measures the time between successive frames.
pub struct Timer {
    last_instant: std::time::Instant,
}

impl Timer {
    /// A timer whose first interval starts now.
    pub fn new() -> (r: Timer) {
        Timer { last_instant: clock_now() }
    }

    /// Whole milliseconds since the previous call (or since creation); the
    /// next interval starts now. What the clock reads is not known to the
    /// library: pass the result through `step_millis` to simulate it.
    pub fn delta(&mut self) -> (r: u128) {
        let now = clock_now();
        let ms = whole_millis(&time_between(&now, &self.last_instant));
        self.last_instant = now;
        ms
    }
}

/// The simulation step for a frame of `ms` milliseconds: the frame's length,
/// or the longest step for a longer frame.
pub fn step_millis(ms: u128) -> (r: i64)
    ensures
        r == if ms > MAX_STEP_MS as u128 { MAX_STEP_MS as int } else { ms as int },
{
    if ms > MAX_STEP_MS as u128 {
        MAX_STEP_MS
    } else {
        ms as i64
    }
}

} // verus!
