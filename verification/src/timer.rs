//! Countdown timers that decay with wall-clock time.
//!
//! A timer keeps the value it was last set to and the instant at which that
//! happened. Its current value is worked out on each read from the time
//! that has passed since, one tick per 16 milliseconds, so that nothing has
//! to decrement it in the background.

use std::time::Duration;
use std::time::Instant;
use vstd::prelude::*;

verus! {

/// Milliseconds per tick, approximating 60 Hz.
pub const TICK_MS: u128 = 16;

/// `std::time::Instant`, a reading of the monotonic clock. Nothing is
/// known of what it holds.
#[verifier::external_type_specification]
#[verifier::external_body]
pub struct ExInstant(std::time::Instant);

/// The value of a timer that was set to `value` and has run for
/// `elapsed_ms` milliseconds: one less per whole tick, but never below 0.
pub open spec fn remaining(value: u8, elapsed_ms: int) -> u8 {
    if elapsed_ms / 16 >= value {
        0u8
    } else {
        (value - elapsed_ms / 16) as u8
    }
}

/// A timer reads as set until its first tick has passed, never reads more
/// than it was set to, and reads 0 once as many ticks have passed as it
/// was set to.
pub proof fn lemma_timer_decay(value: u8, elapsed_ms: int)
    requires
        0 <= elapsed_ms,
    ensures
        remaining(value, elapsed_ms) <= value,
        elapsed_ms < 16 ==> remaining(value, elapsed_ms) == value,
        elapsed_ms >= 16 * value ==> remaining(value, elapsed_ms) == 0,
        elapsed_ms < 16 * value ==> remaining(value, elapsed_ms) == value - elapsed_ms / 16,
{
}

/// Computes what is left of a timer set to `value` after `elapsed_ms`
/// milliseconds.
pub fn timer_value(value: u8, elapsed_ms: u128) -> (left: u8)
    ensures
        left == remaining(value, elapsed_ms as int),
{
    let ticks: u128 = elapsed_ms / TICK_MS;
    if ticks >= value as u128 {
        0
    } else {
        value - ticks as u8
    }
}

/// `Instant::now`: the current reading of the monotonic clock. Nothing is
/// claimed of the reading.
#[verifier::external_body]
pub(crate) fn now() -> (t: Instant) {
    Instant::now()
}

/// `Instant::elapsed`: the time that has passed since `since` was read.
/// Nothing is claimed of the amount.
#[verifier::external_body]
fn elapsed(since: &Instant) -> (d: Duration) {
    since.elapsed()
}

/// `Duration::as_millis`: the whole milliseconds in `d`. Nothing is claimed
/// of the number.
#[verifier::external_body]
fn as_millis(d: &Duration) -> (ms: u128) {
    d.as_millis()
}

pub struct Timer {
    /// The value that the timer was last set to.
    pub value: u8,
    /// The reading of the clock at which it was set.
    pub since: Instant,
}

impl Timer {
    /// A timer set to 0 at the instant `at`.
    pub fn new_at(at: Instant) -> (t: Timer)
        ensures
            t == (Timer { value: 0, since: at }),
    {
        Timer { value: 0, since: at }
    }

    /// A timer set to 0 now.
    pub fn new() -> (t: Timer)
        ensures
            t.value == 0,
    {
        Timer::new_at(now())
    }

    /// Sets the timer to `value` and restarts its clock at the instant
    /// `at`: both the value and the instant are replaced.
    pub fn set_at(&mut self, value: u8, at: Instant)
        ensures
            *final(self) == (Timer { value, since: at }),
    {
        self.since = at;
        self.value = value;
    }

    /// Sets the timer to `value` and restarts its clock at the instant
    /// that the clock shows now.
    pub fn set(&mut self, value: u8)
        ensures
            final(self).value == value,
    {
        let at: Instant = now();
        self.set_at(value, at);
    }

    /// What the timer shows `elapsed_ms` milliseconds after it was set.
    pub fn value_after(&self, elapsed_ms: u128) -> (left: u8)
        ensures
            left == remaining(self.value, elapsed_ms as int),
    {
        timer_value(self.value, elapsed_ms)
    }

    /// The current value: what the timer shows after the time that the
    /// clock says has passed since the instant it was set at. The clock
    /// decides how much that is; whatever it says, the value never exceeds
    /// the set value.
    pub fn get(&self) -> (left: u8)
        ensures
            exists|elapsed_ms: int|
                0 <= elapsed_ms && left == #[trigger] remaining(self.value, elapsed_ms),
            left <= self.value,
    {
        let passed: Duration = elapsed(&self.since);
        let ms: u128 = as_millis(&passed);
        let left: u8 = self.value_after(ms);
        assert(left == remaining(self.value, ms as int));
        left
    }
}

} // verus!
