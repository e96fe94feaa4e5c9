//! The query window planner: the window of time to ask for, and the sampling step
//! that keeps the number of samples in it bounded.

use vstd::prelude::*;

verus! {

/// The finest sampling step, in seconds.
pub const MIN_STEP: u64 = 2;

/// The coarsest sampling step, in seconds.
pub const MAX_STEP: u64 = 60;

/// The number of samples a window is divided into before the step is clamped.
pub const TARGET_SAMPLES: u64 = 240;

/// The sampling step for the window from `start` to `end`: the span divided into
/// `TARGET_SAMPLES` parts, rounded down, and kept within `MIN_STEP..=MAX_STEP`.
/// A window that ends before it starts has a negative span and gets `MIN_STEP`.
pub open spec fn step_for(start: int, end: int) -> int {
    let raw = (end - start) / (TARGET_SAMPLES as int);
    if raw < MIN_STEP as int {
        MIN_STEP as int
    } else if raw > MAX_STEP as int {
        MAX_STEP as int
    } else {
        raw
    }
}

/// Computes the sampling step for the window from `start_time` to `end_time`.
pub fn query_step(start_time: u64, end_time: u64) -> (step: u64)
    ensures
        step == step_for(start_time as int, end_time as int),
        MIN_STEP <= step <= MAX_STEP,
{
    if end_time <= start_time {
        MIN_STEP
    } else {
        let raw: u64 = (end_time - start_time) / TARGET_SAMPLES;
        if raw < MIN_STEP {
            MIN_STEP
        } else if raw > MAX_STEP {
            MAX_STEP
        } else {
            raw
        }
    }
}

/// The number of nanoseconds in a second.
pub const NANOS_PER_SEC: u32 = 1_000_000_000;

/// A length of time: whole seconds, and the nanoseconds beyond them. A point in
/// time is the length of time since the epoch.
#[derive(Clone, Copy, Debug, PartialEq, Eq, Structural)]
pub struct TimeSpan {
    pub secs: u64,
    pub subsec_nanos: u32,
}

impl TimeSpan {
    /// Whether the nanoseconds stay below one second.
    pub open spec fn wf(&self) -> bool {
        self.subsec_nanos < NANOS_PER_SEC
    }

    /// The whole length in nanoseconds.
    pub open spec fn as_nanos(&self) -> int {
        self.secs * NANOS_PER_SEC + self.subsec_nanos
    }
}

/// The second in which the window of length `max_age` that ends at `now` starts:
/// the whole seconds of `now - max_age`.
pub open spec fn window_start(now: TimeSpan, max_age: TimeSpan) -> int {
    (now.as_nanos() - max_age.as_nanos()) / (NANOS_PER_SEC as int)
}

/// The window of length `max_age` that ends at `now`, as its first and last
/// second since the epoch. `max_age` may not reach back beyond the epoch.
pub fn lookback_window(now: TimeSpan, max_age: TimeSpan) -> (window: (u64, u64))
    requires
        now.wf(),
        max_age.wf(),
        max_age.as_nanos() <= now.as_nanos(),
    ensures
        window.0 == window_start(now, max_age),
        window.1 == now.secs,
        window.0 <= window.1,
{
    let start_time = if now.subsec_nanos >= max_age.subsec_nanos {
        now.secs - max_age.secs
    } else {
        now.secs - max_age.secs - 1
    };
    (start_time, now.secs)
}

/// A window of at most 60 seconds is sampled at the finest step.
pub proof fn lemma_short_window_step(start: int, end: int)
    requires
        0 <= end - start <= 60,
    ensures
        step_for(start, end) == MIN_STEP,
{
}

/// A window of 240 times the coarsest step or more is sampled at the coarsest
/// step.
pub proof fn lemma_long_window_step(start: int, end: int)
    requires
        end - start >= TARGET_SAMPLES * MAX_STEP,
    ensures
        step_for(start, end) == MAX_STEP,
{
}

/// The step never leaves its bounds, and a longer window never gets a finer step.
pub proof fn lemma_step_bounds(start: int, end: int, later_end: int)
    requires
        end <= later_end,
    ensures
        MIN_STEP <= step_for(start, end) <= MAX_STEP,
        step_for(start, end) <= step_for(start, later_end),
{
}

} // verus!
