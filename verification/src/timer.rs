//! Bevy's `Timer`, seen through plain values.
//!
//! The fire-rate cooldown and the zombie spawn clock are Bevy timers. The
//! library keeps what their logic reads (the duration and the elapsed time,
//! in nanoseconds) and lets Bevy's `Timer::tick` compute each step.
use bevy::time::{Timer, TimerMode};
use std::time::Duration;
use vstd::prelude::*;

verus! {

/// The state of a timer: its duration and the time elapsed on it, both in
/// nanoseconds.
pub struct TimerView {
    pub duration_ns: u64,
    pub elapsed_ns: u64,
}

/// One `tick(delta)` of a non-repeating timer whose finished flag is
/// `elapsed >= duration`: a finished timer stays as it is; otherwise the
/// elapsed time grows by `delta` and clamps at the duration, where the timer
/// finishes. The result is the new elapsed time, whether the timer is
/// finished, and how many times it finished during this tick.
pub open spec fn once_tick(duration: u64, elapsed: u64, delta: u64) -> (u64, bool, u32) {
    if elapsed >= duration {
        (elapsed, true, 0)
    } else if elapsed + delta >= duration {
        (duration, true, 1)
    } else {
        ((elapsed + delta) as u64, false, 0)
    }
}

/// One `tick(delta)` of a repeating timer: the elapsed time grows by
/// `delta` and wraps around the duration. The result is the new elapsed
/// time and how many times the timer finished during this tick (kept to
/// its low 32 bits, and `u32::MAX` for a zero duration).
pub open spec fn repeating_tick(duration: u64, elapsed: u64, delta: u64) -> (u64, u32) {
    let total: int = elapsed + delta;
    if total < duration {
        (total as u64, 0)
    } else if duration == 0 {
        (0, u32::MAX)
    } else {
        ((total % (duration as int)) as u64, ((total / (duration as int)) % 0x1_0000_0000) as u32)
    }
}

/// Calls `bevy::time::Timer::tick` on a non-repeating timer of the given
/// duration and elapsed time, whose finished flag is `elapsed >= duration`
/// (the timer is rebuilt with `Timer::new`, `Timer::set_elapsed` and a tick
/// of zero, which sets that flag). Claims that Bevy's tick computes
/// `once_tick`, as its source in bevy_time's timer.rs shows: a finished
/// non-repeating timer returns at once; otherwise the stopwatch adds the
/// delta (saturating, far beyond any sum of two `u64` nanosecond counts),
/// the timer finishes when the elapsed time reaches the duration, and then
/// clamps the elapsed time to the duration with one finish this tick.
#[verifier::external_body]
pub(crate) fn tick_once_timer(duration_ns: u64, elapsed_ns: u64, delta_ns: u64) -> (r: (u64, bool, u32))
    requires
        0 < duration_ns,
        elapsed_ns <= duration_ns,
    ensures
        r == once_tick(duration_ns, elapsed_ns, delta_ns),
{
    let mut timer = Timer::new(Duration::from_nanos(duration_ns), TimerMode::Once);
    timer.set_elapsed(Duration::from_nanos(elapsed_ns));
    timer.tick(Duration::ZERO);
    timer.tick(Duration::from_nanos(delta_ns));
    (timer.elapsed().as_nanos() as u64, timer.is_finished(), timer.times_finished_this_tick())
}

/// Calls `bevy::time::Timer::tick` on a repeating timer of the given
/// duration and elapsed time (rebuilt with `Timer::new` and
/// `Timer::set_elapsed`). Claims that Bevy's tick computes
/// `repeating_tick`, as its source in bevy_time's timer.rs shows: the
/// stopwatch adds the delta; once the total reaches the duration, the number
/// of finishes is the quotient of the totals in nanoseconds (cast to `u32`,
/// or `u32::MAX` when the duration is zero) and the elapsed time becomes the
/// remainder (zero when the duration is zero).
#[verifier::external_body]
pub(crate) fn tick_repeating_timer(duration_ns: u64, elapsed_ns: u64, delta_ns: u64) -> (r: (u64, u32))
    ensures
        r == repeating_tick(duration_ns, elapsed_ns, delta_ns),
{
    let mut timer = Timer::new(Duration::from_nanos(duration_ns), TimerMode::Repeating);
    timer.set_elapsed(Duration::from_nanos(elapsed_ns));
    timer.tick(Duration::from_nanos(delta_ns));
    (timer.elapsed().as_nanos() as u64, timer.times_finished_this_tick())
}

} // verus!
