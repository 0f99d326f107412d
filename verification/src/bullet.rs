//! Shooting: the cooldown that rate-limits the player's fire.
use crate::timer::{once_tick, tick_once_timer, TimerView};
use vstd::prelude::*;

verus! {

/// Minimum delay between shots while the fire button is held: 0.16 s, as
/// Bevy's `Timer::from_seconds` turns that `f32` into a `Duration`.
pub const FIRE_COOLDOWN_NS: u64 = 159_999_996;

/// Gates the fire rate: a non-repeating timer. Starts already finished so
/// the very first click fires immediately.
pub struct FireCooldown {
    duration_ns: u64,
    elapsed_ns: u64,
}

impl View for FireCooldown {
    type V = TimerView;

    closed spec fn view(&self) -> TimerView {
        TimerView { duration_ns: self.duration_ns, elapsed_ns: self.elapsed_ns }
    }
}

/// A cooldown state that a non-repeating timer can be in: a positive
/// duration, and no more time elapsed than that.
pub open spec fn cooldown_valid(c: TimerView) -> bool {
    0 < c.duration_ns && c.elapsed_ns <= c.duration_ns
}

/// The cooldown is finished (a shot may be fired) once its whole duration
/// has elapsed.
pub open spec fn cooldown_finished(c: TimerView) -> bool {
    c.elapsed_ns >= c.duration_ns
}

/// One frame of `shoot`: tick the cooldown by `delta`; fire when the button
/// is held, the cooldown is finished and there is a player to fire from;
/// firing resets the cooldown. The result is whether a bullet is fired, and
/// the cooldown afterwards.
pub open spec fn shoot_step(c: TimerView, delta: u64, fire_held: bool, player_present: bool) -> (bool, TimerView) {
    let t = once_tick(c.duration_ns, c.elapsed_ns, delta);
    let fired = fire_held && t.1 && player_present;
    (fired, TimerView { duration_ns: c.duration_ns, elapsed_ns: if fired { 0 } else { t.0 } })
}

impl FireCooldown {
    #[verifier::type_invariant]
    closed spec fn inv(self) -> bool {
        cooldown_valid(self@)
    }

    /// Whether the cooldown has run out, so that a shot may be fired.
    pub fn is_finished(&self) -> (r: bool)
        ensures
            r == cooldown_finished(self@),
    {
        self.elapsed_ns >= self.duration_ns
    }
}

impl Default for FireCooldown {
    /// A cooldown of `FIRE_COOLDOWN_NS`, ticked by its whole duration so it
    /// starts finished.
    fn default() -> (r: Self)
        ensures
            r@ == (TimerView { duration_ns: FIRE_COOLDOWN_NS, elapsed_ns: FIRE_COOLDOWN_NS }),
            cooldown_finished(r@),
            cooldown_valid(r@),
    {
        let (elapsed, _finished, _times) = tick_once_timer(FIRE_COOLDOWN_NS, 0, FIRE_COOLDOWN_NS);
        FireCooldown { duration_ns: FIRE_COOLDOWN_NS, elapsed_ns: elapsed }
    }
}

/// Fire a bullet on left-click (or hold), respecting the cooldown: ticks the
/// cooldown by the frame's `delta_ns`, and fires when the button is held,
/// the cooldown has finished and a player is there to fire from, which
/// resets the cooldown. Returns whether a bullet is fired.
pub fn shoot(cooldown: &mut FireCooldown, delta_ns: u64, fire_held: bool, player_present: bool) -> (fired: bool)
    ensures
        (fired, final(cooldown)@) == shoot_step(old(cooldown)@, delta_ns, fire_held, player_present),
        cooldown_valid(old(cooldown)@),
        cooldown_valid(final(cooldown)@),
        fired <==> (fire_held && player_present && old(cooldown)@.elapsed_ns + delta_ns >= old(cooldown)@.duration_ns),
        final(cooldown)@.duration_ns == old(cooldown)@.duration_ns,
        fired ==> final(cooldown)@.elapsed_ns == 0,
        !fired ==> final(cooldown)@.elapsed_ns == if old(cooldown)@.elapsed_ns + delta_ns >= old(cooldown)@.duration_ns {
            old(cooldown)@.duration_ns as int
        } else {
            old(cooldown)@.elapsed_ns + delta_ns
        },
{
    proof {
        use_type_invariant(&*cooldown);
    }
    let (elapsed, finished, _times) = tick_once_timer(cooldown.duration_ns, cooldown.elapsed_ns, delta_ns);
    let duration: u64 = cooldown.duration_ns;
    if !fire_held || !finished || !player_present {
        *cooldown = FireCooldown { duration_ns: duration, elapsed_ns: elapsed };
        return false;
    }
    // Bevy's `Timer::reset`: nothing elapsed, not finished.
    *cooldown = FireCooldown { duration_ns: duration, elapsed_ns: 0 };
    true
}

/// One frame as `shoot` sees it: the time since the last frame in
/// nanoseconds, whether the fire button is held, and whether there is a
/// player.
pub type ShotFrame = (u64, bool, bool);

/// The shots fired over a run of frames from cooldown state `c`, and the
/// cooldown afterwards.
pub open spec fn run_shots(c: TimerView, frames: Seq<ShotFrame>) -> (nat, TimerView)
    decreases frames.len(),
{
    if frames.len() == 0 {
        (0, c)
    } else {
        let prev = run_shots(c, frames.drop_last());
        let f = frames.last();
        let step = shoot_step(prev.1, f.0, f.1, f.2);
        ((prev.0 + if step.0 { 1nat } else { 0nat }) as nat, step.1)
    }
}

/// The time that a run of frames covers, in nanoseconds.
pub open spec fn run_time(frames: Seq<ShotFrame>) -> nat
    decreases frames.len(),
{
    if frames.len() == 0 {
        0
    } else {
        run_time(frames.drop_last()) + (frames.last().0 as nat)
    }
}

/// A frame fires exactly when the button is held, there is a player, and
/// the cooldown has run out by the end of the frame; the cooldown keeps its
/// duration and stays a valid cooldown.
pub proof fn lemma_fires_when_cooldown_runs_out(c: TimerView, delta: u64, fire_held: bool, player_present: bool)
    requires
        cooldown_valid(c),
    ensures
        shoot_step(c, delta, fire_held, player_present).0 <==> (fire_held && player_present
            && c.elapsed_ns + delta >= c.duration_ns),
        shoot_step(c, delta, fire_held, player_present).1.duration_ns == c.duration_ns,
        cooldown_valid(shoot_step(c, delta, fire_held, player_present).1),
{
}

/// The very first click fires immediately: a fresh cooldown is finished.
pub proof fn lemma_first_click_fires(delta: u64)
    ensures
        shoot_step(TimerView { duration_ns: FIRE_COOLDOWN_NS, elapsed_ns: FIRE_COOLDOWN_NS }, delta, true, true).0,
{
}

/// Rate-limited shooting: over any run of frames, each shot after the first
/// needs a whole cooldown of time, so the shots fired, times the cooldown,
/// never exceed the time already elapsed on the cooldown plus the time the
/// frames cover.
pub proof fn lemma_fire_rate_limited(c: TimerView, frames: Seq<ShotFrame>)
    requires
        cooldown_valid(c),
    ensures
        run_shots(c, frames).0 * c.duration_ns + run_shots(c, frames).1.elapsed_ns <= c.elapsed_ns + run_time(frames),
        run_shots(c, frames).0 * c.duration_ns <= c.duration_ns + run_time(frames),
        run_shots(c, frames).1.duration_ns == c.duration_ns,
        cooldown_valid(run_shots(c, frames).1),
    decreases frames.len(),
{
    if frames.len() > 0 {
        let rest = frames.drop_last();
        lemma_fire_rate_limited(c, rest);
        let prev = run_shots(c, rest);
        let f = frames.last();
        lemma_fires_when_cooldown_runs_out(prev.1, f.0, f.1, f.2);
        let step = shoot_step(prev.1, f.0, f.1, f.2);
        let n: nat = prev.0;
        let d: u64 = c.duration_ns;
        assert((n + 1) * d == n * d + d) by (nonlinear_arith);
        assert(run_time(frames) == run_time(rest) + f.0);
        assert(run_shots(c, frames) == ((n + if step.0 { 1nat } else { 0nat }) as nat, step.1));
        if step.0 {
            assert(run_shots(c, frames).0 * d == n * d + d);
            assert(prev.1.elapsed_ns + f.0 >= d);
        } else {
            assert(step.1.elapsed_ns <= prev.1.elapsed_ns + f.0);
        }
    } else {
        assert(run_shots(c, frames).0 == 0);
        assert(0nat * c.duration_ns == 0) by (nonlinear_arith);
    }
}

/// Firing resets the cooldown: after a frame that fires, nothing has
/// elapsed on it, so the next shot waits a whole cooldown of frame time.
pub proof fn lemma_shot_resets_cooldown(c: TimerView, delta: u64, fire_held: bool, player_present: bool)
    requires
        cooldown_valid(c),
    ensures
        shoot_step(c, delta, fire_held, player_present).0 ==> shoot_step(c, delta, fire_held, player_present).1.elapsed_ns == 0,
        !shoot_step(c, delta, fire_held, player_present).0 ==> shoot_step(c, delta, fire_held, player_present).1.elapsed_ns
            == if c.elapsed_ns + delta >= c.duration_ns {
            c.duration_ns as int
        } else {
            c.elapsed_ns + delta
        },
{
}

/// The minimum delay between shots: right after a shot (nothing elapsed on
/// the cooldown), frames that together cover less than the cooldown's
/// duration fire nothing, whatever the button and the player do, and the
/// time they cover is exactly what has elapsed on the cooldown.
pub proof fn lemma_min_delay_between_shots(c: TimerView, frames: Seq<ShotFrame>)
    requires
        cooldown_valid(c),
        c.elapsed_ns == 0,
        run_time(frames) < c.duration_ns,
    ensures
        run_shots(c, frames).0 == 0,
        run_shots(c, frames).1.elapsed_ns == run_time(frames),
        run_shots(c, frames).1.duration_ns == c.duration_ns,
    decreases frames.len(),
{
    if frames.len() > 0 {
        let rest = frames.drop_last();
        assert(run_time(frames) == run_time(rest) + frames.last().0);
        lemma_min_delay_between_shots(c, rest);
    }
}

} // verus!
