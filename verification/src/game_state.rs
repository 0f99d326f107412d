//! The play/game-over state machine and the score.
use vstd::prelude::*;

verus! {

/// High-level state of the game.
#[derive(Clone, Copy, Debug, PartialEq, Eq, Structural, Hash)]
pub enum GameState {
    /// The arena is active: things move, spawn and collide.
    Playing,
    /// The player has died; everything is frozen behind the game-over screen.
    GameOver,
}

impl Default for GameState {
    /// A game starts in the `Playing` state.
    fn default() -> (r: Self)
        ensures
            r == GameState::Playing,
    {
        GameState::Playing
    }
}

/// Points granted per zombie kill.
pub const SCORE_PER_KILL: u32 = 10;

/// The player's running score for the current round.
pub struct Score(pub u32);

impl Default for Score {
    /// A score starts at zero.
    fn default() -> (r: Self)
        ensures
            r.0 == 0,
    {
        Score(0)
    }
}

/// The state that follows a press of `R`: pressing it on the game-over
/// screen starts a fresh round; otherwise nothing changes.
pub open spec fn restart_next(current: GameState, restart_pressed: bool) -> Option<GameState> {
    if current == GameState::GameOver && restart_pressed {
        Some(GameState::Playing)
    } else {
        None
    }
}

/// The state that follows the player's health reaching zero: while
/// playing, the round ends; on the game-over screen nothing changes.
pub open spec fn death_next(current: GameState) -> Option<GameState> {
    if current == GameState::Playing {
        Some(GameState::GameOver)
    } else {
        None
    }
}

/// Zero out the score at the start of every round.
pub fn reset_round(score: &mut Score)
    ensures
        final(score).0 == 0,
{
    score.0 = 0;
}

/// Convert `kills` "zombie killed" messages into score: each one is worth
/// `SCORE_PER_KILL` points. The score must not overflow.
pub fn award_score(score: &mut Score, kills: u32)
    requires
        old(score).0 + SCORE_PER_KILL * kills <= u32::MAX,
    ensures
        final(score).0 == old(score).0 + SCORE_PER_KILL * kills,
{
    let mut i: u32 = 0;
    while i < kills
        invariant
            i <= kills,
            score.0 == old(score).0 + SCORE_PER_KILL * i,
            old(score).0 + SCORE_PER_KILL * kills <= u32::MAX,
        decreases kills - i,
    {
        score.0 = score.0 + SCORE_PER_KILL;
        i = i + 1;
    }
}

/// Press `R` on the game-over screen to begin a fresh round: returns the
/// state to switch to, if any.
pub fn restart_on_key(current: GameState, restart_pressed: bool) -> (next: Option<GameState>)
    ensures
        next == restart_next(current, restart_pressed),
{
    if restart_pressed && current == GameState::GameOver {
        Some(GameState::Playing)
    } else {
        None
    }
}

/// Reaching zero health ends the round: returns the state to switch to, if
/// any.
pub fn player_died(current: GameState) -> (next: Option<GameState>)
    ensures
        next == death_next(current),
{
    match current {
        GameState::Playing => Some(GameState::GameOver),
        GameState::GameOver => None,
    }
}

/// The round cycle: a round in progress ends only when the player dies,
/// and the game-over screen is left only by pressing `R`, which starts a
/// new round. Neither event does anything in the other state.
pub proof fn lemma_round_cycle(current: GameState, restart_pressed: bool)
    ensures
        death_next(current) is Some <==> current == GameState::Playing,
        death_next(current) is Some ==> death_next(current) == Some(GameState::GameOver),
        restart_next(current, restart_pressed) is Some <==> (current == GameState::GameOver && restart_pressed),
        restart_next(current, restart_pressed) is Some ==> restart_next(current, restart_pressed) == Some(
            GameState::Playing,
        ),
{
}

/// Every kill awards points: a score that is a whole number of kills stays
/// one after more kills are awarded (and a reset gives zero kills).
pub proof fn lemma_score_counts_kills(score: u32, kills: u32)
    requires
        score % SCORE_PER_KILL == 0,
    ensures
        (score + SCORE_PER_KILL * kills) % (SCORE_PER_KILL as int) == 0,
        (score + SCORE_PER_KILL * kills) / (SCORE_PER_KILL as int) == (score as int) / (SCORE_PER_KILL as int) + kills,
{
    assert((score + 10 * kills) % 10 == 0 && (score + 10 * kills) / 10 == (score as int) / 10 + kills) by (nonlinear_arith)
        requires
            score % 10 == 0,
    ;
}

} // verus!
