use zombie_arena::game_state::{
    award_score, player_died, reset_round, restart_on_key, GameState, Score, SCORE_PER_KILL,
};

#[test]
fn game_starts_playing_with_zero_score() {
    assert_eq!(GameState::default(), GameState::Playing);
    assert_eq!(Score::default().0, 0);
}

#[test]
fn kills_award_ten_points_each() {
    let mut score = Score::default();
    award_score(&mut score, 1);
    assert_eq!(score.0, 10);
    award_score(&mut score, 3);
    assert_eq!(score.0, 40);
    award_score(&mut score, 0);
    assert_eq!(score.0, 4 * SCORE_PER_KILL);
}

#[test]
fn reset_round_zeroes_the_score() {
    let mut score = Score(120);
    reset_round(&mut score);
    assert_eq!(score.0, 0);
}

#[test]
fn death_ends_the_round() {
    assert_eq!(player_died(GameState::Playing), Some(GameState::GameOver));
    assert_eq!(player_died(GameState::GameOver), None);
}

#[test]
fn r_restarts_only_from_game_over() {
    assert_eq!(restart_on_key(GameState::GameOver, true), Some(GameState::Playing));
    assert_eq!(restart_on_key(GameState::GameOver, false), None);
    assert_eq!(restart_on_key(GameState::Playing, true), None);
    assert_eq!(restart_on_key(GameState::Playing, false), None);
}

#[test]
fn a_full_round_cycle() {
    let mut state = GameState::default();
    let mut score = Score::default();
    reset_round(&mut score);
    award_score(&mut score, 12);
    state = player_died(state).unwrap();
    assert_eq!(state, GameState::GameOver);
    assert_eq!(score.0, 120);
    state = restart_on_key(state, true).unwrap();
    reset_round(&mut score);
    assert_eq!(state, GameState::Playing);
    assert_eq!(score.0, 0);
}
