use std::time::Duration;

use bevy::time::{Timer, TimerMode};
use zombie_arena::bullet::{shoot, FireCooldown, FIRE_COOLDOWN_NS};

const FRAME_NS: u64 = 16_666_667;

#[test]
fn cooldown_constant_matches_bevy_from_seconds() {
    let timer = Timer::from_seconds(0.16, TimerMode::Once);
    assert_eq!(timer.duration().as_nanos(), FIRE_COOLDOWN_NS as u128);
}

#[test]
fn first_click_fires_immediately() {
    let mut cooldown = FireCooldown::default();
    assert!(cooldown.is_finished());
    assert!(shoot(&mut cooldown, 0, true, true));
    assert!(!cooldown.is_finished());
}

#[test]
fn no_fire_without_button_or_player() {
    let mut cooldown = FireCooldown::default();
    assert!(!shoot(&mut cooldown, FRAME_NS, false, true));
    assert!(!shoot(&mut cooldown, FRAME_NS, true, false));
    // the cooldown stays finished, so the next press fires at once
    assert!(shoot(&mut cooldown, FRAME_NS, true, true));
}

#[test]
fn holding_fire_shoots_once_per_cooldown() {
    let mut cooldown = FireCooldown::default();
    assert!(shoot(&mut cooldown, 0, true, true));
    // 9 frames of 1/60 s cover 0.15 s: not enough
    for _ in 0..9 {
        assert!(!shoot(&mut cooldown, FRAME_NS, true, true));
    }
    // the 10th frame reaches 0.1667 s >= 0.16 s
    assert!(shoot(&mut cooldown, FRAME_NS, true, true));
    assert!(!shoot(&mut cooldown, FRAME_NS, true, true));
}

#[test]
fn exact_cooldown_boundary() {
    let mut cooldown = FireCooldown::default();
    assert!(shoot(&mut cooldown, 0, true, true));
    assert!(!shoot(&mut cooldown, FIRE_COOLDOWN_NS - 1, true, true));
    assert!(shoot(&mut cooldown, 1, true, true));
}

#[test]
fn cooldown_agrees_with_a_bevy_timer() {
    // The same frames, driven through a bevy Timer as the game did.
    let mut timer = Timer::from_seconds(0.16, TimerMode::Once);
    timer.tick(timer.duration());
    let mut cooldown = FireCooldown::default();
    let deltas = [0u64, 5_000_000, 70_000_000, 90_000_000, 200_000_000, 1, 159_999_995, 3, 10];
    let held = [true, true, false, true, true, true, true, true, true];
    let mut fired_count = 0;
    for (i, d) in deltas.iter().enumerate() {
        timer.tick(Duration::from_nanos(*d));
        let expected = held[i] && timer.is_finished();
        if expected {
            timer.reset();
        }
        let fired = shoot(&mut cooldown, *d, held[i], true);
        assert_eq!(fired, expected, "frame {}", i);
        if fired {
            fired_count += 1;
        }
    }
    assert!(fired_count >= 2);
}

#[test]
fn shots_never_outpace_the_cooldown() {
    let mut cooldown = FireCooldown::default();
    let mut shots: u64 = 0;
    let mut time: u64 = 0;
    for i in 0..600u64 {
        let d = 1_000_000 + (i * 7_919_333) % 40_000_000;
        time += d;
        if shoot(&mut cooldown, d, true, true) {
            shots += 1;
        }
        assert!(shots * FIRE_COOLDOWN_NS <= FIRE_COOLDOWN_NS + time);
    }
}
