use std::time::Duration;

use bevy::time::{Timer, TimerMode};
use zombie_arena::rng::Rng;
use zombie_arena::zombie::{
    random_edge, reset_spawn_timer, spawn_zombies, Edge, SpawnTimer, MAX_ZOMBIES, SPAWN_INTERVAL_START_NS,
};

fn reference_xorshift(mut x: u64) -> u64 {
    x ^= x << 13;
    x ^= x >> 7;
    x ^= x << 17;
    x
}

fn edge_of(roll: u64) -> Edge {
    match roll % 4 {
        0 => Edge::Top,
        1 => Edge::Bottom,
        2 => Edge::Left,
        _ => Edge::Right,
    }
}

#[test]
fn spawn_interval_constant_matches_bevy_from_seconds() {
    let timer = Timer::from_seconds(1.20, TimerMode::Repeating);
    assert_eq!(timer.duration().as_nanos(), SPAWN_INTERVAL_START_NS as u128);
    assert_eq!(Duration::from_secs_f32(1.20).as_nanos(), SPAWN_INTERVAL_START_NS as u128);
}

#[test]
fn random_edge_follows_the_generator() {
    let mut rng = Rng::default();
    let mut reference = Rng::default();
    let mut seen = [false; 4];
    for _ in 0..200 {
        let roll = reference.next_u64();
        let edge = random_edge(&mut rng);
        assert_eq!(edge, edge_of(roll));
        seen[roll as usize % 4] = true;
    }
    assert!(seen.iter().all(|s| *s));
}

#[test]
fn no_spawn_before_the_interval() {
    let mut timer = SpawnTimer::default();
    let mut rng = Rng::default();
    let mut untouched = Rng::default();
    assert_eq!(spawn_zombies(&mut timer, 1_000_000_000, 1_000_000_000, 0, &mut rng), None);
    assert_eq!(spawn_zombies(&mut timer, 200_000_047, 1_000_000_000, 0, &mut rng), None);
    // the generator was not touched
    assert_eq!(rng.next_u64(), untouched.next_u64());
}

#[test]
fn spawn_when_the_interval_elapses() {
    let mut timer = SpawnTimer::default();
    let mut rng = Rng::default();
    let first_roll = reference_xorshift(zombie_arena::rng::DEFAULT_SEED);
    let spawned = spawn_zombies(&mut timer, SPAWN_INTERVAL_START_NS, 900_000_000, 3, &mut rng);
    assert_eq!(spawned, Some(edge_of(first_roll)));
    // the new interval (0.9 s) applies from now on
    assert_eq!(spawn_zombies(&mut timer, 899_999_999, 900_000_000, 3, &mut rng), None);
    assert!(spawn_zombies(&mut timer, 1, 900_000_000, 3, &mut rng).is_some());
}

#[test]
fn population_cap_blocks_spawns() {
    let mut timer = SpawnTimer::default();
    let mut rng = Rng::default();
    let mut untouched = Rng::default();
    assert_eq!(spawn_zombies(&mut timer, 5_000_000_000, 250_000_000, MAX_ZOMBIES, &mut rng), None);
    assert_eq!(rng.next_u64(), untouched.next_u64());
    // one below the cap still spawns
    let mut timer = SpawnTimer::default();
    assert!(spawn_zombies(&mut timer, 5_000_000_000, 250_000_000, MAX_ZOMBIES - 1, &mut rng).is_some());
}

#[test]
fn reset_restores_the_starting_interval() {
    let mut timer = SpawnTimer::default();
    let mut rng = Rng::default();
    assert!(spawn_zombies(&mut timer, SPAWN_INTERVAL_START_NS + 10, 250_000_000, 0, &mut rng).is_some());
    reset_spawn_timer(&mut timer);
    assert_eq!(spawn_zombies(&mut timer, 1_000_000_000, 250_000_000, 0, &mut rng), None);
    assert!(spawn_zombies(&mut timer, 200_000_048, 250_000_000, 0, &mut rng).is_some());
}

#[test]
fn spawns_agree_with_a_bevy_timer() {
    let mut bevy_timer = Timer::from_seconds(1.20, TimerMode::Repeating);
    let mut timer = SpawnTimer::default();
    let mut rng = Rng::default();
    let mut spawns = 0;
    for i in 0..2000u64 {
        let delta = 3_000_000 + (i * 13_333_337) % 30_000_000;
        let interval = 1_200_000_048u64.saturating_sub(i * 500_000).max(250_000_000);
        let expected = bevy_timer.tick(Duration::from_nanos(delta)).just_finished();
        if expected {
            bevy_timer.set_duration(Duration::from_nanos(interval));
        }
        let got = spawn_zombies(&mut timer, delta, interval, 0, &mut rng);
        assert_eq!(got.is_some(), expected, "frame {}", i);
        if got.is_some() {
            spawns += 1;
        }
    }
    assert!(spawns > 20);
}
