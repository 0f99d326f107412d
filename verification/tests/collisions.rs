use zombie_arena::zombie::bullets_hit_zombies;

fn matrix(rows: &[&[bool]]) -> Vec<Vec<bool>> {
    rows.iter().map(|r| r.to_vec()).collect()
}

#[test]
fn no_bullets_no_kills() {
    assert!(bullets_hit_zombies(&Vec::new(), 5).is_empty());
    assert!(bullets_hit_zombies(&matrix(&[&[], &[]]), 0).is_empty());
}

#[test]
fn a_bullet_kills_the_first_zombie_it_touches() {
    let hits = matrix(&[&[false, true, true]]);
    assert_eq!(bullets_hit_zombies(&hits, 3), vec![(0, 1)]);
}

#[test]
fn a_zombie_dies_only_once() {
    // both bullets touch zombie 0; the second moves on to zombie 2
    let hits = matrix(&[&[true, false, true], &[true, false, true], &[true, false, false]]);
    assert_eq!(bullets_hit_zombies(&hits, 3), vec![(0, 0), (1, 2)]);
}

#[test]
fn a_bullet_kills_one_zombie_at_most() {
    let hits = matrix(&[&[true, true, true, true]]);
    assert_eq!(bullets_hit_zombies(&hits, 4), vec![(0, 0)]);
}

#[test]
fn misses_kill_nothing() {
    let hits = matrix(&[&[false, false], &[false, true], &[false, false]]);
    assert_eq!(bullets_hit_zombies(&hits, 2), vec![(1, 1)]);
}

#[test]
fn every_bullet_finds_its_own_zombie() {
    let n = 6;
    let hits: Vec<Vec<bool>> = (0..n).map(|_| vec![true; n]).collect();
    let kills = bullets_hit_zombies(&hits, n);
    assert_eq!(kills, (0..n).map(|i| (i, i)).collect::<Vec<_>>());
}
