//! Zombies: where they spawn, how often, how many, and which of them the
//! bullets destroy.
use crate::rng::{xorshift64, Rng};
use crate::timer::{repeating_tick, tick_repeating_timer, TimerView};
use vstd::prelude::*;

verus! {

/// Hard cap on simultaneously alive zombies.
pub const MAX_ZOMBIES: usize = 250;

/// Longest gap between spawns (start of a round): 1.2 s, as Bevy's
/// `Timer::from_seconds` turns that `f32` into a `Duration`.
pub const SPAWN_INTERVAL_START_NS: u64 = 1_200_000_048;

/// One of the four edges of the arena, just outside which zombies appear.
#[derive(Clone, Copy, Debug, PartialEq, Eq, Structural)]
pub enum Edge {
    Top,
    Bottom,
    Left,
    Right,
}

/// The edge that a random roll selects: the roll modulo four picks top,
/// bottom, left or right.
pub open spec fn edge_of(roll: u64) -> Edge {
    if roll % 4 == 0 {
        Edge::Top
    } else if roll % 4 == 1 {
        Edge::Bottom
    } else if roll % 4 == 2 {
        Edge::Left
    } else {
        Edge::Right
    }
}

/// Each edge is picked by exactly one residue of the roll modulo four: top
/// by 0, bottom by 1, left by 2, right by 3.
pub proof fn lemma_edge_residues(roll: u64)
    ensures
        (edge_of(roll) == Edge::Top) <==> roll % 4 == 0,
        (edge_of(roll) == Edge::Bottom) <==> roll % 4 == 1,
        (edge_of(roll) == Edge::Left) <==> roll % 4 == 2,
        (edge_of(roll) == Edge::Right) <==> roll % 4 == 3,
{
}

/// Pick a random arena edge for a new zombie, advancing the generator once.
pub fn random_edge(rng: &mut Rng) -> (edge: Edge)
    ensures
        final(rng)@ == xorshift64(old(rng)@),
        edge == edge_of(final(rng)@),
        (edge == Edge::Top) <==> final(rng)@ % 4 == 0,
        (edge == Edge::Bottom) <==> final(rng)@ % 4 == 1,
        (edge == Edge::Left) <==> final(rng)@ % 4 == 2,
        (edge == Edge::Right) <==> final(rng)@ % 4 == 3,
{
    let roll: u64 = rng.next_u64();
    match roll % 4 {
        0 => Edge::Top,
        1 => Edge::Bottom,
        2 => Edge::Left,
        _ => Edge::Right,
    }
}

/// Drives periodic zombie spawns: a repeating timer whose interval shrinks
/// over time.
pub struct SpawnTimer {
    duration_ns: u64,
    elapsed_ns: u64,
}

impl View for SpawnTimer {
    type V = TimerView;

    closed spec fn view(&self) -> TimerView {
        TimerView { duration_ns: self.duration_ns, elapsed_ns: self.elapsed_ns }
    }
}

impl Default for SpawnTimer {
    /// A fresh timer with the starting interval.
    fn default() -> (r: Self)
        ensures
            r@ == (TimerView { duration_ns: SPAWN_INTERVAL_START_NS, elapsed_ns: 0 }),
    {
        SpawnTimer { duration_ns: SPAWN_INTERVAL_START_NS, elapsed_ns: 0 }
    }
}

/// Reset the spawn cadence to its starting value for a new round: the
/// starting interval, with nothing elapsed.
pub fn reset_spawn_timer(timer: &mut SpawnTimer)
    ensures
        final(timer)@ == (TimerView { duration_ns: SPAWN_INTERVAL_START_NS, elapsed_ns: 0 }),
{
    // Bevy's `Timer::set_duration` and `Timer::reset`.
    timer.duration_ns = SPAWN_INTERVAL_START_NS;
    timer.elapsed_ns = 0;
}

/// One frame of zombie spawning, as plain values: the spawn timer ticks by
/// `delta`. Unless it finished during this tick, nothing else happens. When
/// it did, its interval becomes `next_interval`; then, below the population
/// cap, a zombie spawns at the edge that the generator's next value picks.
/// The result is the edge of the new zombie, if any, the timer afterwards,
/// and the generator's state afterwards.
pub open spec fn spawn_step(
    timer: TimerView,
    delta: u64,
    next_interval: u64,
    zombie_count: usize,
    rng: u64,
) -> (Option<Edge>, TimerView, u64) {
    let t = repeating_tick(timer.duration_ns, timer.elapsed_ns, delta);
    if t.1 == 0 {
        (None, TimerView { duration_ns: timer.duration_ns, elapsed_ns: t.0 }, rng)
    } else if zombie_count >= MAX_ZOMBIES {
        (None, TimerView { duration_ns: next_interval, elapsed_ns: t.0 }, rng)
    } else {
        (Some(edge_of(xorshift64(rng))), TimerView { duration_ns: next_interval, elapsed_ns: t.0 }, xorshift64(rng))
    }
}

/// Zombie spawning respects the population cap, spawns exactly when the
/// spawn timer finishes with room left, draws on the generator only then,
/// and applies the new interval whenever the timer finishes; the timer
/// finishes once the elapsed time reaches its interval (short of counting
/// 2^32 intervals in one tick, where Bevy's count wraps).
pub proof fn lemma_spawn_rules(
    timer: TimerView,
    delta: u64,
    next_interval: u64,
    zombie_count: usize,
    rng: u64,
)
    ensures
        ({
            let (spawned, after, rng_after) = spawn_step(timer, delta, next_interval, zombie_count, rng);
            let finished = repeating_tick(timer.duration_ns, timer.elapsed_ns, delta).1 > 0;
            &&& spawned is Some ==> zombie_count < MAX_ZOMBIES
            &&& spawned is Some <==> (finished && zombie_count < MAX_ZOMBIES)
            &&& spawned is None ==> rng_after == rng
            &&& spawned is Some ==> rng_after == xorshift64(rng)
            &&& spawned is Some ==> {
                &&& (spawned == Some(Edge::Top) <==> xorshift64(rng) % 4 == 0)
                &&& (spawned == Some(Edge::Bottom) <==> xorshift64(rng) % 4 == 1)
                &&& (spawned == Some(Edge::Left) <==> xorshift64(rng) % 4 == 2)
                &&& (spawned == Some(Edge::Right) <==> xorshift64(rng) % 4 == 3)
            }
            &&& after.duration_ns == if finished { next_interval } else { timer.duration_ns }
            &&& (timer.duration_ns > 0 && (timer.elapsed_ns + delta) / (timer.duration_ns as int) < 0x1_0000_0000)
                ==> (finished <==> timer.elapsed_ns + delta >= timer.duration_ns)
        }),
{
    let total: int = timer.elapsed_ns + delta;
    let d: int = timer.duration_ns as int;
    if d > 0 && total / d < 0x1_0000_0000 && total >= d {
        assert(total / d >= 1 && (total / d) % 0x1_0000_0000 == total / d) by (nonlinear_arith)
            requires
                d > 0,
                total >= d,
                total / d < 0x1_0000_0000,
        ;
    }
}

/// Spawn zombies on a timer whose interval tightens as the round goes on.
/// Ticks the spawn timer by the frame's `delta_ns`; when it finishes, sets
/// its interval to `next_interval_ns` and, below the population cap, picks
/// the edge where a new zombie appears.
pub fn spawn_zombies(
    timer: &mut SpawnTimer,
    delta_ns: u64,
    next_interval_ns: u64,
    zombie_count: usize,
    rng: &mut Rng,
) -> (spawned: Option<Edge>)
    ensures
        (spawned, final(timer)@, final(rng)@) == spawn_step(
            old(timer)@,
            delta_ns,
            next_interval_ns,
            zombie_count,
            old(rng)@,
        ),
        spawned is Some ==> zombie_count < MAX_ZOMBIES && final(rng)@ == xorshift64(old(rng)@),
        spawned is None ==> final(rng)@ == old(rng)@,
        spawned == Some(Edge::Top) ==> xorshift64(old(rng)@) % 4 == 0,
        spawned == Some(Edge::Bottom) ==> xorshift64(old(rng)@) % 4 == 1,
        spawned == Some(Edge::Left) ==> xorshift64(old(rng)@) % 4 == 2,
        spawned == Some(Edge::Right) ==> xorshift64(old(rng)@) % 4 == 3,
{
    let (elapsed, times_finished) = tick_repeating_timer(timer.duration_ns, timer.elapsed_ns, delta_ns);
    timer.elapsed_ns = elapsed;
    if times_finished == 0 {
        return None;
    }
    // Bevy's `Timer::set_duration`: the elapsed time stays as it is.
    timer.duration_ns = next_interval_ns;
    if zombie_count >= MAX_ZOMBIES {
        return None;
    }
    Some(random_edge(rng))
}

/// The zombie indices marked destroyed in `flags`.
pub open spec fn destroyed_set(flags: Seq<bool>) -> Set<int> {
    Set::new(|z: int| 0 <= z < flags.len() && flags[z])
}

/// The first zombie, from index `from` on, that a bullet's row of hits says
/// it touches and that is not destroyed yet.
pub open spec fn first_target(row: Seq<bool>, destroyed: Set<int>, from: int) -> Option<int>
    decreases row.len() - from,
{
    if from < 0 || from >= row.len() {
        None
    } else if row[from] && !destroyed.contains(from) {
        Some(from)
    } else {
        first_target(row, destroyed, from + 1)
    }
}

/// The kills made by the first `n` bullets, as (bullet, zombie) pairs in
/// bullet order, and the set of zombies they destroyed: each bullet in turn
/// destroys the first zombie it touches that no earlier bullet destroyed,
/// and is then spent.
pub open spec fn hit_kills(hits: Seq<Seq<bool>>, n: nat) -> (Seq<(int, int)>, Set<int>)
    decreases n,
{
    if n == 0 {
        (Seq::empty(), Set::empty())
    } else {
        let prev = hit_kills(hits, (n - 1) as nat);
        match first_target(hits[n - 1], prev.1, 0) {
            Some(z) => (prev.0.push(((n - 1) as int, z)), prev.1.insert(z)),
            None => prev,
        }
    }
}

/// What `first_target` finds: a touched, surviving zombie at or after
/// `from`, and the first such; when it finds none, there is none.
pub proof fn lemma_first_target(row: Seq<bool>, destroyed: Set<int>, from: int)
    requires
        0 <= from,
    ensures
        first_target(row, destroyed, from) matches Some(z) ==> {
            &&& from <= z < row.len()
            &&& row[z]
            &&& !destroyed.contains(z)
            &&& forall|j: int| from <= j < z ==> !(row[j] && !destroyed.contains(j))
        },
        first_target(row, destroyed, from) is None ==> forall|j: int|
            from <= j < row.len() ==> !(row[j] && !destroyed.contains(j)),
    decreases row.len() - from,
{
    if from < row.len() && !(row[from] && !destroyed.contains(from)) {
        lemma_first_target(row, destroyed, from + 1);
    }
}

/// The kills of the first `n` bullets: every kill is a hit; bullets come in
/// increasing order, so each kills at most one zombie; no zombie is
/// destroyed twice; the destroyed set is exactly the killed zombies; a
/// bullet that killed nothing touched no zombie that was still there; and a
/// bullet's kill is the first zombie it touches that no earlier bullet
/// destroyed (every zombie before it that the bullet touches was killed by
/// an earlier kill).
pub proof fn lemma_hit_kills(hits: Seq<Seq<bool>>, n: nat)
    requires
        n <= hits.len(),
    ensures
        ({
            let (kills, destroyed) = hit_kills(hits, n);
            &&& forall|i: int| 0 <= i < kills.len() ==> {
                &&& 0 <= #[trigger] kills[i].0 < n
                &&& 0 <= kills[i].1 < hits[kills[i].0].len()
                &&& hits[kills[i].0][kills[i].1]
            }
            &&& forall|i: int, j: int| 0 <= i < j < kills.len() ==> #[trigger] kills[i].0 < #[trigger] kills[j].0
            &&& forall|i: int, j: int| 0 <= i < j < kills.len() ==> #[trigger] kills[i].1 != #[trigger] kills[j].1
            &&& forall|z: int| destroyed.contains(z) <==> exists|i: int| 0 <= i < kills.len() && #[trigger] kills[i].1 == z
            &&& forall|b: int, z: int|
                0 <= b < n && 0 <= z < hits[b].len() && #[trigger] hits[b][z]
                    && !(exists|i: int| 0 <= i < kills.len() && #[trigger] kills[i].0 == b)
                    ==> destroyed.contains(z)
            &&& kills.len() <= n
            &&& forall|i: int, j: int|
                0 <= i < kills.len() && 0 <= j < kills[i].1 && #[trigger] hits[kills[i].0][j]
                    ==> exists|i2: int| 0 <= i2 < i && #[trigger] kills[i2].1 == j
        }),
    decreases n,
{
    if n > 0 {
        let m: nat = (n - 1) as nat;
        lemma_hit_kills(hits, m);
        let prev = hit_kills(hits, m);
        lemma_first_target(hits[m as int], prev.1, 0);
        let cur = hit_kills(hits, n);
        match first_target(hits[m as int], prev.1, 0) {
            Some(z) => {
                assert(cur.0 == prev.0.push((m as int, z)));
                assert forall|q: int| cur.1.contains(q) <==> exists|i: int| 0 <= i < cur.0.len() && #[trigger] cur.0[i].1 == q by {
                    if q == z {
                        assert(cur.0[prev.0.len() as int].1 == q);
                    }
                    if cur.1.contains(q) && q != z {
                        let i: int = choose|i: int| 0 <= i < prev.0.len() && #[trigger] prev.0[i].1 == q;
                        assert(cur.0[i].1 == q);
                    }
                    if exists|i: int| 0 <= i < cur.0.len() && #[trigger] cur.0[i].1 == q {
                        let i: int = choose|i: int| 0 <= i < cur.0.len() && #[trigger] cur.0[i].1 == q;
                        if i < prev.0.len() {
                            assert(prev.0[i].1 == q);
                        }
                    }
                }
                assert forall|i: int, j: int|
                    0 <= i < cur.0.len() && 0 <= j < cur.0[i].1 && #[trigger] hits[cur.0[i].0][j]
                        implies exists|i2: int| 0 <= i2 < i && #[trigger] cur.0[i2].1 == j by {
                    if i < prev.0.len() {
                        assert(cur.0[i] == prev.0[i]);
                        let i2: int = choose|i2: int| 0 <= i2 < i && #[trigger] prev.0[i2].1 == j;
                        assert(cur.0[i2] == prev.0[i2]);
                    } else {
                        assert(cur.0[i] == (m as int, z));
                        assert(!(hits[m as int][j] && !prev.1.contains(j)));
                        assert(prev.1.contains(j));
                        let i2: int = choose|i2: int| 0 <= i2 < prev.0.len() && #[trigger] prev.0[i2].1 == j;
                        assert(cur.0[i2] == prev.0[i2]);
                    }
                }
                assert forall|b: int, q: int|
                    0 <= b < n && 0 <= q < hits[b].len() && #[trigger] hits[b][q]
                        && !(exists|i: int| 0 <= i < cur.0.len() && #[trigger] cur.0[i].0 == b)
                        implies cur.1.contains(q) by {
                    assert(cur.0[prev.0.len() as int].0 == m);
                    if b < m {
                        if exists|i: int| 0 <= i < prev.0.len() && #[trigger] prev.0[i].0 == b {
                            let i: int = choose|i: int| 0 <= i < prev.0.len() && #[trigger] prev.0[i].0 == b;
                            assert(cur.0[i].0 == b);
                        }
                    }
                }
            },
            None => {
                assert forall|b: int, q: int|
                    0 <= b < n && 0 <= q < hits[b].len() && #[trigger] hits[b][q]
                        && !(exists|i: int| 0 <= i < cur.0.len() && #[trigger] cur.0[i].0 == b)
                        implies cur.1.contains(q) by {
                    if b == m {
                        assert(!(hits[m as int][q] && !prev.1.contains(q)));
                    }
                }
            },
        }
    }
}

/// Each row of the deep view of a matrix is the view of that row.
proof fn lemma_rows_deep_view(hits: &Vec<Vec<bool>>)
    ensures
        hits.deep_view().len() == hits.len(),
        forall|i: int| 0 <= i < hits.len() ==> #[trigger] hits.deep_view()[i] == hits[i]@,
{
    assert forall|i: int| 0 <= i < hits.len() implies #[trigger] hits.deep_view()[i] == hits[i]@ by {
        assert(hits.deep_view()[i] =~= hits[i]@);
    }
}

/// The first zombie that a bullet's row of hits touches and that is not
/// destroyed yet, if any.
fn first_target_exec(row: &Vec<bool>, destroyed: &Vec<bool>) -> (r: Option<usize>)
    requires
        row.len() == destroyed.len(),
    ensures
        match r {
            Some(z) => first_target(row@, destroyed_set(destroyed@), 0) == Some(z as int),
            None => first_target(row@, destroyed_set(destroyed@), 0) is None,
        },
{
    let ghost d = destroyed_set(destroyed@);
    let mut z: usize = 0;
    while z < row.len()
        invariant
            z <= row.len(),
            row.len() == destroyed.len(),
            d == destroyed_set(destroyed@),
            first_target(row@, d, 0) == first_target(row@, d, z as int),
        decreases row.len() - z,
    {
        if row[z] && !destroyed[z] {
            assert(d.contains(z as int) == destroyed@[z as int]);
            return Some(z);
        }
        assert(d.contains(z as int) == destroyed@[z as int]);
        z = z + 1;
    }
    None
}

/// Resolve bullet/zombie collisions. `hits[b][z]` says whether bullet `b`
/// touches zombie `z`. Each bullet in turn destroys the first zombie it
/// touches that is not destroyed yet, and is then spent. Returns the kills
/// as (bullet, zombie) pairs in bullet order: one "zombie killed" message,
/// and one despawn of each of the two, per pair.
pub fn bullets_hit_zombies(hits: &Vec<Vec<bool>>, zombie_count: usize) -> (kills: Vec<(usize, usize)>)
    requires
        forall|b: int| 0 <= b < hits.len() ==> #[trigger] hits[b].len() == zombie_count,
    ensures
        kills.len() == hit_kills(hits.deep_view(), hits.len() as nat).0.len(),
        forall|i: int| 0 <= i < kills.len() ==> (#[trigger] kills[i]).0 as int == hit_kills(hits.deep_view(), hits.len() as nat).0[i].0
            && kills[i].1 as int == hit_kills(hits.deep_view(), hits.len() as nat).0[i].1,
        // every kill is a hit
        forall|i: int| 0 <= i < kills.len() ==> (#[trigger] kills[i]).0 < hits.len()
            && kills[i].1 < zombie_count && hits[kills[i].0 as int][kills[i].1 as int],
        // a bullet kills at most one zombie
        forall|i: int, j: int| 0 <= i < j < kills.len() ==> (#[trigger] kills[i]).0 < (#[trigger] kills[j]).0,
        // a zombie is destroyed at most once
        forall|i: int, j: int| 0 <= i < j < kills.len() ==> (#[trigger] kills[i]).1 != (#[trigger] kills[j]).1,
        // each kill is the first zombie the bullet touches that no earlier bullet destroyed
        forall|i: int, j: int|
            0 <= i < kills.len() && 0 <= j < kills[i].1 && #[trigger] hits[kills[i].0 as int][j]
                ==> exists|i2: int| 0 <= i2 < i && #[trigger] kills[i2].1 == j,
        // a bullet that killed nothing touched no surviving zombie
        forall|b: int, z: int|
            0 <= b < hits.len() && 0 <= z < zombie_count && #[trigger] hits[b][z]
                && !(exists|i: int| 0 <= i < kills.len() && #[trigger] kills[i].0 == b)
                ==> exists|i: int| 0 <= i < kills.len() && #[trigger] kills[i].1 == z,
{
    let ghost h = hits.deep_view();
    proof {
        lemma_rows_deep_view(hits);
    }
    let mut destroyed: Vec<bool> = Vec::new();
    let mut k: usize = 0;
    while k < zombie_count
        invariant
            k <= zombie_count,
            destroyed.len() == k,
            forall|z: int| 0 <= z < k ==> !destroyed[z],
        decreases zombie_count - k,
    {
        destroyed.push(false);
        k = k + 1;
    }
    assert(destroyed_set(destroyed@) =~= hit_kills(h, 0).1);
    let mut kills: Vec<(usize, usize)> = Vec::new();
    let mut b: usize = 0;
    while b < hits.len()
        invariant
            b <= hits.len(),
            h == hits.deep_view(),
            h.len() == hits.len(),
            forall|i: int| 0 <= i < hits.len() ==> #[trigger] h[i] == hits[i]@,
            forall|i: int| 0 <= i < hits.len() ==> #[trigger] hits[i].len() == zombie_count,
            destroyed.len() == zombie_count,
            destroyed_set(destroyed@) == hit_kills(h, b as nat).1,
            kills.len() == hit_kills(h, b as nat).0.len(),
            forall|i: int| 0 <= i < kills.len() ==> (#[trigger] kills[i]).0 as int == hit_kills(h, b as nat).0[i].0
                && kills[i].1 as int == hit_kills(h, b as nat).0[i].1,
        decreases hits.len() - b,
    {
        assert(h[b as int] == hits[b as int]@);
        let ghost prev = hit_kills(h, b as nat);
        proof {
            lemma_first_target(h[b as int], prev.1, 0);
        }
        match first_target_exec(&hits[b], &destroyed) {
            Some(z) => {
                assert(hit_kills(h, (b + 1) as nat) == (prev.0.push((b as int, z as int)), prev.1.insert(z as int)));
                assert(z < hits[b as int].len());
                destroyed.set(z, true);
                kills.push((b, z));
                assert(destroyed_set(destroyed@) =~= hit_kills(h, (b + 1) as nat).1);
            },
            None => {
                assert(hit_kills(h, (b + 1) as nat) == prev);
            },
        }
        b = b + 1;
    }
    proof {
        lemma_hit_kills(h, hits.len() as nat);
        let ks = hit_kills(h, hits.len() as nat).0;
        assert forall|i: int| 0 <= i < kills.len() implies (#[trigger] kills[i]).0 < hits.len()
            && kills[i].1 < zombie_count && hits[kills[i].0 as int][kills[i].1 as int] by {
            assert(ks[i].0 == kills[i].0);
            assert(ks[i].1 == kills[i].1);
            let bi: int = ks[i].0;
            assert(0 <= bi < h.len());
            assert(h[bi] == hits[bi]@);
            assert(h[bi][ks[i].1]);
            assert(hits[bi].len() == zombie_count);
        }
        assert forall|i: int, j: int|
            0 <= i < kills.len() && 0 <= j < kills[i].1 && #[trigger] hits[kills[i].0 as int][j]
                implies exists|i2: int| 0 <= i2 < i && #[trigger] kills[i2].1 == j by {
            assert(ks[i].0 == kills[i].0 && ks[i].1 == kills[i].1);
            let bi: int = ks[i].0;
            assert(h[bi] == hits[bi]@);
            assert(h[ks[i].0][j]);
            let i2: int = choose|i2: int| 0 <= i2 < i && #[trigger] ks[i2].1 == j;
            assert(kills[i2].1 == j);
        }
        assert forall|b2: int, z: int|
            0 <= b2 < hits.len() && 0 <= z < zombie_count && #[trigger] hits[b2][z]
                && !(exists|i: int| 0 <= i < kills.len() && #[trigger] kills[i].0 == b2)
                implies exists|i: int| 0 <= i < kills.len() && #[trigger] kills[i].1 == z by {
            assert(h[b2] == hits[b2]@);
            assert(h[b2][z]);
            if exists|i: int| 0 <= i < ks.len() && #[trigger] ks[i].0 == b2 {
                let i: int = choose|i: int| 0 <= i < ks.len() && #[trigger] ks[i].0 == b2;
                assert(kills[i].0 == b2);
            }
            assert(hits[b2].len() == zombie_count);
            assert(h[b2].len() == zombie_count);
            assert(!(exists|i: int| 0 <= i < ks.len() && #[trigger] ks[i].0 == b2));
            assert(hit_kills(h, hits.len() as nat).1.contains(z));
            let i: int = choose|i: int| 0 <= i < ks.len() && #[trigger] ks[i].1 == z;
            assert(kills[i].1 == z);
        }
    }
    kills
}

} // verus!
