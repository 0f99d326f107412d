# zombie_arena

The rules of Zombie Arena, a small top-down survival game built on Bevy,
as a library verified with Verus, and the Bevy program around it.

- `src/` — the verified library:
  - `rng.rs` — the xorshift generator (and why a non-zero seed never stalls);
  - `game_state.rs` — the play/game-over state machine and the score;
  - `timer.rs` — Bevy's `Timer::tick`, reached through two trusted wrappers
    on plain nanosecond values;
  - `bullet.rs` — the fire cooldown, `shoot`, and the fire-rate law;
  - `zombie.rs` — spawn timing, the population cap, edge choice, and the
    resolution of bullet/zombie hits;
  - `player.rs` — movement keys to a direction.
- `tests/` — tests of the library, some against Bevy's own `Timer`.
- `app/` — the Bevy program: plugins, systems, rendering, input, and the
  floating-point motion, distances and health that the library leaves out.
