//! Zombie Arena: the rules of a small top-down survival game, verified.
//!
//! The game itself (windows, rendering, input, floating-point motion) is
//! driven by Bevy; this library holds the parts of it that decide things:
//! the random number generator, the play/game-over state machine and the
//! score, the fire-rate cooldown, zombie spawning and the resolution of
//! bullet/zombie hits.
pub mod bullet;
pub mod game_state;
pub mod player;
pub mod rng;
pub mod timer;
pub mod zombie;
