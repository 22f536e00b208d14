//! Deterministic physics and state-synchronization core of a two-player
//! Pong game.
//!
//! All quantities are fixed-point integers: positions and lengths are in
//! pixels, velocities in pixels per second, elapsed time in milliseconds,
//! and dimensionless factors (bounce angles, hit offsets) in thousandths.
//! This keeps every step of the simulation exact and bit-for-bit
//! reproducible across peers, which is what the wire protocol needs.

pub mod codec;
pub mod game;
pub mod physics;
