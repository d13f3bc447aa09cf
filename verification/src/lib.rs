//! Authoritative core of a multiplayer arena game: seeded map generation,
//! a fixed-substep simulation tick with collision handling, a ray-marching
//! view engine, the client session state machine and a history recorder.
//!
//! All geometry is carried in decimal fixed point: a coordinate, radius,
//! speed, angle or time value is an `i64` counting ten-thousandths of a
//! unit, so `15000` stands for 1.5 units. The simulation itself rounds
//! its time bookkeeping to the same four decimal places, which this
//! representation holds exactly.

pub mod config;
pub mod fixed;
pub mod game;
pub mod history;
pub mod laws;
pub mod map;
pub mod player;
pub mod ray;
pub mod rng;
pub mod session;
pub mod trig;
