//! A tile-grid worker simulation: entities stand on a walkable map, are
//! selected with a box, take tasks from input events, turn their tasks into
//! timed single-slot actions, and move when those actions fall due, reading a
//! walkability snapshot rebuilt every tick.
//!
//! Time is given in milliseconds by the caller; randomness comes from the
//! caller's `rltk::RandomNumberGenerator`.
mod rng;

pub mod input;
pub mod map;
pub mod time;
pub mod world;
