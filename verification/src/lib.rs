//! A small reflex game: numbered circles grow on a fixed 500x600 logical
//! canvas; the player clicks inside a circle before it grows past the radius
//! cap to pop it and add its value toward a target score of 99.
//!
//! The game-state machine lives here, fully verified. The platform glue
//! (canvas drawing, event wiring, frame scheduling) is an external
//! collaborator that feeds `tick` and `click` and reads `scene`.

pub mod game;
pub mod laws;
pub mod platform;
mod rng;
