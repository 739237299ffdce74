//! Core simulation library for a herding game: steering of flock agents,
//! behavior states, a cooldown-gated disruptor ability, and round progress.
//!
//! All geometry is fixed-point: one world unit is `vec2::SCALE` milli-units,
//! so every quantity is an integer and every step of the steering pipeline
//! has an exact contract.

pub mod agents;
pub mod behavior;
pub mod dog;
pub mod layout;
pub mod levels;
pub mod llama;
pub mod params;
pub mod progress;
pub mod sheep;
pub mod spatial;
pub mod timers;
pub mod vec2;
