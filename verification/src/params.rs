//! Per-level behavior configuration, immutable for the duration of a round.
//!
//! Weights are per-mille: a weight of `vec2::SCALE` means a factor of one.
//! Speeds are milli-units per second, distances milli-units, times
//! milliseconds.

use vstd::prelude::*;
use crate::vec2::COORD_LIMIT;

verus! {

/// Largest steering weight (one thousand, in per-mille).
pub const WEIGHT_LIMIT: i64 = 1_000_000;

/// Largest speed a level may configure (milli-units per second).
pub const SPEED_LIMIT: i64 = 1_000_000_000;

/// Largest timer duration (milliseconds) the timers accept.
pub const DURATION_LIMIT: u64 = 1_000_000_000_000;

/// Upper bound on the random jitter added to the disruptor's re-arm
/// cooldown, in milliseconds.
pub const STOMP_JITTER_MAX: u64 = 2000;

/// The tunable steering and ability parameters of one level.
#[derive(Clone, Copy, Debug, PartialEq, Eq, Structural)]
pub struct AnimalBehavior {
    /// Weight of the alignment force (per-mille).
    pub alignment: i64,
    /// Weight of the cohesion force (per-mille).
    pub cohesion: i64,
    /// Weight of the separation force (per-mille).
    pub separation: i64,
    /// Weight of the predator-flee force (per-mille).
    pub fear: i64,
    /// Weight of the goal-seek force (per-mille).
    pub motivation: i64,
    /// Maximum flock-agent speed (milli-units per second).
    pub sheep_speed: i64,
    /// Herder speed (milli-units per second).
    pub dog_speed: i64,
    /// Neighbor vision radius (milli-units).
    pub vision: i64,
    /// Flee range as a multiple of the vision radius.
    pub flee_factor: i64,
    /// Speed gained at full flee magnitude (per-mille).
    pub flee_boost: i64,
    /// Disruptor re-arm cooldown before jitter (milliseconds).
    pub llama_stomp_rate: u64,
    /// Disruptor effect radius (milli-units).
    pub llama_stomp_range: i64,
    /// Disruptor impulse magnitude (milli-units).
    pub llama_stomp_force: i64,
}

/// Bounds every function of the core relies on.
pub open spec fn behavior_wf(b: AnimalBehavior) -> bool {
    &&& 0 <= b.alignment <= WEIGHT_LIMIT
    &&& 0 <= b.cohesion <= WEIGHT_LIMIT
    &&& 0 <= b.separation <= WEIGHT_LIMIT
    &&& 0 <= b.fear <= WEIGHT_LIMIT
    &&& 0 <= b.motivation <= WEIGHT_LIMIT
    &&& 0 <= b.flee_boost <= WEIGHT_LIMIT
    &&& 0 <= b.sheep_speed <= SPEED_LIMIT
    &&& 0 <= b.dog_speed <= SPEED_LIMIT
    &&& 0 <= b.vision <= COORD_LIMIT
    &&& 0 <= b.flee_factor
    &&& 0 <= b.vision * b.flee_factor <= 2 * COORD_LIMIT
    &&& 1 <= b.llama_stomp_rate <= 1_000_000_000
    &&& 0 <= b.llama_stomp_range <= COORD_LIMIT
    &&& 0 <= b.llama_stomp_force <= COORD_LIMIT
}

impl AnimalBehavior {
    /// Runtime check of `behavior_wf`, for configurations built from
    /// untrusted level data.
    pub fn is_wf(&self) -> (r: bool)
        ensures
            r == behavior_wf(*self),
    {
        proof {
            assert((self.vision as int) * (self.flee_factor as int) <= i128::MAX
                && (self.vision as int) * (self.flee_factor as int) >= i128::MIN)
                by (nonlinear_arith)
                requires
                    -0x8000_0000_0000_0000 <= self.vision <= 0x7FFF_FFFF_FFFF_FFFF,
                    -0x8000_0000_0000_0000 <= self.flee_factor <= 0x7FFF_FFFF_FFFF_FFFF,
            ;
        }
        let flee_range: i128 = (self.vision as i128) * (self.flee_factor as i128);
        let weights_ok = 0 <= self.alignment && self.alignment <= WEIGHT_LIMIT && 0 <= self.cohesion
            && self.cohesion <= WEIGHT_LIMIT && 0 <= self.separation && self.separation
            <= WEIGHT_LIMIT && 0 <= self.fear && self.fear <= WEIGHT_LIMIT && 0 <= self.motivation
            && self.motivation <= WEIGHT_LIMIT && 0 <= self.flee_boost && self.flee_boost
            <= WEIGHT_LIMIT;
        let rest_ok = 0 <= self.sheep_speed && self.sheep_speed <= SPEED_LIMIT && 0
            <= self.dog_speed && self.dog_speed <= SPEED_LIMIT && 0 <= self.vision && self.vision
            <= COORD_LIMIT && 0 <= self.flee_factor && 0 <= flee_range && flee_range <= 2 * (
        COORD_LIMIT as i128) && 1 <= self.llama_stomp_rate && self.llama_stomp_rate
            <= 1_000_000_000 && 0 <= self.llama_stomp_range && self.llama_stomp_range <= COORD_LIMIT
            && 0 <= self.llama_stomp_force && self.llama_stomp_force <= COORD_LIMIT;
        weights_ok && rest_ok
    }
}

impl Default for AnimalBehavior {
    /// The fallback configuration used when a level supplies none.
    fn default() -> (r: AnimalBehavior)
        ensures
            r == default_behavior(),
            behavior_wf(r),
    {
        proof {
            lemma_default_behavior_wf();
        }
        AnimalBehavior {
            alignment: 1000,
            cohesion: 1000,
            separation: 500,
            fear: 1000,
            motivation: 100,
            sheep_speed: 32_000,
            dog_speed: 50_000,
            vision: 20_000,
            flee_factor: 4,
            flee_boost: 1000,
            llama_stomp_rate: 5000,
            llama_stomp_range: 32_000,
            llama_stomp_force: 600_000,
        }
    }
}

/// The fallback configuration, as a value specs can refer to.
pub open spec fn default_behavior() -> AnimalBehavior {
    AnimalBehavior {
        alignment: 1000,
        cohesion: 1000,
        separation: 500,
        fear: 1000,
        motivation: 100,
        sheep_speed: 32_000,
        dog_speed: 50_000,
        vision: 20_000,
        flee_factor: 4,
        flee_boost: 1000,
        llama_stomp_rate: 5000,
        llama_stomp_range: 32_000,
        llama_stomp_force: 600_000,
    }
}

/// The fallback configuration satisfies the bounds.
pub proof fn lemma_default_behavior_wf()
    ensures
        behavior_wf(default_behavior()),
{
    assert(20_000 * 4 == 80_000) by (nonlinear_arith);
    assert(default_behavior().vision * default_behavior().flee_factor == 80_000);
}

} // verus!
