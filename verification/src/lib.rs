//! A deterministic, turn-based combat simulator.
//!
//! Two characters, each with health, a per-hit damage value and an attack
//! cooldown, exchange strikes under a virtual turn clock until one side's
//! health drops to zero or below.  The engine records every strike in an
//! ordered history and is a pure function of the two characters' stats, so
//! repeated battles between equally-statted characters yield identical logs.
//!
//! All quantities are integers; a character's `attack_speed` is its cooldown
//! expressed in whole time units (callers that think in fractional cooldowns
//! scale them to a common unit, e.g. tenths).

pub mod attack;
pub mod character;
pub mod engine;
pub mod laws;
pub mod scheduler;
pub mod stats;
