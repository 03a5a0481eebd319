//! Turn-based combat between two combatants and a Monte Carlo estimate of its
//! outcome: hit-outcome distributions, the damage pipeline, stacking and
//! expiry of skills, the combat cycle and the aggregation of many fights.
//!
//! Fractions and multipliers are fixed-point values in millionths (see
//! `fixed`). Randomness comes from a seedable generator handed in by the
//! caller; each single draw (an outcome, a target, the status-effect rolls)
//! has a deterministic counterpart that takes the drawn values.

pub mod fixed;
pub mod hit;
pub mod random;
pub mod sim;
pub mod stat;
