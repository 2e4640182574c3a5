//! Creature progression and turn-based battle rules.

pub mod experience;
pub mod moves;
pub mod species;
pub mod stats;
pub mod species_registry;
pub mod creature;
pub mod encounter;
pub mod party;
pub mod battle;
