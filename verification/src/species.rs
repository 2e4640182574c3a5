use crate::experience::{GrowthRate, Level};
use crate::moves::MoveId;
use crate::stats::BaseStats;
use vstd::prelude::*;

verus! {

/// Identifies a species.
#[derive(Debug, Clone, Copy, PartialEq, Eq, Hash, Structural)]
pub struct SpeciesId(pub u16);

/// A move that a species can learn on reaching `level`.
#[derive(Debug, Clone, Copy, PartialEq, Eq, Structural)]
pub struct LearnsetEntry {
    pub level: Level,
    pub move_id: MoveId,
}

/// What all creatures of one species share.
#[derive(Debug, Clone)]
pub struct Species {
    pub id: SpeciesId,
    pub name: String,
    pub base_stats: BaseStats,
    pub growth_rate: GrowthRate,
    pub learnset: Vec<LearnsetEntry>,
}

} // verus!
