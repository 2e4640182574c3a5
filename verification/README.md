# creatures

Creature progression and turn-based battle rules, verified with Verus.

- `src/experience.rs`: levels, growth rates, experience thresholds and the level that an
  amount of experience corresponds to, with the laws relating them.
- `src/creature.rs`: creatures, their statistics, hit points, experience gain, level-ups
  and move slots.
- `src/battle/`: the phases of a battle turn.
- `src/species.rs`, `src/species_registry.rs`, `src/stats.rs`, `src/moves.rs`,
  `src/party.rs`, `src/encounter.rs`: the data these rest on.
