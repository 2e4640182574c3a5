use creatures::creature::{Creature, CreatureId, LearnMoveResult, LevelUpEvent};
use creatures::experience::{GrowthRate, Level};
use creatures::moves::MoveId;
use creatures::species::{LearnsetEntry, Species, SpeciesId};
use creatures::species_registry::{SpeciesRegistry, SpeciesTable};
use creatures::stats::{BaseStats, Stat};
use uuid::Uuid;

fn stat(n: u16) -> Stat {
    Stat::new(n).unwrap()
}

fn bulby() -> Species {
    Species {
        id: SpeciesId(1),
        name: String::from("Bulby"),
        base_stats: BaseStats {
            max_hp: stat(50),
            attack: stat(50),
            defense: stat(50),
            speed: stat(50),
        },
        growth_rate: GrowthRate::Fast,
        learnset: vec![
            LearnsetEntry {
                level: Level::new(5).unwrap(),
                move_id: MoveId(1),
            },
            LearnsetEntry {
                level: Level::new(10).unwrap(),
                move_id: MoveId(2),
            },
            LearnsetEntry {
                level: Level::new(15).unwrap(),
                move_id: MoveId(3),
            },
        ],
    }
}

/// A registry holding one species, Bulby, with moves to learn at levels 5, 10 and 15.
fn mock_registry() -> SpeciesTable {
    SpeciesTable::new(vec![bulby()])
}

fn test_creature(level: u8, registry: &SpeciesTable) -> Creature {
    Creature::new(registry.get_species(SpeciesId(1)).unwrap(), level).unwrap()
}

#[test]
fn single_level_up() {
    let registry = mock_registry();
    let growth_rate = registry.get_growth_rate(SpeciesId(1)).unwrap();
    let mut creature = test_creature(5, &registry);

    let target_level = creature.level.next().unwrap();
    let required_exp = growth_rate.exp_for_level(target_level);

    creature.gain_exp(required_exp, &registry);

    assert_eq!(creature.level, Level::new(6).unwrap());
}

#[test]
fn reach_max_level() {
    let registry = mock_registry();
    let growth_rate = registry.get_growth_rate(SpeciesId(1)).unwrap();
    let mut creature = test_creature(95, &registry);
    let exp_needed =
        growth_rate.exp_for_level(Level::new(Level::MAX).unwrap()) - creature.experience;
    creature.gain_exp(exp_needed, &registry);

    assert_eq!(creature.level.get(), Level::MAX);
    assert_eq!(
        creature.experience,
        growth_rate.exp_for_level(Level::new(Level::MAX).unwrap())
    );
}

#[test]
fn multiple_level_ups() {
    let registry = mock_registry();
    let growth_rate = registry.get_growth_rate(SpeciesId(1)).unwrap();
    let mut creature = test_creature(5, &registry);

    let exp_to_gain = growth_rate.exp_for_level(Level::new(8).unwrap()) - creature.experience;
    creature.gain_exp(exp_to_gain, &registry);

    assert_eq!(creature.level, Level::new(8).unwrap());
    assert_eq!(
        creature.experience,
        growth_rate.exp_for_level(Level::new(8).unwrap())
    );
}

#[test]
fn creature_creation() {
    let registry = mock_registry();
    let c = test_creature(5, &registry);

    assert_eq!(c.current_hp, 20);
    assert_eq!(c.level.get(), 5);
    assert!(c.name().contains("Bulby"));
    assert_eq!(c.individual_stats.attack.get(), 10);
}

#[test]
fn hp_modification() {
    let registry = mock_registry();
    let mut c = test_creature(5, &registry);

    c.modify_hp(-10);
    assert_eq!(c.current_hp, 10);

    c.modify_hp(5);
    assert_eq!(c.current_hp, 15);

    c.modify_hp(100);
    assert_eq!(c.current_hp, 20);

    c.modify_hp(-100);
    assert_eq!(c.current_hp, 0);
    assert!(c.is_fainted());
}

#[test]
fn level_up_triggers_learn_move_event() {
    let species_registry = mock_registry(); // learnset in mock: lvl 5, 10, 15

    let mut creature =
        Creature::new(species_registry.get_species(SpeciesId(1)).unwrap(), 4).unwrap();

    let events = creature.level_up(Level::new(5).unwrap(), &species_registry);

    assert_eq!(events.len(), 1);

    match &events[0] {
        LevelUpEvent::CanLearnMove { move_id } => {
            assert_eq!(*move_id, MoveId(1)); // corresponds to the first move in the learnset
        }
        _ => panic!("Expected CanLearnMove event at level 5"),
    }
}

#[test]
fn gain_exp_triggers_multiple_learn_move_events() {
    let species_registry = mock_registry(); // learnset: lvl 5, 10, 15

    let mut creature =
        Creature::new(species_registry.get_species(SpeciesId(1)).unwrap(), 9).unwrap();
    let gr = GrowthRate::Fast;

    let needed_exp =
        gr.exp_for_level(Level::new(15).unwrap()) - gr.exp_for_level(Level::new(9).unwrap());

    // Give enough EXP to jump to level 15
    let events = creature.gain_exp(needed_exp, &species_registry);

    // We expect two learn-move events: for levels 10 and 15
    let learn_move_events: Vec<_> = events
        .iter()
        .filter(|e| matches!(e, LevelUpEvent::CanLearnMove { .. }))
        .collect();

    assert_eq!(learn_move_events.len(), 2);

    match learn_move_events[0] {
        LevelUpEvent::CanLearnMove { move_id } => assert_eq!(*move_id, MoveId(2)), // level 10
        _ => panic!("Expected CanLearnMove event at level 10"),
    }

    match learn_move_events[1] {
        LevelUpEvent::CanLearnMove { move_id } => assert_eq!(*move_id, MoveId(3)), // level 15
        _ => panic!("Expected CanLearnMove event at level 15"),
    }
}

#[test]
fn gain_exp_saturates_to_max_level_experience() {
    let registry = mock_registry();
    let growth_rate = registry.get_growth_rate(SpeciesId(1)).unwrap();
    let mut creature = test_creature(5, &registry);

    let events = creature.gain_exp(u32::MAX, &registry);

    assert_eq!(creature.level.get(), Level::MAX);
    assert_eq!(
        creature.experience,
        growth_rate.exp_for_level(Level::new(Level::MAX).unwrap())
    );
    assert!(events
        .iter()
        .any(|event| matches!(event, LevelUpEvent::CanLearnMove { .. })));
}

#[test]
fn new_creature_rejects_invalid_level() {
    let species = bulby();
    assert!(Creature::new(&species, 0).is_none());
    assert!(Creature::new(&species, 101).is_none());
}

#[test]
fn new_creature_starts_at_level_threshold_with_empty_slots() {
    let species = bulby();
    let c = Creature::new(&species, 10).unwrap();
    assert_eq!(c.experience, 800);
    assert_eq!(c.species_id, SpeciesId(1));
    assert_eq!(c.individual_stats.max_hp.get(), 30);
    assert_eq!(c.individual_stats.defense.get(), 15);
    assert_eq!(c.current_hp, 30);
    assert!(c.moves.iter().all(|m| m.is_none()));
}

#[test]
fn gaining_no_experience_changes_nothing() {
    let registry = mock_registry();
    let mut c = test_creature(7, &registry);
    let stats_before = c.individual_stats;
    let events = c.gain_exp(0, &registry);
    assert!(events.is_empty());
    assert_eq!(c.level.get(), 7);
    assert_eq!(c.individual_stats, stats_before);
}

#[test]
fn stats_after_level_up_are_those_of_the_level_left() {
    let registry = mock_registry();
    let mut c = test_creature(5, &registry);
    let needed = GrowthRate::Fast.exp_for_level(Level::new(7).unwrap()) - c.experience;
    c.gain_exp(needed, &registry);
    assert_eq!(c.level.get(), 7);
    // Statistics are recomputed before the level changes, so they match level 6.
    assert_eq!(c.individual_stats.max_hp.get(), 2 * 50 * 6 / 100 + 6 + 10);
    assert_eq!(c.individual_stats.speed.get(), 2 * 50 * 6 / 100 + 5);
}

#[test]
fn gained_level_matches_level_of_experience() {
    let registry = mock_registry();
    let mut c = test_creature(3, &registry);
    c.gain_exp(12_345, &registry);
    assert_eq!(c.level, GrowthRate::Fast.level_from_exp(c.experience));
}

#[test]
fn hp_from_high_value_wraps_as_signed() {
    let registry = mock_registry();
    let mut c = test_creature(5, &registry);
    c.current_hp = 40_000;
    c.modify_hp(0);
    assert_eq!(c.current_hp, 0);
    c.current_hp = 3;
    c.modify_hp(i16::MIN + 10);
    assert_eq!(c.current_hp, 0);
}

#[test]
fn learning_and_forgetting_moves() {
    let registry = mock_registry();
    let mut c = test_creature(5, &registry);
    assert_eq!(c.try_learn_move(MoveId(7), 20), LearnMoveResult::Learned);
    assert_eq!(c.try_learn_move(MoveId(7), 30), LearnMoveResult::AlreadyKnown);
    assert_eq!(c.moves[0].unwrap().pp.max, 20);
    assert_eq!(c.try_learn_move(MoveId(8), 10), LearnMoveResult::Learned);
    assert_eq!(c.try_learn_move(MoveId(9), 10), LearnMoveResult::Learned);
    assert_eq!(c.try_learn_move(MoveId(10), 10), LearnMoveResult::Learned);
    assert_eq!(
        c.try_learn_move(MoveId(11), 10),
        LearnMoveResult::MustForgetOldMove
    );

    let forgotten = c.forget_move(1).unwrap();
    assert_eq!(forgotten.move_id, MoveId(8));
    assert!(c.moves[1].is_none());
    assert!(c.forget_move(1).is_none());
    assert!(c.forget_move(4).is_none());

    assert_eq!(c.try_learn_move(MoveId(11), 15), LearnMoveResult::Learned);
    let slot = c.moves[1].unwrap();
    assert_eq!(slot.move_id, MoveId(11));
    assert_eq!(slot.pp.current, 15);
    assert_eq!(slot.pp.max, 15);
}

#[test]
fn creature_ids_round_trip_uuids() {
    let uuid = Uuid::from_u128(0x1234_5678_9abc_def0_1234_5678_9abc_def0);
    let id = CreatureId::from_uuid(uuid);
    assert_eq!(id.as_uuid(), uuid);
    assert_ne!(CreatureId::new().as_uuid(), CreatureId::new().as_uuid());
    assert_eq!(CreatureId::new().as_uuid().get_version_num(), 4);
}

#[test]
fn species_table_lookup() {
    let mut other = bulby();
    other.name = String::from("Other");
    other.growth_rate = GrowthRate::Slow;
    let table = SpeciesTable::new(vec![bulby(), other]);
    assert_eq!(table.get_species(SpeciesId(1)).unwrap().name, "Bulby");
    assert_eq!(table.get_growth_rate(SpeciesId(1)), Some(GrowthRate::Fast));
    assert!(table.get_species(SpeciesId(2)).is_none());
    assert_eq!(table.get_growth_rate(SpeciesId(2)), None);
}
