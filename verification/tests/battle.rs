use creatures::battle::{Battle, BattleAction, BattleState, Turn};
use creatures::creature::{Creature, CreatureId};
use creatures::encounter::Encounter;
use creatures::experience::GrowthRate;
use creatures::party::Party;
use creatures::species::{Species, SpeciesId};
use creatures::stats::{BaseStats, Stat};

fn creature() -> Creature {
    let s = Stat::new(40).unwrap();
    let species = Species {
        id: SpeciesId(3),
        name: String::from("Pebble"),
        base_stats: BaseStats {
            max_hp: s,
            attack: s,
            defense: s,
            speed: s,
        },
        growth_rate: GrowthRate::MediumFast,
        learnset: vec![],
    };
    Creature::new(&species, 10).unwrap()
}

fn party() -> Party {
    Party::new(vec![creature(), creature()])
}

#[test]
fn battle_cycles_through_turn_phases() {
    let mut battle = Battle::new(party(), party());
    assert_eq!(battle.state, BattleState::StartTurn);
    assert_eq!(battle.current_turn.turn_number, 1);
    battle.advance_state();
    assert_eq!(battle.state, BattleState::SelectActions);
    battle.advance_state();
    assert_eq!(battle.state, BattleState::ResolveActions);
    battle.advance_state();
    assert_eq!(battle.state, BattleState::EndTurn);
    battle.advance_state();
    assert_eq!(battle.state, BattleState::StartTurn);
    assert_eq!(battle.current_turn.turn_number, 2);
}

#[test]
fn finished_battle_stays_finished() {
    let mut battle = Battle::new(party(), party());
    battle.state = BattleState::Finished;
    battle.advance_state();
    assert_eq!(battle.state, BattleState::Finished);
    battle.process_turn();
    assert!(battle.is_over());
}

#[test]
fn process_turn_advances_until_a_party_faints() {
    let mut battle = Battle::new(party(), party());
    battle.process_turn();
    assert_eq!(battle.state, BattleState::SelectActions);
    assert!(!battle.is_over());

    for member in battle.parties[1].members.iter_mut() {
        member.modify_hp(-1000);
    }
    assert!(battle.parties[1].all_fainted());
    battle.process_turn();
    assert_eq!(battle.state, BattleState::Finished);
    assert!(battle.is_over());
}

#[test]
fn empty_party_counts_as_fainted() {
    let mut battle = Battle::new(Party::new(vec![]), party());
    battle.process_turn();
    assert!(battle.is_over());
}

#[test]
fn party_with_one_standing_member_is_not_fainted() {
    let mut p = party();
    p.members[0].modify_hp(-1000);
    assert!(!p.all_fainted());
    p.members[1].modify_hp(-1000);
    assert!(p.all_fainted());
}

#[test]
fn turn_collects_actions() {
    let mut turn = Turn::new(7);
    let a = CreatureId::new();
    let b = CreatureId::new();
    turn.add_action(BattleAction::Attack {
        attacker_id: a,
        target_id: b,
    });
    turn.add_action(BattleAction::Pass);
    assert_eq!(turn.turn_number, 7);
    assert_eq!(turn.actions.len(), 2);
    assert!(matches!(turn.actions[1], BattleAction::Pass));
}
