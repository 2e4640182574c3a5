use crate::creature::CreatureId;
use crate::encounter::Encounter;
use crate::party::{all_members_fainted, Party};
use vstd::prelude::*;

verus! {

/// Represents the phases of a battle turn
#[derive(Debug, Clone, Copy, PartialEq, Eq, Structural)]
pub enum BattleState {
    StartTurn,
    SelectActions,
    ResolveActions,
    EndTurn,
    Finished,
}

/// The phase that follows `state` in the turn cycle; a finished battle stays finished.
pub open spec fn next_state(state: BattleState) -> BattleState {
    match state {
        BattleState::StartTurn => BattleState::SelectActions,
        BattleState::SelectActions => BattleState::ResolveActions,
        BattleState::ResolveActions => BattleState::EndTurn,
        BattleState::EndTurn => BattleState::StartTurn,
        BattleState::Finished => BattleState::Finished,
    }
}

/// A battle that is not finished comes back to the same phase after four steps, and a
/// finished battle never leaves that state.
pub proof fn lemma_turn_cycle(state: BattleState)
    ensures
        next_state(next_state(next_state(next_state(state)))) == state,
        state == BattleState::Finished <==> next_state(state) == BattleState::Finished,
{
}

/// Represents a single turn and the actions selected for it
#[derive(Debug)]
pub struct Turn {
    pub turn_number: u32,
    pub actions: Vec<BattleAction>,
}

impl Turn {
    pub fn new(turn_number: u32) -> (r: Self)
        ensures
            r.turn_number == turn_number,
            r.actions@ == Seq::<BattleAction>::empty(),
    {
        Self { turn_number, actions: Vec::new() }
    }

    pub fn add_action(&mut self, action: BattleAction)
        ensures
            final(self).turn_number == old(self).turn_number,
            final(self).actions@ == old(self).actions@.push(action),
    {
        self.actions.push(action);
    }
}

/// Represents a possible action a creature can take in battle
#[derive(Debug, Clone)]
pub enum BattleAction {
    Attack { attacker_id: CreatureId, target_id: CreatureId },
    Switch { out_id: CreatureId, in_id: CreatureId },
    UseItem { user_id: CreatureId, item_id: u32 },
    Pass,
}

/// The Battle struct itself, managing parties and turn state
pub struct Battle {
    pub parties: [Party; 2],
    pub state: BattleState,
    pub current_turn: Turn,
}

/// One of the two parties can no longer fight.
pub open spec fn some_party_defeated(parties: [Party; 2]) -> bool {
    all_members_fainted(parties@[0].members@) || all_members_fainted(parties@[1].members@)
}

impl Battle {
    pub fn new(party1: Party, party2: Party) -> (r: Self)
        ensures
            r.parties@ == seq![party1, party2],
            r.state == BattleState::StartTurn,
            r.current_turn.turn_number == 1,
            r.current_turn.actions@ == Seq::<BattleAction>::empty(),
    {
        Self { parties: [party1, party2], state: BattleState::StartTurn, current_turn: Turn::new(1) }
    }

    /// Advance to the next state in the turn cycle
    pub fn advance_state(&mut self)
        requires
            old(self).state == BattleState::EndTurn ==> old(self).current_turn.turn_number < u32::MAX,
        ensures
            final(self).state == next_state(old(self).state),
            old(self).state == BattleState::EndTurn ==> final(self).current_turn.turn_number
                == old(self).current_turn.turn_number + 1 && final(self).current_turn.actions@
                == Seq::<BattleAction>::empty(),
            old(self).state != BattleState::EndTurn ==> final(self).current_turn
                == old(self).current_turn,
            final(self).parties == old(self).parties,
    {
        self.state = match self.state {
            BattleState::StartTurn => BattleState::SelectActions,
            BattleState::SelectActions => BattleState::ResolveActions,
            BattleState::ResolveActions => BattleState::EndTurn,
            BattleState::EndTurn => {
                self.current_turn = Turn::new(self.current_turn.turn_number + 1);
                BattleState::StartTurn
            },
            BattleState::Finished => BattleState::Finished,
        };
    }

    fn any_party_defeated(&self) -> (r: bool)
        ensures
            r <==> some_party_defeated(self.parties),
    {
        self.parties[0].all_fainted() || self.parties[1].all_fainted()
    }
}

impl Encounter for Battle {
    open spec fn can_process_turn(&self) -> bool {
        self.state == BattleState::EndTurn && !some_party_defeated(self.parties)
            ==> self.current_turn.turn_number < u32::MAX
    }

    /// Plays one step of the turn cycle; the battle finishes as soon as a party has no
    /// member left standing.
    fn process_turn(&mut self)
        ensures
            old(self).state == BattleState::Finished ==> final(self).state == BattleState::Finished,
            old(self).state != BattleState::Finished && some_party_defeated(old(self).parties)
                ==> final(self).state == BattleState::Finished && final(self).current_turn
                == old(self).current_turn,
            old(self).state != BattleState::Finished && !some_party_defeated(old(self).parties)
                ==> {
                &&& final(self).state == next_state(old(self).state)
                &&& old(self).state == BattleState::EndTurn ==> final(self).current_turn.turn_number
                    == old(self).current_turn.turn_number + 1
                    && final(self).current_turn.actions@ == Seq::<BattleAction>::empty()
                &&& old(self).state != BattleState::EndTurn ==> final(self).current_turn
                    == old(self).current_turn
            },
            old(self).state == BattleState::Finished ==> final(self).current_turn
                == old(self).current_turn,
            final(self).parties == old(self).parties,
    {
        if self.state == BattleState::Finished {
            return;
        }

        if self.any_party_defeated() {
            self.state = BattleState::Finished;
            return;
        }

        self.advance_state();

        if self.any_party_defeated() {
            self.state = BattleState::Finished;
        }
    }

    fn is_over(&self) -> (r: bool)
        ensures
            r <==> self.state == BattleState::Finished,
    {
        self.state == BattleState::Finished
    }
}

} // verus!
