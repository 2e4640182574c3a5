use crate::creature::Creature;
use vstd::prelude::*;

verus! {

/// The creatures that one side brings to a battle.
#[derive(Debug, Clone)]
pub struct Party {
    pub members: Vec<Creature>,
}

/// Every member of `members` has fainted (an empty party counts as fainted).
pub open spec fn all_members_fainted(members: Seq<Creature>) -> bool {
    forall|i: int| 0 <= i < members.len() ==> #[trigger] members[i].current_hp == 0
}

impl Party {
    pub fn new(members: Vec<Creature>) -> (r: Self)
        ensures
            r.members@ == members@,
    {
        Party { members }
    }

    /// Whether no member of the party can fight on.
    pub fn all_fainted(&self) -> (r: bool)
        ensures
            r <==> all_members_fainted(self.members@),
    {
        let mut i: usize = 0;
        while i < self.members.len()
            invariant
                i <= self.members@.len(),
                forall|j: int| 0 <= j < i ==> #[trigger] self.members@[j].current_hp == 0,
            decreases self.members@.len() - i,
        {
            if !self.members[i].is_fainted() {
                return false;
            }
            i = i + 1;
        }
        true
    }
}

} // verus!
