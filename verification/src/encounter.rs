use vstd::prelude::*;

verus! {

/// Something that plays out turn by turn until it is over.
pub trait Encounter {
    /// The next turn can be processed without running out of turn numbers.
    spec fn can_process_turn(&self) -> bool;

    fn process_turn(&mut self)
        requires
            old(self).can_process_turn(),
    ;

    fn is_over(&self) -> bool;
}

} // verus!
