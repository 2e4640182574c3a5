use vstd::prelude::*;

verus! {

/// Identifies a move that creatures can learn.
#[derive(Debug, Clone, Copy, PartialEq, Eq, Hash, Structural)]
pub struct MoveId(pub u16);

} // verus!
