use vstd::prelude::*;

verus! {

/// A battle statistic, always within `Stat::MIN..=Stat::MAX`.
#[derive(Debug, Clone, Copy, PartialEq, Eq, Structural)]
pub struct Stat(u16);

impl View for Stat {
    type V = int;

    closed spec fn view(&self) -> int {
        self.0 as int
    }
}

impl Stat {
    pub const MIN: u16 = 1;

    pub const MAX: u16 = 999;

    #[verifier::type_invariant]
    spec fn in_range(self) -> bool {
        1 <= self.0 <= 999
    }

    pub fn new(value: u16) -> (r: Option<Self>)
        ensures
            r is Some <==> 1 <= value <= 999,
            r matches Some(s) ==> s@ == value,
    {
        if Self::MIN <= value && value <= Self::MAX {
            Some(Stat(value))
        } else {
            None
        }
    }

    pub fn get(self) -> (r: u16)
        ensures
            r == self@,
            1 <= r <= 999,
    {
        proof {
            use_type_invariant(self);
        }
        self.0
    }
}

/// The statistics a species starts from.
#[derive(Debug, Clone, Copy, PartialEq, Eq, Structural)]
pub struct BaseStats {
    pub max_hp: Stat,
    pub attack: Stat,
    pub defense: Stat,
    pub speed: Stat,
}

/// The statistics of one creature.
#[derive(Debug, Clone, Copy, PartialEq, Eq, Structural)]
pub struct IndividualStats {
    pub max_hp: Stat,
    pub attack: Stat,
    pub defense: Stat,
    pub speed: Stat,
}

impl IndividualStats {
    pub fn from_base(base: &BaseStats) -> (r: Self)
        ensures
            r.max_hp == base.max_hp,
            r.attack == base.attack,
            r.defense == base.defense,
            r.speed == base.speed,
    {
        IndividualStats {
            max_hp: base.max_hp,
            attack: base.attack,
            defense: base.defense,
            speed: base.speed,
        }
    }
}

} // verus!
