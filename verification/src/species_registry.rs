use crate::experience::GrowthRate;
use crate::species::{Species, SpeciesId};
use vstd::prelude::*;

verus! {

/// Where creatures look up the data of their species.
///
/// An implementation answers each id the same way every time: `get_species` and
/// `get_growth_rate` report what `species_of` and `growth_rate_of` say of that id.
pub trait SpeciesRegistry {
    /// The species registered under `id`, if any.
    spec fn species_of(&self, id: SpeciesId) -> Option<Species>;

    /// The growth rate registered for `id`, if any.
    spec fn growth_rate_of(&self, id: SpeciesId) -> Option<GrowthRate>;

    fn get_species(&self, id: SpeciesId) -> (r: Option<&Species>)
        ensures
            r is Some <==> self.species_of(id) is Some,
            r matches Some(s) ==> *s == self.species_of(id).unwrap(),
    ;

    fn get_growth_rate(&self, id: SpeciesId) -> (r: Option<GrowthRate>)
        ensures
            r == self.growth_rate_of(id),
    ;
}

/// The first species in `list` that carries `id`.
pub open spec fn first_with_id(list: Seq<Species>, id: SpeciesId) -> Option<Species>
    decreases list.len(),
{
    if list.len() == 0 {
        None
    } else if list[0].id == id {
        Some(list[0])
    } else {
        first_with_id(list.drop_first(), id)
    }
}

/// A registry backed by a list of species; the first entry with a given id wins.
#[derive(Debug, Clone)]
pub struct SpeciesTable {
    pub species: Vec<Species>,
}

impl SpeciesTable {
    pub fn new(species: Vec<Species>) -> (r: Self)
        ensures
            r.species@ == species@,
    {
        SpeciesTable { species }
    }

    fn position_of(&self, id: SpeciesId) -> (r: Option<usize>)
        ensures
            r is None ==> first_with_id(self.species@, id) is None,
            r matches Some(i) ==> i < self.species@.len() && first_with_id(self.species@, id) == Some(
                self.species@[i as int],
            ),
    {
        let mut i: usize = 0;
        assert(self.species@.skip(0) =~= self.species@);
        while i < self.species.len()
            invariant
                i <= self.species@.len(),
                first_with_id(self.species@, id) == first_with_id(self.species@.skip(i as int), id),
            decreases self.species@.len() - i,
        {
            assert(self.species@.skip(i as int).drop_first() =~= self.species@.skip(i + 1));
            if self.species[i].id == id {
                return Some(i);
            }
            i = i + 1;
        }
        None
    }
}

impl SpeciesRegistry for SpeciesTable {
    open spec fn species_of(&self, id: SpeciesId) -> Option<Species> {
        first_with_id(self.species@, id)
    }

    open spec fn growth_rate_of(&self, id: SpeciesId) -> Option<GrowthRate> {
        match first_with_id(self.species@, id) {
            Some(s) => Some(s.growth_rate),
            None => None,
        }
    }

    fn get_species(&self, id: SpeciesId) -> (r: Option<&Species>) {
        match self.position_of(id) {
            Some(i) => Some(&self.species[i]),
            None => None,
        }
    }

    fn get_growth_rate(&self, id: SpeciesId) -> (r: Option<GrowthRate>) {
        match self.position_of(id) {
            Some(i) => Some(self.species[i].growth_rate),
            None => None,
        }
    }
}

} // verus!
