use crate::experience::{
    exp_threshold, lemma_search_finds_highest_reached, level_search, GrowthRate, Level,
};
use crate::moves::MoveId;
use crate::species::{LearnsetEntry, Species, SpeciesId};
use crate::species_registry::SpeciesRegistry;
use crate::stats::{BaseStats, IndividualStats, Stat};
use uuid::Uuid;
use vstd::prelude::*;

verus! {

/// The `uuid` crate's `Uuid`, carried through as an opaque value.
#[verifier::external_type_specification]
#[verifier::external_body]
pub struct ExUuid(Uuid);

/// Calls `uuid::Uuid::new_v4`, which draws a fresh random identifier. Its value comes
/// from a random source, so nothing is stated of it.
#[verifier::external_body]
fn random_uuid() -> Uuid {
    Uuid::new_v4()
}

/// Globally unique identifier for each persistent creature
#[derive(Debug, Clone, Copy, PartialEq, Eq, Hash)]
pub struct CreatureId(Uuid);

impl View for CreatureId {
    type V = Uuid;

    closed spec fn view(&self) -> Uuid {
        self.0
    }
}

impl Default for CreatureId {
    fn default() -> Self {
        Self::new()
    }
}

impl CreatureId {
    /// A fresh, randomly drawn identifier.
    pub fn new() -> Self {
        CreatureId(random_uuid())
    }

    pub fn from_uuid(uuid: Uuid) -> (r: Self)
        ensures
            r@ == uuid,
    {
        CreatureId(uuid)
    }

    pub fn as_uuid(&self) -> (r: Uuid)
        ensures
            r == self@,
    {
        self.0
    }
}

/// Maximum hit points at `level` for a species whose base hit points are `base`.
pub open spec fn hp_at(base: int, level: int) -> int {
    (2 * base * level) / 100 + level + 10
}

/// Any other statistic at `level` for a species whose base value is `base`.
pub open spec fn stat_at(base: int, level: int) -> int {
    (2 * base * level) / 100 + 5
}

/// The statistics at `level` can be computed in 16 bits and stay within `Stat::MAX`.
pub open spec fn stats_fit(base: BaseStats, level: int) -> bool {
    &&& 2 * base.max_hp@ * level <= u16::MAX
    &&& hp_at(base.max_hp@, level) <= 999
    &&& 2 * base.attack@ * level <= u16::MAX
    &&& stat_at(base.attack@, level) <= 999
    &&& 2 * base.defense@ * level <= u16::MAX
    &&& stat_at(base.defense@, level) <= 999
    &&& 2 * base.speed@ * level <= u16::MAX
    &&& stat_at(base.speed@, level) <= 999
}

/// `stats` are those of a creature at `level` whose species has `base`.
pub open spec fn stats_at(stats: IndividualStats, base: BaseStats, level: int) -> bool {
    &&& stats.max_hp@ == hp_at(base.max_hp@, level)
    &&& stats.attack@ == stat_at(base.attack@, level)
    &&& stats.defense@ == stat_at(base.defense@, level)
    &&& stats.speed@ == stat_at(base.speed@, level)
}

/// The hit points `hp` read as a signed 16-bit number.
pub open spec fn signed_hp(hp: u16) -> int {
    if hp <= i16::MAX {
        hp as int
    } else {
        hp - 0x1_0000
    }
}

/// `hp` held to `0..=max`.
pub open spec fn clamp_hp(hp: int, max: int) -> int {
    if hp < 0 {
        0
    } else if hp > max {
        max
    } else {
        hp
    }
}

/// Experience after gaining `amount` on top of `exp`: the sum, saturated at `u32::MAX`,
/// held to the threshold of the maximum level.
pub open spec fn exp_after_gain(rate: GrowthRate, exp: int, amount: int) -> int {
    let sum = if exp + amount > u32::MAX {
        u32::MAX as int
    } else {
        exp + amount
    };
    let max = exp_threshold(rate, 100);
    if sum <= max {
        sum
    } else {
        max
    }
}

/// The level a creature at `level` with `exp` experience climbs to: it keeps going up
/// while the experience reaches the threshold of the next level.
pub open spec fn level_reached(rate: GrowthRate, level: int, exp: int) -> int
    decreases 100 - level,
{
    if level >= 100 || exp < exp_threshold(rate, level + 1) {
        level
    } else {
        level_reached(rate, level + 1, exp)
    }
}

/// Climbing leaves no reachable level-up undone and passes no level out of reach: from a
/// level in `1..=100`, the level reached is at most 100, every level above the start up to
/// it has its threshold within `exp`, and it is either level 100 or the next threshold lies
/// beyond `exp`.
pub proof fn lemma_level_reached_is_complete(rate: GrowthRate, level: int, exp: int)
    requires
        1 <= level <= 100,
    ensures
        level <= level_reached(rate, level, exp) <= 100,
        level_reached(rate, level, exp) == 100 || exp < exp_threshold(
            rate,
            level_reached(rate, level, exp) + 1,
        ),
        forall|l: int|
            level < l <= level_reached(rate, level, exp) ==> exp_threshold(rate, l) <= exp,
    decreases 100 - level,
{
    if !(level >= 100 || exp < exp_threshold(rate, level + 1)) {
        lemma_level_reached_is_complete(rate, level + 1, exp);
    }
}

proof fn lemma_level_reached_bounds(rate: GrowthRate, level: int, exp: int)
    ensures
        level <= level_reached(rate, level, exp),
        level <= 100 ==> level_reached(rate, level, exp) <= 100,
    decreases 100 - level,
{
    if !(level >= 100 || exp < exp_threshold(rate, level + 1)) {
        lemma_level_reached_bounds(rate, level + 1, exp);
    }
}

/// For every rate but the erratic one, gaining experience lifts a creature to the level
/// that its experience corresponds to, unless it already stands higher.
pub proof fn lemma_gain_reaches_level_of_exp(rate: GrowthRate, level: int, exp: int)
    requires
        rate != GrowthRate::Erratic,
        1 <= level <= 100,
    ensures
        level_reached(rate, level, exp) == if level >= level_search(rate, 1, 100, exp) {
            level
        } else {
            level_search(rate, 1, 100, exp)
        },
    decreases 100 - level,
{
    lemma_search_finds_highest_reached(rate, exp);
    if !(level >= 100 || exp < exp_threshold(rate, level + 1)) {
        lemma_gain_reaches_level_of_exp(rate, level + 1, exp);
    }
}

/// The move-learning events that reaching `level` raises, in learnset order.
pub open spec fn learn_events(learnset: Seq<LearnsetEntry>, level: int) -> Seq<LevelUpEvent>
    decreases learnset.len(),
{
    if learnset.len() == 0 {
        Seq::empty()
    } else {
        let earlier = learn_events(learnset.drop_last(), level);
        if learnset.last().level@ == level {
            earlier.push(LevelUpEvent::CanLearnMove { move_id: learnset.last().move_id })
        } else {
            earlier
        }
    }
}

/// The learnset entries are those of `level`.
pub open spec fn entry_at(level: int) -> spec_fn(LearnsetEntry) -> bool {
    |e: LearnsetEntry| e.level@ == level
}

/// The event that offers the move of learnset entry `e`.
pub open spec fn offer_of(e: LearnsetEntry) -> LevelUpEvent {
    LevelUpEvent::CanLearnMove { move_id: e.move_id }
}

/// Reaching `level` offers exactly the learnset entries of that level, each once and in
/// learnset order: the events are the entries whose level is `level`, each turned into the
/// offer of its move.
pub proof fn lemma_learn_events_are_entries_of_level(learnset: Seq<LearnsetEntry>, level: int)
    ensures
        learn_events(learnset, level) == learnset.filter(entry_at(level)).map_values(
            |e: LearnsetEntry| offer_of(e),
        ),
    decreases learnset.len(),
{
    reveal(Seq::filter);
    if learnset.len() > 0 {
        lemma_learn_events_are_entries_of_level(learnset.drop_last(), level);
        let earlier = learnset.drop_last().filter(entry_at(level));
        if entry_at(level)(learnset.last()) {
            assert(earlier.push(learnset.last()).map_values(|e: LearnsetEntry| offer_of(e))
                =~= earlier.map_values(|e: LearnsetEntry| offer_of(e)).push(offer_of(learnset.last())));
        }
    }
}

/// The events raised while climbing from `from` to `to`, level by level.
pub open spec fn events_between(learnset: Seq<LearnsetEntry>, from: int, to: int) -> Seq<
    LevelUpEvent,
>
    decreases to - from,
{
    if to <= from {
        Seq::empty()
    } else {
        events_between(learnset, from, to - 1) + learn_events(learnset, to)
    }
}

/// The statistics can be computed at every level from `from` up to, not including, `to`.
pub open spec fn stats_fit_between(base: BaseStats, from: int, to: int) -> bool {
    forall|l: int| from <= l < to ==> stats_fit(base, l)
}

/// Some slot of `moves` holds the move `move_id`.
pub open spec fn knows_move(moves: Seq<Option<CreatureMove>>, move_id: MoveId) -> bool {
    exists|i: int|
        0 <= i < moves.len() && #[trigger] moves[i] is Some && moves[i].unwrap().move_id == move_id
}

/// No move is held in two slots.
pub open spec fn moves_distinct(moves: Seq<Option<CreatureMove>>) -> bool {
    forall|i: int, j: int|
        0 <= i < j < moves.len() && #[trigger] moves[i] is Some && #[trigger] moves[j] is Some
            ==> moves[i].unwrap().move_id != moves[j].unwrap().move_id
}

/// The first empty slot of `moves` from slot `i` on, or `moves.len()` if there is none.
pub open spec fn free_slot_from(moves: Seq<Option<CreatureMove>>, i: int) -> int
    decreases moves.len() - i,
{
    if i >= moves.len() {
        moves.len() as int
    } else if moves[i] is None {
        i
    } else {
        free_slot_from(moves, i + 1)
    }
}

/// The slot found is an empty one with every slot before it taken, or, where there is no
/// empty slot from `i` on, the length of `moves`.
pub proof fn lemma_free_slot_is_first_empty(moves: Seq<Option<CreatureMove>>, i: int)
    requires
        0 <= i <= moves.len(),
    ensures
        i <= free_slot_from(moves, i) <= moves.len(),
        free_slot_from(moves, i) < moves.len() ==> moves[free_slot_from(moves, i)] is None,
        forall|j: int| i <= j < free_slot_from(moves, i) ==> #[trigger] moves[j] is Some,
    decreases moves.len() - i,
{
    if i < moves.len() && moves[i] is Some {
        lemma_free_slot_is_first_empty(moves, i + 1);
    }
}

/// A freshly learned move, with its power points full.
pub open spec fn fresh_move(move_id: MoveId, max_pp: u8) -> CreatureMove {
    CreatureMove { move_id, pp: MovePP { current: max_pp, max: max_pp } }
}

/// Persistent creature instance
#[derive(Debug, Clone)]
pub struct Creature {
    pub id: CreatureId,
    pub species_id: SpeciesId,
    pub name: String,
    pub level: Level,
    pub experience: u32,
    pub individual_stats: IndividualStats,
    pub current_hp: u16,  // Plain u16, allows 0 for fainted state
    pub moves: MoveSlots,
}

impl Creature {
    pub fn new(species: &Species, starting_level: u8) -> (r: Option<Self>)
        requires
            1 <= starting_level <= 100 ==> stats_fit(species.base_stats, starting_level as int),
        ensures
            r is Some <==> 1 <= starting_level <= 100,
            r matches Some(c) ==> {
                &&& c.species_id == species.id
                &&& c.name@ == species.name@
                &&& c.level@ == starting_level
                &&& c.experience == exp_threshold(species.growth_rate, starting_level as int)
                &&& stats_at(c.individual_stats, species.base_stats, starting_level as int)
                &&& c.current_hp == c.individual_stats.max_hp@
                &&& c.moves@ == seq![None::<CreatureMove>, None, None, None]
            },
    {
        let id = CreatureId::new();
        let species_id = species.id;
        let name = species.name.clone();
        let individual_stats = IndividualStats::from_base(&species.base_stats);
        let level = match Level::new(starting_level) {
            Some(l) => l,
            None => return None,
        };
        let experience = species.growth_rate.exp_for_level(level);

        let mut creature = Self {
            id,
            species_id,
            name,
            level,
            experience,
            individual_stats,
            current_hp: 0,
            moves: [None, None, None, None],
        };

        creature.calculate_stats(species);
        creature.current_hp = creature.individual_stats.max_hp.get();
        Some(creature)
    }

    pub fn name(&self) -> (r: String)
        ensures
            r@ == self.name@,
    {
        self.name.clone()
    }

    /// Adds `amount` (which may be negative) to the current hit points, keeping them
    /// between 0 and the maximum.
    pub fn modify_hp(&mut self, amount: i16)
        requires
            i16::MIN <= signed_hp(old(self).current_hp) + amount <= i16::MAX,
        ensures
            final(self).current_hp == clamp_hp(
                signed_hp(old(self).current_hp) + amount,
                old(self).individual_stats.max_hp@,
            ),
            final(self).current_hp <= final(self).individual_stats.max_hp@,
            final(self).id == old(self).id,
            final(self).species_id == old(self).species_id,
            final(self).name == old(self).name,
            final(self).level == old(self).level,
            final(self).experience == old(self).experience,
            final(self).individual_stats == old(self).individual_stats,
            final(self).moves == old(self).moves,
    {
        let cur = self.current_hp;
        assert(cur as i16 == (if cur <= 0x7fff { cur as int } else { cur - 0x1_0000 })) by (bit_vector);
        let hp = cur as i16 + amount;
        let max_hp = self.individual_stats.max_hp.get();
        let max_hp = max_hp as i16;
        let clamped: i16 = if hp < 0 {
            0
        } else if hp > max_hp {
            max_hp
        } else {
            hp
        };
        self.current_hp = clamped as u16;
    }

    pub fn is_fainted(&self) -> (r: bool)
        ensures
            r <==> self.current_hp == 0,
    {
        self.current_hp == 0
    }

    /// Adds experience, capped at what the maximum level needs, and levels up as far as
    /// the experience reaches, returning the events raised on the way.
    pub fn gain_exp<S: SpeciesRegistry>(&mut self, amount: u32, species_registry: &S) -> (events: Vec<
        LevelUpEvent,
    >)
        requires
            species_registry.growth_rate_of(old(self).species_id) is Some,
            ({
                let rate = species_registry.growth_rate_of(old(self).species_id).unwrap();
                let exp = exp_after_gain(rate, old(self).experience as int, amount as int);
                let reached = level_reached(rate, old(self).level@, exp);
                reached > old(self).level@ ==> {
                    &&& species_registry.species_of(old(self).species_id) is Some
                    &&& stats_fit_between(
                        species_registry.species_of(old(self).species_id).unwrap().base_stats,
                        old(self).level@,
                        reached,
                    )
                }
            }),
        ensures
            ({
                let rate = species_registry.growth_rate_of(old(self).species_id).unwrap();
                let species = species_registry.species_of(old(self).species_id).unwrap();
                let exp = exp_after_gain(rate, old(self).experience as int, amount as int);
                let reached = level_reached(rate, old(self).level@, exp);
                &&& final(self).experience == exp
                &&& final(self).experience <= exp_threshold(rate, 100)
                &&& final(self).level@ == reached
                &&& final(self).level@ == 100 || final(self).experience < exp_threshold(
                    rate,
                    final(self).level@ + 1,
                )
                &&& forall|l: int|
                    old(self).level@ < l <= final(self).level@ ==> exp_threshold(rate, l)
                        <= final(self).experience
                &&& events@ == events_between(species.learnset@, old(self).level@, reached)
                &&& reached > old(self).level@ ==> stats_at(
                    final(self).individual_stats,
                    species.base_stats,
                    reached - 1,
                )
                &&& reached == old(self).level@ ==> final(self).individual_stats == old(
                    self,
                ).individual_stats
            }),
            final(self).id == old(self).id,
            final(self).species_id == old(self).species_id,
            final(self).name == old(self).name,
            final(self).current_hp == old(self).current_hp,
            final(self).moves == old(self).moves,
    {
        let mut events = Vec::new();

        let growth_rate = species_registry.get_growth_rate(self.species_id).expect(
            "things are broken with your registry",
        );
        let max_exp = growth_rate.exp_for_level(Level::new(Level::MAX).expect("Max level valid"));
        let total = self.experience.saturating_add(amount);
        self.experience = if total <= max_exp {
            total
        } else {
            max_exp
        };

        let ghost start = self.level@;
        let ghost reached = level_reached(growth_rate, start, self.experience as int);
        let ghost species = species_registry.species_of(self.species_id).unwrap();
        let ghost stats0 = self.individual_stats;
        let _ = self.level.get();
        proof {
            lemma_level_reached_is_complete(growth_rate, start, self.experience as int);
        }

        loop
            invariant
                growth_rate == species_registry.growth_rate_of(self.species_id).unwrap(),
                species == species_registry.species_of(self.species_id).unwrap(),
                reached > start ==> species_registry.species_of(self.species_id) is Some
                    && stats_fit_between(species.base_stats, start, reached),
                1 <= start <= self.level@ <= 100,
                level_reached(growth_rate, self.level@, self.experience as int) == reached,
                events@ == events_between(species.learnset@, start, self.level@),
                self.level@ > start ==> stats_at(self.individual_stats, species.base_stats, self.level@ - 1),
                self.level@ == start ==> self.individual_stats == stats0,
                self.id == old(self).id,
                self.species_id == old(self).species_id,
                self.name == old(self).name,
                self.current_hp == old(self).current_hp,
                self.moves == old(self).moves,
                self.experience == exp_after_gain(growth_rate, old(self).experience as int, amount as int),
            ensures
                self.level@ == reached,
            decreases 100 - self.level@,
        {
            match self.level.next() {
                Some(next_level) => {
                    let next_level_exp = growth_rate.exp_for_level(next_level);
                    if self.experience >= next_level_exp {
                        proof {
                            lemma_level_reached_bounds(growth_rate, next_level@, self.experience as int);
                        }
                        let mut level_events = self.level_up(next_level, species_registry);
                        events.append(&mut level_events);
                    } else {
                        break;
                    }
                },
                None => break,
            }
        }
        events
    }

    /// Moves up to `next_level`, recomputing the statistics (for the level being left)
    /// and returning the moves that the new level offers.
    pub fn level_up<S: SpeciesRegistry>(&mut self, next_level: Level, species_registry: &S) -> (events:
        Vec<LevelUpEvent>)
        requires
            species_registry.species_of(old(self).species_id) is Some,
            stats_fit(
                species_registry.species_of(old(self).species_id).unwrap().base_stats,
                old(self).level@,
            ),
        ensures
            ({
                let species = species_registry.species_of(old(self).species_id).unwrap();
                &&& events@ == learn_events(species.learnset@, next_level@)
                &&& events@ == species.learnset@.filter(entry_at(next_level@)).map_values(
                    |e: LearnsetEntry| offer_of(e),
                )
                &&& stats_at(final(self).individual_stats, species.base_stats, old(self).level@)
            }),
            final(self).level == next_level,
            final(self).id == old(self).id,
            final(self).species_id == old(self).species_id,
            final(self).name == old(self).name,
            final(self).experience == old(self).experience,
            final(self).current_hp == old(self).current_hp,
            final(self).moves == old(self).moves,
    {
        let events = self.on_level_up(next_level, species_registry);
        self.level = next_level;
        proof {
            let species = species_registry.species_of(old(self).species_id).unwrap();
            lemma_learn_events_are_entries_of_level(species.learnset@, next_level@);
        }
        events
    }

    fn on_level_up<S: SpeciesRegistry>(&mut self, level: Level, species_registry: &S) -> (events: Vec<
        LevelUpEvent,
    >)
        requires
            species_registry.species_of(old(self).species_id) is Some,
            stats_fit(
                species_registry.species_of(old(self).species_id).unwrap().base_stats,
                old(self).level@,
            ),
        ensures
            ({
                let species = species_registry.species_of(old(self).species_id).unwrap();
                &&& events@ == learn_events(species.learnset@, level@)
                &&& events@ == species.learnset@.filter(entry_at(level@)).map_values(
                    |e: LearnsetEntry| offer_of(e),
                )
                &&& stats_at(final(self).individual_stats, species.base_stats, old(self).level@)
            }),
            final(self).id == old(self).id,
            final(self).species_id == old(self).species_id,
            final(self).name == old(self).name,
            final(self).level == old(self).level,
            final(self).experience == old(self).experience,
            final(self).current_hp == old(self).current_hp,
            final(self).moves == old(self).moves,
    {
        let mut events = Vec::new();
        let species = species_registry.get_species(self.species_id).expect("species is registered");

        self.calculate_stats(species);

        let mut i: usize = 0;
        while i < species.learnset.len()
            invariant
                i <= species.learnset@.len(),
                events@ == learn_events(species.learnset@.take(i as int), level@),
            decreases species.learnset@.len() - i,
        {
            let m = species.learnset[i];
            proof {
                Level::lemma_same_level(m.level, level);
                assert(species.learnset@.take(i + 1).drop_last() =~= species.learnset@.take(i as int));
            }
            if m.level == level {
                events.push(LevelUpEvent::CanLearnMove { move_id: m.move_id });
            }
            i = i + 1;
        }
        assert(species.learnset@.take(i as int) =~= species.learnset@);
        proof {
            lemma_learn_events_are_entries_of_level(species.learnset@, level@);
        }

        events
    }

    /// Puts `move_id` in the first empty slot, unless the creature knows it already or
    /// has no empty slot.
    pub fn try_learn_move(&mut self, move_id: MoveId, max_pp: u8) -> (r: LearnMoveResult)
        ensures
            ({
                let moves = old(self).moves@;
                let free = free_slot_from(moves, 0);
                if knows_move(moves, move_id) {
                    r == LearnMoveResult::AlreadyKnown && final(self).moves == old(self).moves
                } else if free < 4 {
                    &&& r == LearnMoveResult::Learned
                    &&& final(self).moves@ == moves.update(free, Some(fresh_move(move_id, max_pp)))
                } else {
                    r == LearnMoveResult::MustForgetOldMove && final(self).moves == old(self).moves
                }
            }),
            r != LearnMoveResult::MustForgetOldMove ==> knows_move(final(self).moves@, move_id),
            moves_distinct(old(self).moves@) ==> moves_distinct(final(self).moves@),
            forall|j: int|
                0 <= j < 4 && #[trigger] old(self).moves@[j] is Some ==> final(self).moves@[j] == old(
                    self,
                ).moves@[j],
            r == LearnMoveResult::MustForgetOldMove ==> forall|j: int|
                0 <= j < 4 ==> #[trigger] old(self).moves@[j] is Some,
            r == LearnMoveResult::Learned ==> exists|j: int|
                0 <= j < 4 && #[trigger] old(self).moves@[j] is None && final(self).moves@[j] == Some(
                    fresh_move(move_id, max_pp),
                ),
            final(self).id == old(self).id,
            final(self).species_id == old(self).species_id,
            final(self).name == old(self).name,
            final(self).level == old(self).level,
            final(self).experience == old(self).experience,
            final(self).individual_stats == old(self).individual_stats,
            final(self).current_hp == old(self).current_hp,
    {
        proof {
            lemma_free_slot_is_first_empty(self.moves@, 0);
        }
        let ghost moves = self.moves@;
        let mut i: usize = 0;
        while i < 4
            invariant
                i <= 4,
                *self == *old(self),
                self.moves@ == moves,
                moves.len() == 4,
                forall|j: int|
                    0 <= j < i ==> !(#[trigger] moves[j] is Some && moves[j].unwrap().move_id == move_id),
            decreases 4 - i,
        {
            if let Some(m) = &self.moves[i] {
                if m.move_id == move_id {
                    return LearnMoveResult::AlreadyKnown;
                }
            }
            i = i + 1;
        }
        let mut k: usize = 0;
        while k < 4
            invariant
                k <= 4,
                *self == *old(self),
                self.moves@ == moves,
                moves.len() == 4,
                !knows_move(moves, move_id),
                free_slot_from(moves, k as int) == free_slot_from(moves, 0),
            decreases 4 - k,
        {
            if self.moves[k].is_none() {
                self.moves[k] = Some(CreatureMove { move_id, pp: MovePP { current: max_pp, max: max_pp } });
                assert(self.moves@ == moves.update(k as int, Some(fresh_move(move_id, max_pp))));
                assert(self.moves@[k as int] is Some);
                return LearnMoveResult::Learned;
            }
            k = k + 1;
        }
        LearnMoveResult::MustForgetOldMove
    }

    /// Empties `slot`, handing back the move it held; `None` for a slot past the last.
    pub fn forget_move(&mut self, slot: usize) -> (r: Option<CreatureMove>)
        ensures
            slot < 4 ==> r == old(self).moves@[slot as int] && final(self).moves@ == old(self).moves@.update(
                slot as int,
                None,
            ),
            slot >= 4 ==> r is None && final(self).moves == old(self).moves,
            moves_distinct(old(self).moves@) ==> moves_distinct(final(self).moves@),
            final(self).id == old(self).id,
            final(self).species_id == old(self).species_id,
            final(self).name == old(self).name,
            final(self).level == old(self).level,
            final(self).experience == old(self).experience,
            final(self).individual_stats == old(self).individual_stats,
            final(self).current_hp == old(self).current_hp,
    {
        if slot < 4 {
            let taken = self.moves[slot];
            self.moves[slot] = None;
            taken
        } else {
            None
        }
    }

    /// Recomputes the statistics for the creature's current level.
    fn calculate_stats(&mut self, species: &Species)
        requires
            stats_fit(species.base_stats, old(self).level@),
        ensures
            stats_at(final(self).individual_stats, species.base_stats, old(self).level@),
            final(self).id == old(self).id,
            final(self).species_id == old(self).species_id,
            final(self).name == old(self).name,
            final(self).level == old(self).level,
            final(self).experience == old(self).experience,
            final(self).current_hp == old(self).current_hp,
            final(self).moves == old(self).moves,
    {
        let stats = &species.base_stats;
        self.individual_stats.max_hp = Self::calculate_hp(stats.max_hp, self.level);
        self.individual_stats.attack = Self::calculate_stat(stats.attack, self.level);
        self.individual_stats.defense = Self::calculate_stat(stats.defense, self.level);
        self.individual_stats.speed = Self::calculate_stat(stats.speed, self.level);
    }

    fn calculate_hp(hp: Stat, level: Level) -> (r: Stat)
        requires
            2 * hp@ * level@ <= u16::MAX,
            hp_at(hp@, level@) <= 999,
        ensures
            r@ == hp_at(hp@, level@),
    {
        let b = hp.get();
        let l = level.get() as u16;
        assert(2 * b <= 2 * b * l) by (nonlinear_arith)
            requires
                l >= 1,
                b >= 1,
        ;
        let hp = (2 * b * l) / 100 + l + 10;
        Stat::new(hp).expect("HP within bounds")
    }

    fn calculate_stat(stat: Stat, level: Level) -> (r: Stat)
        requires
            2 * stat@ * level@ <= u16::MAX,
            stat_at(stat@, level@) <= 999,
        ensures
            r@ == stat_at(stat@, level@),
    {
        let b = stat.get();
        let l = level.get() as u16;
        assert(2 * b <= 2 * b * l) by (nonlinear_arith)
            requires
                l >= 1,
                b >= 1,
        ;
        let stat = (2 * b * l) / 100 + 5;
        Stat::new(stat).expect("Stat within bounds")
    }
}

#[derive(Debug, Clone, Copy, PartialEq, Eq, Structural)]
pub enum LevelUpEvent {
    CanEvolve { species_id: SpeciesId },
    CanLearnMove { move_id: MoveId },
}

#[derive(Debug, Clone, Copy, PartialEq, Eq, Structural)]
pub enum LearnMoveResult {
    AlreadyKnown,
    Learned,
    MustForgetOldMove,
}

#[derive(Debug, Clone, Copy, PartialEq, Eq, Structural)]
pub struct MovePP {
    pub current: u8,
    pub max: u8,
}

#[derive(Debug, Clone, Copy, PartialEq, Eq, Structural)]
pub struct CreatureMove {
    pub move_id: MoveId,
    pub pp: MovePP,
}

pub type MoveSlots = [Option<CreatureMove>; 4];

} // verus!
