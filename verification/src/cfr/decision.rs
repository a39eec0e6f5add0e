//! Numbering the choices a player has in the main phase, and the phases a
//! node of the game tree can stand for.

pub use crate::cfr::hidden_index::{HandContentIndex, HiddenIndex};
use crate::game::creature::{Creature, CreatureChoice, CreatureSet};
use crate::game::edict::{Edict, EdictIndex, EdictSet};
use crate::game::types::Player;
use crate::helpers::counting::lemma_numbered_set_size;
use crate::helpers::ranged::{
    lemma_mix_in_range,
    lemma_mix_of_unmix,
    lemma_unmix_in_range,
    lemma_unmix_of_mix,
    mix,
    mix_ranged,
    unmix_ranged,
};
use crate::helpers::upair::{
    lemma_code_of_pair,
    lemma_pair_code_in_range,
    lemma_pair_count_monotone,
    lemma_pair_of_code,
    pair_count,
    pair_of,
};
use vstd::prelude::*;

verus! {

/// Used to index decision vectors.
#[derive(Clone, Copy, Debug, PartialEq, Eq, PartialOrd, Ord, Hash, Structural)]
pub struct DecisionIndex(pub usize);

impl DecisionIndex {
    // ----- The packed form: a creature choice under an edict index -----
    /// Encodes a main phase "internal" choice into a decision index: the
    /// creature choice with the edict on top, in base `edict_count`.
    pub fn encode_main_phase_index(
        creatures: CreatureChoice,
        edict: EdictIndex,
        edict_count: u8,
    ) -> (r: DecisionIndex)
        ensures
            r.0 == mix(creatures.0 as int, edict.0 as int, edict_count as int),
    {
        assert(creatures.0 * edict_count <= 255 * 255) by (nonlinear_arith)
            requires
                creatures.0 <= 255,
                edict_count <= 255,
        ;
        DecisionIndex(mix_ranged(creatures.0 as usize, edict.0 as usize, edict_count as usize))
    }

    /// Decodes a decision index into a main phase "internal" choice. A
    /// creature choice that does not fit in a byte loses its upper bits.
    pub fn decode_main_phase_index(self, edict_count: u8) -> (r: (CreatureChoice, EdictIndex))
        requires
            edict_count > 0,
        ensures
            r.0.0 == (self.0 as int / edict_count as int) % 256,
            r.1.0 == self.0 as int % edict_count as int,
    {
        let (creatures, edict) = unmix_ranged(self.0, edict_count as usize);
        assert(creatures as u8 == creatures % 256) by (bit_vector);
        (CreatureChoice(#[verifier::truncate] (creatures as u8)), EdictIndex(edict as u8))
    }

    /// The packed form, decode after encode: with the edict index below the
    /// edict count, taking the index apart gives the two parts back.
    pub proof fn lemma_main_phase_index_decode_encode(
        creatures: CreatureChoice,
        edict: EdictIndex,
        edict_count: u8,
    )
        requires
            edict.0 < edict_count,
        ensures
            (mix(creatures.0 as int, edict.0 as int, edict_count as int) / edict_count as int)
                % 256 == creatures.0,
            mix(creatures.0 as int, edict.0 as int, edict_count as int) % edict_count as int
                == edict.0,
    {
        lemma_unmix_of_mix(creatures.0 as int, edict.0 as int, edict_count as int);
    }
}

impl DecisionIndex {
    // ----- The form players use: creatures and an edict by name -----
    /// The creatures a player can have in hand: those outside the graveyard.
    pub open spec fn creature_pool(graveyard: CreatureSet) -> CreatureSet {
        graveyard.complemented()
    }

    /// The edict is in the hand, no creature is in the graveyard, and two
    /// creatures are two different ones.
    pub open spec fn main_phase_legal(
        creatures: (Creature, Option<Creature>),
        edict: Edict,
        edicts: EdictSet,
        graveyard: CreatureSet,
    ) -> bool {
        &&& edicts.contains(edict)
        &&& !graveyard.contains(creatures.0)
        &&& creatures.1 matches Some(second) ==> !graveyard.contains(second) && second
            != creatures.0
    }

    /// The number of the creatures alone: the place of a single creature in
    /// the pool, counted from the end, or the number of the unordered pair
    /// of two such places.
    pub open spec fn creature_choice_code(
        creatures: (Creature, Option<Creature>),
        graveyard: CreatureSet,
    ) -> int {
        let pool = Self::creature_pool(graveyard);
        match creatures.1 {
            Some(second) => CreatureChoice::two_code(
                pool.rank_from_end(creatures.0),
                pool.rank_from_end(second),
            ),
            None => pool.rank_from_end(creatures.0),
        }
    }

    /// The number of a legal choice: the number of the creatures, with the
    /// place of the edict in the hand, counted from the end, on top.
    pub open spec fn main_phase_code(
        creatures: (Creature, Option<Creature>),
        edict: Edict,
        edicts: EdictSet,
        graveyard: CreatureSet,
    ) -> int {
        mix(
            Self::creature_choice_code(creatures, graveyard),
            edicts.rank_from_end(edict),
            edicts.count(),
        )
    }

    /// How many ways there are to pick the creatures: one of those outside
    /// the graveyard, or an unordered pair of them for a player whose seer
    /// is active.
    pub open spec fn creature_choice_count(graveyard: CreatureSet, seer_active: bool) -> int {
        let alive = Self::creature_pool(graveyard).count();
        if seer_active {
            pair_count(alive)
        } else {
            alive
        }
    }

    /// How many choices a player has in the main phase.
    pub open spec fn spec_main_phase_count(
        edicts: EdictSet,
        graveyard: CreatureSet,
        seer_active: bool,
    ) -> int {
        Self::creature_choice_count(graveyard, seer_active) * edicts.count()
    }

    /// The choice with number `index`, if `index` is below the count. Of two
    /// creatures, the one that comes later in the list of creatures stands
    /// first.
    pub open spec fn main_phase_choice(
        index: int,
        edicts: EdictSet,
        graveyard: CreatureSet,
        seer_active: bool,
    ) -> Option<(Creature, Option<Creature>, Edict)> {
        let pool = Self::creature_pool(graveyard);
        if 0 <= index < Self::spec_main_phase_count(edicts, graveyard, seer_active) {
            let edict = edicts.nth_from_end(index % edicts.count());
            let choice = index / edicts.count();
            if seer_active {
                Some(
                    (
                        pool.nth_from_end(pair_of(choice).0),
                        Some(pool.nth_from_end(pair_of(choice).1)),
                        edict,
                    ),
                )
            } else {
                Some((pool.nth_from_end(choice), None, edict))
            }
        } else {
            None
        }
    }

    /// The same creatures in the order in which decoding gives them: of
    /// two, the one that comes later in the list of creatures first.
    pub open spec fn in_decoded_order(creatures: (Creature, Option<Creature>)) -> (
        Creature,
        Option<Creature>,
    ) {
        match creatures.1 {
            Some(second) => if creatures.0.position() < second.position() {
                (second, Some(creatures.0))
            } else {
                creatures
            },
            None => creatures,
        }
    }

    /// Encodes a main phase user choice into a decision index. Two
    /// creatures may come in either order. There is no index if the edict
    /// is not in the hand, if a creature is in the graveyard, or if the
    /// same creature is named twice.
    pub fn encode_main_phase_index_user(
        creatures: (Creature, Option<Creature>),
        edict: Edict,
        edicts: EdictSet,
        graveyard: CreatureSet,
    ) -> (r: Option<DecisionIndex>)
        ensures
            r is Some <==> Self::main_phase_legal(creatures, edict, edicts, graveyard),
            r matches Some(index) ==> index.0 == Self::main_phase_code(
                creatures,
                edict,
                edicts,
                graveyard,
            ),
    {
        if !edicts.has(edict) || graveyard.has(creatures.0) {
            return None;
        }
        let edict_index = edicts.count_from_end(edict);
        let creature_set = graveyard.others();
        let first_creature_index = creature_set.count_from_end(creatures.0);
        let creature_choice = match creatures.1 {
            Some(second_creature) => {
                if graveyard.has(second_creature) {
                    return None;
                }
                let second_creature_index = creature_set.count_from_end(second_creature);
                proof {
                    Self::lemma_pair_fits(creatures.0, second_creature, graveyard);
                }
                CreatureChoice::encode_two(first_creature_index, second_creature_index)?
            },
            None => CreatureChoice::encode_one(first_creature_index),
        };

        Some(Self::encode_main_phase_index(creature_choice, edict_index, edicts.len()))
    }

    /// Decodes a decision index into a main phase user choice. There is no
    /// choice if the index is not below the count.
    pub fn decode_main_phase_index_user(
        self,
        edicts: EdictSet,
        graveyard: CreatureSet,
        seer_active: bool,
    ) -> (r: Option<(Creature, Option<Creature>, Edict)>)
        ensures
            r == Self::main_phase_choice(self.0 as int, edicts, graveyard, seer_active),
    {
        let edict_count = edicts.len();
        let creature_set = graveyard.others();
        proof {
            Self::lemma_choice_in_range(self.0 as int, edicts, graveyard, seer_active);
        }
        if edict_count == 0 || self.0 / (edict_count as usize) > 255 {
            return None;
        }
        let (creature_choice, edict_index) = self.decode_main_phase_index(edict_count);
        let edict = edicts.lookup_from_end(edict_index)?;
        if seer_active {
            let (creature_one, creature_two) = creature_choice.decode_two();
            proof {
                lemma_pair_code_in_range(
                    creature_one.0 as int,
                    creature_two.0 as int,
                    creature_set.count(),
                );
            }
            let second = creature_set.lookup_from_end(creature_two)?;
            let first = creature_set.lookup_from_end(creature_one)?;
            Some((first, Some(second), edict))
        } else {
            let creature_index = creature_choice.decode_one();
            Some((creature_set.lookup_from_end(creature_index)?, None, edict))
        }
    }

    /// How many choices a player has in the main phase: the size of the
    /// table that decision indices point into.
    pub fn main_phase_count(edicts: EdictSet, graveyard: CreatureSet, seer_active: bool) -> (r:
        usize)
        ensures
            r == Self::spec_main_phase_count(edicts, graveyard, seer_active),
    {
        let alive = graveyard.others().len() as usize;
        let creature_choices = if seer_active {
            if alive == 0 {
                assert(pair_count(0) == 0) by (nonlinear_arith);
                0
            } else {
                assert(alive * (alive - 1) <= 11 * 10) by (nonlinear_arith)
                    requires
                        1 <= alive <= 11,
                ;
                alive * (alive - 1) / 2
            }
        } else {
            alive
        };
        let edict_count = edicts.len() as usize;
        assert(creature_choices * edict_count <= 55 * 5) by (nonlinear_arith)
            requires
                creature_choices <= 55,
                edict_count <= 5,
        ;
        creature_choices * edict_count
    }

    /// The number of a pair of creatures outside the graveyard is below the
    /// number of pairs, and so fits in a byte.
    proof fn lemma_pair_fits(first: Creature, second: Creature, graveyard: CreatureSet)
        requires
            !graveyard.contains(first),
            !graveyard.contains(second),
        ensures
            first != second ==> 0 <= Self::creature_choice_code((first, Some(second)), graveyard)
                < pair_count(Self::creature_pool(graveyard).count()) <= 55,
            first == second <==> Self::creature_pool(graveyard).rank_from_end(first)
                == Self::creature_pool(graveyard).rank_from_end(second),
    {
        let pool = Self::creature_pool(graveyard);
        graveyard.lemma_complemented();
        pool.0.lemma_count_nonnegative(11);
        pool.lemma_nth_of_rank_from_end(first);
        pool.lemma_nth_of_rank_from_end(second);
        let a = pool.rank_from_end(first);
        let b = pool.rank_from_end(second);
        if first != second {
            if a < b {
                lemma_pair_code_in_range(a, b, pool.count());
                crate::helpers::upair::lemma_pair_code_bounds(a, b);
            } else {
                lemma_pair_code_in_range(b, a, pool.count());
                crate::helpers::upair::lemma_pair_code_bounds(b, a);
            }
            lemma_pair_count_monotone(pool.count(), 11);
            assert(pair_count(11) == 55) by (nonlinear_arith);
        }
    }

    /// An index below the count has a creature choice below the number of
    /// creature choices, which is at most 55; no other index has.
    proof fn lemma_choice_in_range(
        index: int,
        edicts: EdictSet,
        graveyard: CreatureSet,
        seer_active: bool,
    )
        requires
            0 <= index,
        ensures
            0 <= Self::creature_choice_count(graveyard, seer_active) <= 55,
            0 <= Self::creature_pool(graveyard).count() <= 11,
            0 <= edicts.count() <= 5,
            edicts.count() == 0 ==> Self::spec_main_phase_count(edicts, graveyard, seer_active)
                == 0,
            edicts.count() > 0 ==> (index < Self::spec_main_phase_count(
                edicts,
                graveyard,
                seer_active,
            ) <==> index / edicts.count() < Self::creature_choice_count(graveyard, seer_active)),
            edicts.count() > 0 ==> 0 <= index % edicts.count() < edicts.count() && 0 <= index
                / edicts.count(),
    {
        let pool = Self::creature_pool(graveyard);
        let choices = Self::creature_choice_count(graveyard, seer_active);
        graveyard.lemma_complemented();
        pool.0.lemma_count_nonnegative(11);
        edicts.0.lemma_count_nonnegative(5);
        lemma_pair_count_monotone(0, pool.count());
        lemma_pair_count_monotone(pool.count(), 11);
        assert(pair_count(11) == 55) by (nonlinear_arith);
        if edicts.count() > 0 {
            lemma_unmix_in_range(index, choices, edicts.count());
            lemma_mix_of_unmix(index, edicts.count());
        } else {
            assert(choices * 0 == 0);
        }
    }
}

impl DecisionIndex {
    // ----- The encoder and the decoder are inverses -----
    /// Of two creatures outside the graveyard, the one that comes later in
    /// the list of creatures has fewer members of the pool after it.
    proof fn lemma_later_is_nearer_the_end(
        first: Creature,
        second: Creature,
        graveyard: CreatureSet,
    )
        requires
            !graveyard.contains(first),
            !graveyard.contains(second),
        ensures
            first.position() < second.position() <==> Self::creature_pool(graveyard).rank_from_end(
                second,
            ) < Self::creature_pool(graveyard).rank_from_end(first),
    {
        let pool = Self::creature_pool(graveyard);
        graveyard.lemma_complemented();
        pool.lemma_nth_of_rank_from_end(first);
        pool.lemma_nth_of_rank_from_end(second);
        if first.position() < second.position() {
            pool.0.lemma_rank_below_count(first.position() as int, second.position() as int);
        } else if second.position() < first.position() {
            pool.0.lemma_rank_below_count(second.position() as int, first.position() as int);
        }
    }

    /// Main phase, decode after encode: a legal choice has a number below
    /// the count, and decoding that number gives the choice back, two
    /// creatures in the order of `in_decoded_order`.
    pub proof fn lemma_main_phase_decode_encode(
        creatures: (Creature, Option<Creature>),
        edict: Edict,
        edicts: EdictSet,
        graveyard: CreatureSet,
    )
        requires
            Self::main_phase_legal(creatures, edict, edicts, graveyard),
        ensures
            0 <= Self::main_phase_code(creatures, edict, edicts, graveyard)
                < Self::spec_main_phase_count(edicts, graveyard, creatures.1 is Some),
            Self::main_phase_choice(
                Self::main_phase_code(creatures, edict, edicts, graveyard),
                edicts,
                graveyard,
                creatures.1 is Some,
            ) == Some(
                (
                    Self::in_decoded_order(creatures).0,
                    Self::in_decoded_order(creatures).1,
                    edict,
                ),
            ),
    {
        let pool = Self::creature_pool(graveyard);
        let choice = Self::creature_choice_code(creatures, graveyard);
        let choices = Self::creature_choice_count(graveyard, creatures.1 is Some);
        graveyard.lemma_complemented();
        edicts.lemma_nth_of_rank_from_end(edict);
        pool.lemma_nth_of_rank_from_end(creatures.0);
        match creatures.1 {
            Some(second) => {
                pool.lemma_nth_of_rank_from_end(second);
                Self::lemma_pair_fits(creatures.0, second, graveyard);
                Self::lemma_later_is_nearer_the_end(creatures.0, second, graveyard);
                let a = pool.rank_from_end(creatures.0);
                let b = pool.rank_from_end(second);
                if a < b {
                    lemma_pair_of_code(a, b);
                } else {
                    lemma_pair_of_code(b, a);
                }
            },
            None => {},
        }
        assert(0 <= choice < choices);
        lemma_mix_in_range(choice, edicts.rank_from_end(edict), choices, edicts.count());
        lemma_unmix_of_mix(choice, edicts.rank_from_end(edict), edicts.count());
    }

    /// Main phase, encode after decode: every number below the count
    /// decodes to a legal choice, of two creatures exactly when the seer is
    /// active, and that choice has this number.
    pub proof fn lemma_main_phase_encode_decode(
        index: int,
        edicts: EdictSet,
        graveyard: CreatureSet,
        seer_active: bool,
    )
        requires
            0 <= index < Self::spec_main_phase_count(edicts, graveyard, seer_active),
        ensures
            Self::main_phase_choice(index, edicts, graveyard, seer_active) matches Some(
                (first, second, edict),
            ) && second is Some == seer_active && Self::main_phase_legal(
                (first, second),
                edict,
                edicts,
                graveyard,
            ) && Self::in_decoded_order((first, second)) == (first, second)
                && Self::main_phase_code((first, second), edict, edicts, graveyard) == index,
    {
        let pool = Self::creature_pool(graveyard);
        Self::lemma_choice_in_range(index, edicts, graveyard, seer_active);
        graveyard.lemma_complemented();
        let choice = index / edicts.count();
        assert(edicts.count() > 0) by (nonlinear_arith)
            requires
                0 <= index < Self::creature_choice_count(graveyard, seer_active) * edicts.count(),
                0 <= edicts.count(),
        ;
        lemma_mix_of_unmix(index, edicts.count());
        edicts.lemma_rank_of_nth_from_end(index % edicts.count());
        if seer_active {
            let low = pair_of(choice).0;
            let high = pair_of(choice).1;
            lemma_code_of_pair(choice);
            lemma_pair_code_in_range(low, high, pool.count());
            pool.lemma_rank_of_nth_from_end(low);
            pool.lemma_rank_of_nth_from_end(high);
            let first = pool.nth_from_end(low);
            let second = pool.nth_from_end(high);
            Self::lemma_later_is_nearer_the_end(first, second, graveyard);
            Self::lemma_later_is_nearer_the_end(second, first, graveyard);
            assert(first != second);
            assert(Self::creature_choice_code((first, Some(second)), graveyard) == choice);
        } else {
            pool.lemma_rank_of_nth_from_end(choice);
        }
    }

    /// The choices a player has: the edict from the hand, the creatures
    /// from outside the graveyard, two of them exactly when the seer is
    /// active, and then in the order in which decoding gives them.
    pub open spec fn main_phase_choices(
        edicts: EdictSet,
        graveyard: CreatureSet,
        seer_active: bool,
    ) -> Set<(Creature, Option<Creature>, Edict)> {
        Set::new(
            |choice: (Creature, Option<Creature>, Edict)|
                choice.1 is Some == seer_active && Self::main_phase_legal(
                    (choice.0, choice.1),
                    choice.2,
                    edicts,
                    graveyard,
                ) && Self::in_decoded_order((choice.0, choice.1)) == (choice.0, choice.1),
        )
    }

    /// Main phase, exact size: there are as many legal choices as the count
    /// says, a pair of creatures counted once.
    pub proof fn lemma_main_phase_exact_size(
        edicts: EdictSet,
        graveyard: CreatureSet,
        seer_active: bool,
    )
        ensures
            Self::main_phase_choices(edicts, graveyard, seer_active).finite(),
            Self::main_phase_choices(edicts, graveyard, seer_active).len()
                == Self::spec_main_phase_count(edicts, graveyard, seer_active),
    {
        let choices = Self::main_phase_choices(edicts, graveyard, seer_active);
        let count = Self::spec_main_phase_count(edicts, graveyard, seer_active);
        let decode = |index: int|
            Self::main_phase_choice(index, edicts, graveyard, seer_active).unwrap();
        let encode = |choice: (Creature, Option<Creature>, Edict)|
            Self::main_phase_code((choice.0, choice.1), choice.2, edicts, graveyard);
        Self::lemma_choice_in_range(0, edicts, graveyard, seer_active);
        assert(0 <= count) by (nonlinear_arith)
            requires
                count == Self::creature_choice_count(graveyard, seer_active) * edicts.count(),
                0 <= Self::creature_choice_count(graveyard, seer_active),
                0 <= edicts.count(),
        ;
        assert forall|index: int| 0 <= index < count implies choices.contains(
            #[trigger] decode(index),
        ) && encode(decode(index)) == index by {
            Self::lemma_main_phase_encode_decode(index, edicts, graveyard, seer_active);
        }
        assert forall|choice: (Creature, Option<Creature>, Edict)|
            choices.contains(choice) implies 0 <= #[trigger] encode(choice) < count && decode(
            encode(choice),
        ) == choice by {
            Self::lemma_main_phase_decode_encode(
                (choice.0, choice.1),
                choice.2,
                edicts,
                graveyard,
            );
        }
        lemma_numbered_set_size(choices, count, decode, encode);
    }
}

/// An index into a player's hand.
/// More efficiently packed than keeping the absolute id of the card.
pub type HandIndex = usize;

/// Information we need to keep track of for main phases.
#[derive(Clone, Copy, Debug, PartialEq, Eq)]
pub struct MainExtraInfo {
    /// How many edicts each player holds.
    pub edict_counts: (u8, u8),
}

/// Information we need to keep track of for sabotage phases.
#[derive(Clone, Copy, Debug, PartialEq, Eq, Structural)]
pub struct SabotageExtraInfo {
    /// The player about to enter a seer phase.
    /// If neither players is entering one,
    /// the value of this does not matter.
    pub seer_player: Player,
}

/// Holds additional information about the current scope we are in.
/// This information depends on the type of phase the scope represents.
#[derive(Clone, Copy, Debug, PartialEq, Eq)]
pub enum ExploredScopeExtraInfo {
    Main(MainExtraInfo),
    Sabotage(SabotageExtraInfo),
    Seer,
}

/// Hidden information which needs to be carried out for the current scope.
/// The overseer / hand-content is implicit here.
#[derive(Clone, Copy, Debug, PartialEq, Eq, Structural)]
pub enum ExploredScopeHiddenInfo {
    PreMain,
    PreSabotage(HandIndex, HandIndex),
    PreSeer(HandIndex),
}

} // verus!
