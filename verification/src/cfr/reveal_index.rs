//! Numbering what becomes public knowledge at the end of a phase.
//!
//! For every phase there is a count of the things that can be revealed, an
//! encoder that numbers them from zero up to that count, and a decoder that
//! is the encoder's inverse.

use crate::game::choice::SabotagePhaseChoice;
use crate::game::creature::{Creature, CreatureSet};
use crate::game::edict::{Edict, EdictSet};
use crate::game::types::{Pair, Player};
use crate::helpers::counting::lemma_numbered_set_size;
use crate::helpers::ranged::{
    lemma_mix_in_range,
    lemma_mix_of_unmix,
    lemma_unmix_in_range,
    lemma_unmix_of_mix,
    mix,
    mix_ranged,
    unmix_ranged,
};
use vstd::prelude::*;

verus! {

/// Encodes all the information revealed at the end of a phase.
#[derive(Clone, Copy, Debug, PartialEq, Eq, PartialOrd, Ord, Hash, Structural)]
pub struct RevealIndex(pub usize);

impl RevealIndex {
    // ----- Main phase: the edicts both players have played -----
    /// Each player has played an edict from the own hand.
    pub open spec fn main_phase_legal(choices: Pair<Edict>, edicts: Pair<EdictSet>) -> bool {
        edicts.0.contains(choices.0) && edicts.1.contains(choices.1)
    }

    /// The number of a legal pair of edicts: the place of the edict of `You`
    /// in the hand of `You`, with the place of the edict of `Me` in the
    /// hand of `Me` on top.
    pub open spec fn main_phase_code(choices: Pair<Edict>, edicts: Pair<EdictSet>) -> int {
        mix(edicts.1.rank(choices.1), edicts.0.rank(choices.0), edicts.0.count())
    }

    /// How many pairs of edicts the players can play.
    pub open spec fn spec_main_phase_count(edicts: Pair<EdictSet>) -> int {
        edicts.0.count() * edicts.1.count()
    }

    /// The pair of edicts with number `index`, if `index` is below the count.
    pub open spec fn main_phase_reveal(index: int, edicts: Pair<EdictSet>) -> Option<
        Pair<Edict>,
    > {
        if 0 <= index < Self::spec_main_phase_count(edicts) {
            Some(
                (
                    edicts.0.nth(index % edicts.0.count()),
                    edicts.1.nth(index / edicts.0.count()),
                ),
            )
        } else {
            None
        }
    }

    /// Numbers the edicts the two players have played. There is no number
    /// if a player has played an edict that was not in the hand.
    pub fn encode_main_phase_reveal(choices: Pair<Edict>, edicts: Pair<EdictSet>) -> (r: Option<
        Self,
    >)
        ensures
            r is Some <==> Self::main_phase_legal(choices, edicts),
            r matches Some(index) ==> index.0 == Self::main_phase_code(choices, edicts),
    {
        let second = edicts.1.indexof(choices.1)?;
        let first = edicts.0.indexof(choices.0)?;
        let count = edicts.0.len() as usize;
        assert(second * count <= 5 * 5) by (nonlinear_arith)
            requires
                second <= 5,
                count <= 5,
        ;
        Some(RevealIndex(mix_ranged(second, first, count)))
    }

    /// The edicts that have the number `self`, first that of `Me`. There
    /// are none if the number is not below the count.
    pub fn decode_main_phase_reveal(self, edict_sets: Pair<EdictSet>) -> (r: Option<Pair<Edict>>)
        ensures
            r == Self::main_phase_reveal(self.0 as int, edict_sets),
    {
        let count = edict_sets.0.len() as usize;
        if count == 0 {
            assert(Self::spec_main_phase_count(edict_sets) == 0) by (nonlinear_arith)
                requires
                    edict_sets.0.count() == 0,
                    Self::spec_main_phase_count(edict_sets) == edict_sets.0.count()
                        * edict_sets.1.count(),
            ;
            return None;
        }
        proof {
            edict_sets.1.0.lemma_count_nonnegative(5);
            lemma_unmix_in_range(self.0 as int, edict_sets.1.count(), count as int);
            assert(edict_sets.1.count() * edict_sets.0.count() == edict_sets.0.count()
                * edict_sets.1.count()) by (nonlinear_arith);
        }
        let (second, first) = unmix_ranged(self.0, count);
        let p1_choice = edict_sets.0.index(first)?;
        let p2_choice = edict_sets.1.index(second)?;
        Some((p1_choice, p2_choice))
    }

    /// How many pairs of edicts the players can play.
    pub fn main_phase_count(player_edicts: Pair<EdictSet>) -> (r: usize)
        ensures
            r == Self::spec_main_phase_count(player_edicts),
    {
        let first = player_edicts.0.len() as usize;
        let second = player_edicts.1.len() as usize;
        assert(first * second <= 5 * 5) by (nonlinear_arith)
            requires
                first <= 5,
                second <= 5,
        ;
        first * second
    }

    /// Main phase, decode after encode: a legal pair of edicts has a number
    /// below the count, and decoding that number gives the pair back.
    pub proof fn lemma_main_phase_decode_encode(choices: Pair<Edict>, edicts: Pair<EdictSet>)
        requires
            Self::main_phase_legal(choices, edicts),
        ensures
            0 <= Self::main_phase_code(choices, edicts) < Self::spec_main_phase_count(edicts),
            Self::main_phase_reveal(Self::main_phase_code(choices, edicts), edicts) == Some(
                choices,
            ),
    {
        edicts.0.lemma_nth_of_rank(choices.0);
        edicts.1.lemma_nth_of_rank(choices.1);
        let first = edicts.0.rank(choices.0);
        let second = edicts.1.rank(choices.1);
        lemma_mix_in_range(second, first, edicts.1.count(), edicts.0.count());
        lemma_unmix_of_mix(second, first, edicts.0.count());
        assert(edicts.1.count() * edicts.0.count() == edicts.0.count() * edicts.1.count())
            by (nonlinear_arith);
    }

    /// Main phase, encode after decode: every number below the count
    /// decodes to a legal pair of edicts, and that pair has this number.
    pub proof fn lemma_main_phase_encode_decode(index: int, edicts: Pair<EdictSet>)
        requires
            0 <= index < Self::spec_main_phase_count(edicts),
        ensures
            Self::main_phase_reveal(index, edicts) matches Some(choices)
                && Self::main_phase_legal(choices, edicts) && Self::main_phase_code(
                choices,
                edicts,
            ) == index,
    {
        let count = edicts.0.count();
        edicts.0.0.lemma_count_nonnegative(5);
        edicts.1.0.lemma_count_nonnegative(5);
        assert(count > 0) by (nonlinear_arith)
            requires
                0 <= index < count * edicts.1.count(),
                0 <= count,
        ;
        lemma_mix_of_unmix(index, count);
        lemma_unmix_in_range(index, edicts.1.count(), count);
        assert(edicts.1.count() * count == count * edicts.1.count()) by (nonlinear_arith);
        edicts.0.lemma_rank_of_nth(index % count);
        edicts.1.lemma_rank_of_nth(index / count);
    }

    /// The pairs of edicts the players can play.
    pub open spec fn main_phase_choices(edicts: Pair<EdictSet>) -> Set<Pair<Edict>> {
        Set::new(|choices: Pair<Edict>| Self::main_phase_legal(choices, edicts))
    }

    /// Main phase, exact size: there are as many legal pairs of edicts as
    /// the count says.
    pub proof fn lemma_main_phase_exact_size(edicts: Pair<EdictSet>)
        ensures
            Self::main_phase_choices(edicts).finite(),
            Self::main_phase_choices(edicts).len() == Self::spec_main_phase_count(edicts),
    {
        let choices = Self::main_phase_choices(edicts);
        let count = Self::spec_main_phase_count(edicts);
        let decode = |index: int| Self::main_phase_reveal(index, edicts).unwrap();
        let encode = |pair: Pair<Edict>| Self::main_phase_code(pair, edicts);
        edicts.0.0.lemma_count_nonnegative(5);
        edicts.1.0.lemma_count_nonnegative(5);
        assert(0 <= count) by (nonlinear_arith)
            requires
                count == edicts.0.count() * edicts.1.count(),
                0 <= edicts.0.count(),
                0 <= edicts.1.count(),
        ;
        assert forall|index: int| 0 <= index < count implies choices.contains(
            #[trigger] decode(index),
        ) && encode(decode(index)) == index by {
            Self::lemma_main_phase_encode_decode(index, edicts);
        }
        assert forall|pair: Pair<Edict>| choices.contains(pair) implies 0 <= #[trigger] encode(
            pair,
        ) < count && decode(encode(pair)) == pair by {
            Self::lemma_main_phase_decode_encode(pair, edicts);
        }
        lemma_numbered_set_size(choices, count, decode, encode);
    }
}

impl RevealIndex {
    // ----- Sabotage phase: the guesses of the saboteurs and the creature
    // the player without the seer has played -----
    /// The creatures a saboteur can guess: those outside the graveyard.
    pub open spec fn sabotage_pool(graveyard: CreatureSet) -> CreatureSet {
        graveyard.complemented()
    }

    /// The creatures the player without the seer can have played: those
    /// outside the graveyard, but for the one that this player has guessed
    /// the opponent to play.
    pub open spec fn sabotage_reveal_pool(
        sabotage_choices: Pair<SabotagePhaseChoice>,
        seer_player: Player,
        graveyard: CreatureSet,
    ) -> CreatureSet {
        match seer_player.opponent().pick(sabotage_choices) {
            Some(guess) => Self::sabotage_pool(graveyard).removed(guess),
            None => Self::sabotage_pool(graveyard),
        }
    }

    /// Which of the players have played the sabotage edict, going by their
    /// guesses.
    pub open spec fn sabotage_statuses(sabotage_choices: Pair<SabotagePhaseChoice>) -> Pair<
        bool,
    > {
        (sabotage_choices.0 is Some, sabotage_choices.1 is Some)
    }

    /// No creature that is named lies in the graveyard, and the player
    /// without the seer has not guessed the creature that this same player
    /// has played.
    pub open spec fn sabotage_phase_legal(
        sabotage_choices: Pair<SabotagePhaseChoice>,
        seer_player: Player,
        revealed_creature: Creature,
        graveyard: CreatureSet,
    ) -> bool {
        &&& !graveyard.contains(revealed_creature)
        &&& sabotage_choices.0 matches Some(guess) ==> !graveyard.contains(guess)
        &&& sabotage_choices.1 matches Some(guess) ==> !graveyard.contains(guess)
        &&& seer_player.opponent().pick(sabotage_choices) != Some(revealed_creature)
    }

    /// `rest` with a guess on top, where there is one: the place of the
    /// guessed creature in `pool`.
    pub open spec fn with_guess(rest: int, guess: SabotagePhaseChoice, pool: CreatureSet) -> int {
        match guess {
            Some(creature) => mix(rest, pool.rank(creature), pool.count()),
            None => rest,
        }
    }

    /// The guess on top of `index`, where `status` says there is one.
    pub open spec fn guess_on(index: int, status: bool, pool: CreatureSet) -> SabotagePhaseChoice {
        if status {
            Some(pool.nth(index % pool.count()))
        } else {
            None
        }
    }

    /// What is left of `index` below the guess, where `status` says there
    /// is one.
    pub open spec fn below_guess(index: int, status: bool, pool: CreatureSet) -> int {
        if status {
            index / pool.count()
        } else {
            index
        }
    }

    /// The number of a legal revelation: the place of the revealed creature
    /// in its pool, then the guess of `Me` on top, then that of `You`.
    pub open spec fn sabotage_phase_code(
        sabotage_choices: Pair<SabotagePhaseChoice>,
        seer_player: Player,
        revealed_creature: Creature,
        graveyard: CreatureSet,
    ) -> int {
        let pool = Self::sabotage_pool(graveyard);
        let base = Self::sabotage_reveal_pool(sabotage_choices, seer_player, graveyard).rank(
            revealed_creature,
        );
        Self::with_guess(Self::with_guess(base, sabotage_choices.0, pool), sabotage_choices.1, pool)
    }

    /// The revelation with number `index`: the guess of `You` comes off
    /// first, then that of `Me`, and what is left is the place of the
    /// revealed creature in its pool. There is none if a guess is due and
    /// nothing can be guessed, or if that place is past the end of the pool.
    pub open spec fn sabotage_phase_reveal(
        index: int,
        sabotage_statuses: Pair<bool>,
        seer_player: Player,
        graveyard: CreatureSet,
    ) -> Option<(Pair<SabotagePhaseChoice>, Creature)> {
        let pool = Self::sabotage_pool(graveyard);
        let second = Self::guess_on(index, sabotage_statuses.1, pool);
        let rest = Self::below_guess(index, sabotage_statuses.1, pool);
        let first = Self::guess_on(rest, sabotage_statuses.0, pool);
        let base = Self::below_guess(rest, sabotage_statuses.0, pool);
        let reveal_pool = Self::sabotage_reveal_pool((first, second), seer_player, graveyard);
        if 0 <= index && ((sabotage_statuses.0 || sabotage_statuses.1) ==> pool.count() > 0)
            && base < reveal_pool.count() {
            Some(((first, second), reveal_pool.nth(base)))
        } else {
            None
        }
    }

    /// How many creatures the player without the seer can have played.
    pub open spec fn sabotage_reveal_count(
        sabotage_statuses: Pair<bool>,
        seer_player: Player,
        graveyard: CreatureSet,
    ) -> int {
        let alive = Self::sabotage_pool(graveyard).count();
        if seer_player.opponent().pick(sabotage_statuses) && alive > 0 {
            alive - 1
        } else {
            alive
        }
    }

    /// How many guesses a player can make: one of the creatures outside the
    /// graveyard for a saboteur, and nothing to choose for anyone else.
    pub open spec fn sabotage_guess_count(status: bool, graveyard: CreatureSet) -> int {
        if status {
            Self::sabotage_pool(graveyard).count()
        } else {
            1
        }
    }

    /// How many revelations there are: a creature for the player without
    /// the seer, and a guess for each saboteur.
    pub open spec fn spec_sabotage_phase_count(
        sabotage_statuses: Pair<bool>,
        seer_player: Player,
        graveyard: CreatureSet,
    ) -> int {
        Self::sabotage_reveal_count(sabotage_statuses, seer_player, graveyard) * (
        Self::sabotage_guess_count(sabotage_statuses.0, graveyard) * Self::sabotage_guess_count(
            sabotage_statuses.1,
            graveyard,
        ))
    }

    /// Encodes data revealed after a sabotage phase.
    /// This includes:
    /// - The creature the non seer player revealed
    /// - All the sabotage choices that took place this turn
    ///
    /// There is no number if a creature that is named lies in the graveyard,
    /// or if the player without the seer has guessed the creature revealed.
    pub fn encode_sabotage_phase_reveal(
        sabotage_choices: Pair<SabotagePhaseChoice>,
        seer_player: Player,
        revealed_creature: Creature,
        graveyard: CreatureSet,
    ) -> (r: Option<Self>)
        ensures
            r is Some <==> Self::sabotage_phase_legal(
                sabotage_choices,
                seer_player,
                revealed_creature,
                graveyard,
            ),
            r matches Some(index) ==> index.0 == Self::sabotage_phase_code(
                sabotage_choices,
                seer_player,
                revealed_creature,
                graveyard,
            ),
    {
        let possibilities = graveyard.others();  // Pool of choices for sabotage guesses
        let count = possibilities.len() as usize;
        let mut revealed_creature_possibilities = possibilities;

        // If we are the non seer player, then we revealed
        // `revealed_creature` this turn, which means we would've
        // had no reason to try and sabotage it.
        match seer_player.not().select(sabotage_choices) {
            Some(sabotaged_by_non_seer) => {
                revealed_creature_possibilities.remove(sabotaged_by_non_seer);
            },
            None => {},
        }

        let mut result = revealed_creature_possibilities.indexof(revealed_creature)?;

        match sabotage_choices.0 {
            Some(sabotaged) => {
                let place = possibilities.indexof(sabotaged)?;
                assert(result * count <= 11 * 11) by (nonlinear_arith)
                    requires
                        result <= 11,
                        count <= 11,
                ;
                result = mix_ranged(result, place, count);
            },
            None => {},
        }
        match sabotage_choices.1 {
            Some(sabotaged) => {
                let place = possibilities.indexof(sabotaged)?;
                assert(result * count <= 132 * 11) by (nonlinear_arith)
                    requires
                        result <= 132,
                        count <= 11,
                ;
                result = mix_ranged(result, place, count);
            },
            None => {},
        }

        Some(RevealIndex(result))
    }

    /// Inverse of `encode_sabotage_phase_reveal`.
    pub fn decode_sabotage_phase_reveal(
        self,
        sabotage_statuses: Pair<bool>,
        seer_player: Player,
        graveyard: CreatureSet,
    ) -> (r: Option<(Pair<SabotagePhaseChoice>, Creature)>)
        ensures
            r == Self::sabotage_phase_reveal(
                self.0 as int,
                sabotage_statuses,
                seer_player,
                graveyard,
            ),
    {
        let possibilities = graveyard.others();  // Pool of choices for sabotage guesses
        let count = possibilities.len() as usize;
        let mut encoded = self.0;
        let mut sabotage_choices: Pair<SabotagePhaseChoice> = (None, None);

        if (sabotage_statuses.0 || sabotage_statuses.1) && count == 0 {
            return None;
        }
        if sabotage_statuses.1 {
            let (remaining, place) = unmix_ranged(encoded, count);
            encoded = remaining;
            sabotage_choices.1 = possibilities.index(place);
        }
        if sabotage_statuses.0 {
            let (remaining, place) = unmix_ranged(encoded, count);
            encoded = remaining;
            sabotage_choices.0 = possibilities.index(place);
        }
        let mut revealed_creature_possibilities = possibilities;

        // If we are the non seer player, then we revealed
        // `revealed_creature` this turn, which means we would've
        // had no reason to try and sabotage it.
        match seer_player.not().select(sabotage_choices) {
            Some(sabotaged_by_non_seer) => {
                revealed_creature_possibilities.remove(sabotaged_by_non_seer);
            },
            None => {},
        }

        let revealed_creature = revealed_creature_possibilities.index(encoded)?;

        Some((sabotage_choices, revealed_creature))
    }

    /// How many revelations a sabotage phase can end with.
    pub fn sabotage_phase_count(
        sabotage_statuses: Pair<bool>,
        forced_seer_player: Player,
        graveyard: CreatureSet,
    ) -> (r: usize)
        ensures
            r == Self::spec_sabotage_phase_count(sabotage_statuses, forced_seer_player, graveyard),
    {
        let sabotage_possibilities = graveyard.others().len() as usize;
        let mut reveal_possibilities = sabotage_possibilities;

        if forced_seer_player.not().select(sabotage_statuses) && reveal_possibilities > 0 {
            reveal_possibilities -= 1;
        }
        let first: usize = if sabotage_statuses.0 {
            sabotage_possibilities
        } else {
            1
        };
        let second: usize = if sabotage_statuses.1 {
            sabotage_possibilities
        } else {
            1
        };
        assert(first * second <= 11 * 11) by (nonlinear_arith)
            requires
                first <= 11,
                second <= 11,
        ;
        let sabotage_count = first * second;
        assert(reveal_possibilities * sabotage_count <= 11 * 121) by (nonlinear_arith)
            requires
                reveal_possibilities <= 11,
                sabotage_count <= 121,
        ;
        reveal_possibilities * sabotage_count
    }
}

impl RevealIndex {
    // ----- Sabotage phase: the encoder and the decoder are inverses -----
    /// A guess that was put on top comes off again, and leaves what was
    /// below it. The number as a whole stays below its bound.
    proof fn lemma_guess_put_then_taken(
        rest: int,
        guess: SabotagePhaseChoice,
        pool: CreatureSet,
        bound: int,
    )
        requires
            0 <= rest < bound,
            guess matches Some(creature) ==> pool.contains(creature),
        ensures
            Self::guess_on(Self::with_guess(rest, guess, pool), guess is Some, pool) == guess,
            Self::below_guess(Self::with_guess(rest, guess, pool), guess is Some, pool) == rest,
            0 <= Self::with_guess(rest, guess, pool) < bound * (if guess is Some {
                pool.count()
            } else {
                1
            }),
    {
        match guess {
            Some(creature) => {
                pool.lemma_nth_of_rank(creature);
                lemma_unmix_of_mix(rest, pool.rank(creature), pool.count());
                lemma_mix_in_range(rest, pool.rank(creature), bound, pool.count());
            },
            None => {
                assert(bound * 1 == bound);
            },
        }
    }

    /// A guess that was taken off goes back on top, and gives the number
    /// back.
    proof fn lemma_guess_taken_then_put(index: int, status: bool, pool: CreatureSet, bound: int)
        requires
            0 <= index,
            0 <= bound,
            status ==> pool.count() > 0,
        ensures
            Self::guess_on(index, status, pool) is Some == status,
            Self::guess_on(index, status, pool) matches Some(creature) ==> pool.contains(creature),
            Self::with_guess(
                Self::below_guess(index, status, pool),
                Self::guess_on(index, status, pool),
                pool,
            ) == index,
            0 <= Self::below_guess(index, status, pool),
            (index < bound * (if status {
                pool.count()
            } else {
                1
            })) == (Self::below_guess(index, status, pool) < bound),
    {
        if status {
            lemma_mix_of_unmix(index, pool.count());
            lemma_unmix_in_range(index, bound, pool.count());
            pool.lemma_rank_of_nth(index % pool.count());
        } else {
            assert(bound * 1 == bound);
        }
    }

    /// The pool of the revealed creature has as many members as the count
    /// says, when the guesses are outside the graveyard.
    proof fn lemma_sabotage_reveal_pool_count(
        sabotage_choices: Pair<SabotagePhaseChoice>,
        seer_player: Player,
        graveyard: CreatureSet,
    )
        requires
            sabotage_choices.0 matches Some(guess) ==> !graveyard.contains(guess),
            sabotage_choices.1 matches Some(guess) ==> !graveyard.contains(guess),
        ensures
            Self::sabotage_reveal_pool(sabotage_choices, seer_player, graveyard).count()
                == Self::sabotage_reveal_count(
                Self::sabotage_statuses(sabotage_choices),
                seer_player,
                graveyard,
            ),
            forall|c: Creature|
                #![trigger Self::sabotage_reveal_pool(
                    sabotage_choices,
                    seer_player,
                    graveyard,
                ).contains(c)]
                Self::sabotage_reveal_pool(sabotage_choices, seer_player, graveyard).contains(c)
                    == (!graveyard.contains(c) && seer_player.opponent().pick(sabotage_choices)
                    != Some(c)),
            forall|c: Creature|
                #![trigger Self::sabotage_pool(graveyard).contains(c)]
                Self::sabotage_pool(graveyard).contains(c) == !graveyard.contains(c),
            0 <= Self::sabotage_pool(graveyard).count(),
    {
        let pool = Self::sabotage_pool(graveyard);
        graveyard.lemma_complemented();
        pool.0.lemma_count_nonnegative(11);
        match seer_player.opponent().pick(sabotage_choices) {
            Some(guess) => {
                pool.lemma_removed(guess);
                pool.lemma_nth_of_rank(guess);
            },
            None => {},
        }
    }

    /// Sabotage phase, decode after encode: a legal revelation has a number
    /// below the count, and decoding that number gives the revelation back.
    pub proof fn lemma_sabotage_phase_decode_encode(
        sabotage_choices: Pair<SabotagePhaseChoice>,
        seer_player: Player,
        revealed_creature: Creature,
        graveyard: CreatureSet,
    )
        requires
            Self::sabotage_phase_legal(sabotage_choices, seer_player, revealed_creature, graveyard),
        ensures
            0 <= Self::sabotage_phase_code(
                sabotage_choices,
                seer_player,
                revealed_creature,
                graveyard,
            ) < Self::spec_sabotage_phase_count(
                Self::sabotage_statuses(sabotage_choices),
                seer_player,
                graveyard,
            ),
            Self::sabotage_phase_reveal(
                Self::sabotage_phase_code(
                    sabotage_choices,
                    seer_player,
                    revealed_creature,
                    graveyard,
                ),
                Self::sabotage_statuses(sabotage_choices),
                seer_player,
                graveyard,
            ) == Some((sabotage_choices, revealed_creature)),
    {
        let pool = Self::sabotage_pool(graveyard);
        let reveal_pool = Self::sabotage_reveal_pool(sabotage_choices, seer_player, graveyard);
        let statuses = Self::sabotage_statuses(sabotage_choices);
        let reveals = Self::sabotage_reveal_count(statuses, seer_player, graveyard);
        let first_count = Self::sabotage_guess_count(statuses.0, graveyard);
        let second_count = Self::sabotage_guess_count(statuses.1, graveyard);
        Self::lemma_sabotage_reveal_pool_count(sabotage_choices, seer_player, graveyard);
        reveal_pool.lemma_nth_of_rank(revealed_creature);
        let base = reveal_pool.rank(revealed_creature);
        let rest = Self::with_guess(base, sabotage_choices.0, pool);
        let code = Self::with_guess(rest, sabotage_choices.1, pool);
        Self::lemma_guess_put_then_taken(base, sabotage_choices.0, pool, reveals);
        Self::lemma_guess_put_then_taken(rest, sabotage_choices.1, pool, reveals * first_count);
        assert(code < (reveals * first_count) * second_count);
        assert((reveals * first_count) * second_count == reveals * (first_count * second_count))
            by (nonlinear_arith);
        if sabotage_choices.0 is Some {
            pool.lemma_nth_of_rank(sabotage_choices.0->Some_0);
        }
        if sabotage_choices.1 is Some {
            pool.lemma_nth_of_rank(sabotage_choices.1->Some_0);
        }
        assert(Self::guess_on(code, statuses.1, pool) == sabotage_choices.1);
        assert(Self::below_guess(code, statuses.1, pool) == rest);
        assert(Self::guess_on(rest, statuses.0, pool) == sabotage_choices.0);
        assert(Self::below_guess(rest, statuses.0, pool) == base);
    }

    /// Sabotage phase: the numbers that decode are those from zero up to the
    /// count, no more and no fewer.
    pub proof fn lemma_sabotage_phase_decodes_below_count(
        index: int,
        sabotage_statuses: Pair<bool>,
        seer_player: Player,
        graveyard: CreatureSet,
    )
        ensures
            Self::sabotage_phase_reveal(index, sabotage_statuses, seer_player, graveyard) is Some
                <==> 0 <= index < Self::spec_sabotage_phase_count(
                sabotage_statuses,
                seer_player,
                graveyard,
            ),
    {
        let pool = Self::sabotage_pool(graveyard);
        let alive = pool.count();
        let reveals = Self::sabotage_reveal_count(sabotage_statuses, seer_player, graveyard);
        let first_count = Self::sabotage_guess_count(sabotage_statuses.0, graveyard);
        let second_count = Self::sabotage_guess_count(sabotage_statuses.1, graveyard);
        graveyard.lemma_complemented();
        pool.0.lemma_count_nonnegative(11);
        assert((reveals * first_count) * second_count == reveals * (first_count * second_count))
            by (nonlinear_arith);
        if (sabotage_statuses.0 || sabotage_statuses.1) && alive == 0 {
            assert(reveals * (first_count * second_count) == 0) by (nonlinear_arith)
                requires
                    reveals == 0,
            ;
        } else if 0 <= index {
            let second = Self::guess_on(index, sabotage_statuses.1, pool);
            let rest = Self::below_guess(index, sabotage_statuses.1, pool);
            let first = Self::guess_on(rest, sabotage_statuses.0, pool);
            let base = Self::below_guess(rest, sabotage_statuses.0, pool);
            assert(0 <= reveals * first_count) by (nonlinear_arith)
                requires
                    0 <= reveals,
                    0 <= first_count,
            ;
            Self::lemma_guess_taken_then_put(
                index,
                sabotage_statuses.1,
                pool,
                reveals * first_count,
            );
            Self::lemma_guess_taken_then_put(rest, sabotage_statuses.0, pool, reveals);
            Self::lemma_sabotage_reveal_pool_count((first, second), seer_player, graveyard);
        }
    }

    /// Sabotage phase, encode after decode: every number below the count
    /// decodes to a legal revelation with guesses from exactly the
    /// saboteurs, and that revelation has this number.
    pub proof fn lemma_sabotage_phase_encode_decode(
        index: int,
        sabotage_statuses: Pair<bool>,
        seer_player: Player,
        graveyard: CreatureSet,
    )
        requires
            0 <= index < Self::spec_sabotage_phase_count(
                sabotage_statuses,
                seer_player,
                graveyard,
            ),
        ensures
            Self::sabotage_phase_reveal(
                index,
                sabotage_statuses,
                seer_player,
                graveyard,
            ) matches Some((choices, revealed)) && Self::sabotage_statuses(choices)
                == sabotage_statuses
                && Self::sabotage_phase_legal(choices, seer_player, revealed, graveyard)
                && Self::sabotage_phase_code(choices, seer_player, revealed, graveyard) == index,
    {
        let pool = Self::sabotage_pool(graveyard);
        Self::lemma_sabotage_phase_decodes_below_count(index, sabotage_statuses, seer_player, graveyard);
        let second = Self::guess_on(index, sabotage_statuses.1, pool);
        let rest = Self::below_guess(index, sabotage_statuses.1, pool);
        let first = Self::guess_on(rest, sabotage_statuses.0, pool);
        let base = Self::below_guess(rest, sabotage_statuses.0, pool);
        let reveal_pool = Self::sabotage_reveal_pool((first, second), seer_player, graveyard);
        graveyard.lemma_complemented();
        Self::lemma_guess_taken_then_put(index, sabotage_statuses.1, pool, 0);
        Self::lemma_guess_taken_then_put(rest, sabotage_statuses.0, pool, 0);
        Self::lemma_sabotage_reveal_pool_count((first, second), seer_player, graveyard);
        reveal_pool.lemma_rank_of_nth(base);
    }

    /// What can be revealed when the players with `sabotage_statuses` have
    /// played the sabotage edict: a guess from each of them and from no one
    /// else, and a creature, all of it legal.
    pub open spec fn sabotage_phase_choices(
        sabotage_statuses: Pair<bool>,
        seer_player: Player,
        graveyard: CreatureSet,
    ) -> Set<(Pair<SabotagePhaseChoice>, Creature)> {
        Set::new(
            |revealed: (Pair<SabotagePhaseChoice>, Creature)|
                Self::sabotage_statuses(revealed.0) == sabotage_statuses
                    && Self::sabotage_phase_legal(revealed.0, seer_player, revealed.1, graveyard),
        )
    }

    /// Sabotage phase, exact size: there are as many legal revelations as
    /// the count says.
    pub proof fn lemma_sabotage_phase_exact_size(
        sabotage_statuses: Pair<bool>,
        seer_player: Player,
        graveyard: CreatureSet,
    )
        ensures
            Self::sabotage_phase_choices(sabotage_statuses, seer_player, graveyard).finite(),
            Self::sabotage_phase_choices(sabotage_statuses, seer_player, graveyard).len()
                == Self::spec_sabotage_phase_count(sabotage_statuses, seer_player, graveyard),
    {
        let choices = Self::sabotage_phase_choices(sabotage_statuses, seer_player, graveyard);
        let count = Self::spec_sabotage_phase_count(sabotage_statuses, seer_player, graveyard);
        let decode = |index: int|
            Self::sabotage_phase_reveal(index, sabotage_statuses, seer_player, graveyard).unwrap();
        let encode = |revealed: (Pair<SabotagePhaseChoice>, Creature)|
            Self::sabotage_phase_code(revealed.0, seer_player, revealed.1, graveyard);
        let alive = Self::sabotage_pool(graveyard).count();
        Self::sabotage_pool(graveyard).0.lemma_count_nonnegative(11);
        assert(0 <= count) by (nonlinear_arith)
            requires
                count == Self::sabotage_reveal_count(sabotage_statuses, seer_player, graveyard) * (
                Self::sabotage_guess_count(sabotage_statuses.0, graveyard)
                    * Self::sabotage_guess_count(sabotage_statuses.1, graveyard)),
                0 <= Self::sabotage_reveal_count(sabotage_statuses, seer_player, graveyard),
                0 <= Self::sabotage_guess_count(sabotage_statuses.0, graveyard),
                0 <= Self::sabotage_guess_count(sabotage_statuses.1, graveyard),
        ;
        assert forall|index: int| 0 <= index < count implies choices.contains(
            #[trigger] decode(index),
        ) && encode(decode(index)) == index by {
            Self::lemma_sabotage_phase_encode_decode(
                index,
                sabotage_statuses,
                seer_player,
                graveyard,
            );
        }
        assert forall|revealed: (Pair<SabotagePhaseChoice>, Creature)|
            choices.contains(revealed) implies 0 <= #[trigger] encode(revealed) < count && decode(
            encode(revealed),
        ) == revealed by {
            Self::lemma_sabotage_phase_decode_encode(
                revealed.0,
                seer_player,
                revealed.1,
                graveyard,
            );
        }
        lemma_numbered_set_size(choices, count, decode, encode);
    }

    /// Sabotage legality exclusion: whatever a number decodes to, no
    /// creature in the graveyard is guessed or revealed, and the player
    /// without the seer has not guessed the creature revealed.
    pub proof fn lemma_sabotage_phase_exclusion(
        index: int,
        sabotage_statuses: Pair<bool>,
        seer_player: Player,
        graveyard: CreatureSet,
    )
        ensures
            Self::sabotage_phase_reveal(
                index,
                sabotage_statuses,
                seer_player,
                graveyard,
            ) matches Some((choices, revealed)) ==> {
                &&& !graveyard.contains(revealed)
                &&& choices.0 matches Some(guess) ==> !graveyard.contains(guess)
                &&& choices.1 matches Some(guess) ==> !graveyard.contains(guess)
                &&& seer_player.opponent().pick(choices) != Some(revealed)
            },
    {
        Self::lemma_sabotage_phase_decodes_below_count(index, sabotage_statuses, seer_player, graveyard);
        if Self::sabotage_phase_reveal(index, sabotage_statuses, seer_player, graveyard) is Some {
            Self::lemma_sabotage_phase_encode_decode(
                index,
                sabotage_statuses,
                seer_player,
                graveyard,
            );
        }
    }
}

impl RevealIndex {
    // ----- Seer phase: the creature the seer's player takes back -----
    /// The creatures that can be taken back: those outside the graveyard,
    /// but for the one that was revealed.
    pub open spec fn seer_phase_pool(graveyard: CreatureSet, revealed_creature: Creature)
        -> CreatureSet {
        graveyard.complemented().removed(revealed_creature)
    }

    /// The creature is outside the graveyard and is not the revealed one.
    pub open spec fn seer_phase_legal(
        creature: Creature,
        graveyard: CreatureSet,
        revealed_creature: Creature,
    ) -> bool {
        !graveyard.contains(creature) && creature != revealed_creature
    }

    /// The number of a legal creature: its place in the pool.
    pub open spec fn seer_phase_code(
        creature: Creature,
        graveyard: CreatureSet,
        revealed_creature: Creature,
    ) -> int {
        Self::seer_phase_pool(graveyard, revealed_creature).rank(creature)
    }

    /// The creature with number `index`, if the pool has that many.
    pub open spec fn seer_phase_reveal(
        index: int,
        graveyard: CreatureSet,
        revealed_creature: Creature,
    ) -> Option<Creature> {
        let pool = Self::seer_phase_pool(graveyard, revealed_creature);
        if 0 <= index < pool.count() {
            Some(pool.nth(index))
        } else {
            None
        }
    }

    /// How many creatures can be taken back when the revealed creature is
    /// outside the graveyard: one less than are outside.
    pub open spec fn spec_seer_phase_count(graveyard: CreatureSet) -> int {
        let alive = graveyard.complemented().count();
        if alive > 0 {
            alive - 1
        } else {
            0
        }
    }

    /// Numbers the creature that is taken back. There is no number if the
    /// creature is in the graveyard or is the revealed one.
    pub fn encode_seer_phase_reveal(
        creature: Creature,
        graveyard: CreatureSet,
        revealed_creature: Creature,
    ) -> (r: Option<Self>)
        ensures
            r is Some <==> Self::seer_phase_legal(creature, graveyard, revealed_creature),
            r matches Some(index) ==> index.0 == Self::seer_phase_code(
                creature,
                graveyard,
                revealed_creature,
            ),
    {
        let possibilities = graveyard.others().without(revealed_creature);
        Some(RevealIndex(possibilities.indexof(creature)?))
    }

    /// The creature that has the number `self`. There is none if the number
    /// is not below the size of the pool.
    pub fn decode_seer_phase_reveal(
        self,
        graveyard: CreatureSet,
        revealed_creature: Creature,
    ) -> (r: Option<Creature>)
        ensures
            r == Self::seer_phase_reveal(self.0 as int, graveyard, revealed_creature),
    {
        let possibilities = graveyard.others().without(revealed_creature);
        possibilities.index(self.0)
    }

    /// How many creatures can be taken back.
    pub fn seer_phase_count(graveyard: CreatureSet) -> (r: usize)
        ensures
            r == Self::spec_seer_phase_count(graveyard),
    {
        let alive = graveyard.others().len() as usize;
        if alive > 0 {
            alive - 1
        } else {
            0
        }
    }

    /// The creatures that can legally be taken back.
    pub open spec fn seer_phase_choices(graveyard: CreatureSet, revealed_creature: Creature) -> Set<
        Creature,
    > {
        Set::new(|creature: Creature| Self::seer_phase_legal(creature, graveyard, revealed_creature))
    }

    /// Seer phase, exact size: with the revealed creature outside the
    /// graveyard, there are as many legal creatures as the count says, and
    /// they are the members of the pool.
    pub proof fn lemma_seer_phase_exact_size(graveyard: CreatureSet, revealed_creature: Creature)
        requires
            !graveyard.contains(revealed_creature),
        ensures
            Self::seer_phase_pool(graveyard, revealed_creature).count()
                == Self::spec_seer_phase_count(graveyard),
            Self::seer_phase_pool(graveyard, revealed_creature)@ == Self::seer_phase_choices(
                graveyard,
                revealed_creature,
            ),
            Self::seer_phase_choices(graveyard, revealed_creature).finite(),
            Self::seer_phase_choices(graveyard, revealed_creature).len()
                == Self::spec_seer_phase_count(graveyard),
    {
        let pool = Self::seer_phase_pool(graveyard, revealed_creature);
        graveyard.lemma_complemented();
        graveyard.complemented().lemma_removed(revealed_creature);
        graveyard.complemented().lemma_nth_of_rank(revealed_creature);
        pool.lemma_count_is_len();
        assert(pool@ =~= Self::seer_phase_choices(graveyard, revealed_creature));
    }

    /// Seer phase, decode after encode: a legal creature has a number below
    /// the size of the pool, and decoding that number gives the creature
    /// back.
    pub proof fn lemma_seer_phase_decode_encode(
        creature: Creature,
        graveyard: CreatureSet,
        revealed_creature: Creature,
    )
        requires
            Self::seer_phase_legal(creature, graveyard, revealed_creature),
        ensures
            0 <= Self::seer_phase_code(creature, graveyard, revealed_creature)
                < Self::seer_phase_pool(graveyard, revealed_creature).count(),
            Self::seer_phase_reveal(
                Self::seer_phase_code(creature, graveyard, revealed_creature),
                graveyard,
                revealed_creature,
            ) == Some(creature),
    {
        graveyard.lemma_complemented();
        graveyard.complemented().lemma_removed(revealed_creature);
        Self::seer_phase_pool(graveyard, revealed_creature).lemma_nth_of_rank(creature);
    }

    /// Seer phase, encode after decode: every number below the size of the
    /// pool decodes to a legal creature, and that creature has this number.
    pub proof fn lemma_seer_phase_encode_decode(
        index: int,
        graveyard: CreatureSet,
        revealed_creature: Creature,
    )
        requires
            0 <= index < Self::seer_phase_pool(graveyard, revealed_creature).count(),
        ensures
            Self::seer_phase_reveal(index, graveyard, revealed_creature) matches Some(creature)
                && Self::seer_phase_legal(creature, graveyard, revealed_creature)
                && Self::seer_phase_code(creature, graveyard, revealed_creature) == index,
    {
        graveyard.lemma_complemented();
        graveyard.complemented().lemma_removed(revealed_creature);
        Self::seer_phase_pool(graveyard, revealed_creature).lemma_rank_of_nth(index);
    }
}

} // verus!
