//! Numbering the hands a player can hold.
//!
//! A hand is a set of creatures outside the graveyard. Among the hands of
//! one size, each gets a number from zero up to the number of such hands,
//! by the combinatorial number system: the creatures outside the graveyard
//! are numbered in their order, and a hand whose members have the numbers
//! `r_0 < r_1 < ...` gets the sum of the binomial coefficients
//! `C(r_0, 1) + C(r_1, 2) + ...`.

use crate::game::creature::{Creature, CreatureSet, CREATURE_COUNT};
use crate::helpers::binomial::{
    binomial,
    binomial_coefficient,
    lemma_binomial_bounds,
    lemma_binomial_monotone,
    lemma_binomial_small,
    lemma_binomial_too_many,
};
use crate::helpers::bitfield::{lemma_count_same, Bitfield};
use crate::helpers::counting::lemma_numbered_set_size;
use vstd::prelude::*;

verus! {

/// Used to index decision matrices.
#[derive(Clone, Copy, Debug, PartialEq, Eq, PartialOrd, Ord, Hash, Structural)]
pub struct HiddenIndex(pub usize);

/// The number of a hand among the hands of its size.
pub type HandContentIndex = usize;

impl HiddenIndex {
    /// The creatures a hand can hold: those outside the graveyard.
    pub open spec fn hand_pool(graveyard: CreatureSet) -> CreatureSet {
        graveyard.complemented()
    }

    /// No creature of the hand lies in the graveyard.
    pub open spec fn hand_legal(hand: CreatureSet, graveyard: CreatureSet) -> bool {
        forall|c: Creature| #[trigger] hand.contains(c) ==> !graveyard.contains(c)
    }

    /// What the members of `hand` at positions below `p` add to its number:
    /// for each of them the number of ways to pick, from the members of
    /// `pool` before it, one more than the hand holds before it.
    pub open spec fn code_below(hand: Bitfield, pool: Bitfield, p: int) -> int
        decreases p,
    {
        if p <= 0 {
            0
        } else {
            Self::code_below(hand, pool, p - 1) + if hand.contains(p - 1) {
                binomial(pool.count_below(p - 1), hand.count_below(p - 1) + 1)
            } else {
                0
            }
        }
    }

    /// The number of a legal hand among the hands of its size.
    pub open spec fn hand_code(hand: CreatureSet, graveyard: CreatureSet) -> int {
        Self::code_below(hand.0, Self::hand_pool(graveyard).0, CREATURE_COUNT as int)
    }

    /// How many hands of `hand_size` creatures there are.
    pub open spec fn spec_hand_contents_count(hand_size: int, graveyard: CreatureSet) -> int {
        binomial(Self::hand_pool(graveyard).count(), hand_size)
    }

    /// The set of `hand_size` members of `pool` below position `p` that has
    /// the number `index`: the last member of the pool belongs to it when
    /// the hands without it do not reach up to `index`.
    pub open spec fn hand_below(index: int, hand_size: int, pool: Bitfield, p: int) -> Bitfield
        decreases p,
    {
        if p <= 0 {
            Bitfield::none()
        } else {
            let weight = binomial(pool.count_below(p - 1), hand_size);
            if pool.contains(p - 1) && hand_size > 0 && weight <= index {
                Self::hand_below(index - weight, hand_size - 1, pool, p - 1).inserted(p - 1)
            } else {
                Self::hand_below(index, hand_size, pool, p - 1)
            }
        }
    }

    /// The hand of `hand_size` creatures with number `index`, if `index` is
    /// below the count.
    pub open spec fn hand_contents(index: int, hand_size: int, graveyard: CreatureSet) -> Option<
        CreatureSet,
    > {
        if 0 <= index < Self::spec_hand_contents_count(hand_size, graveyard) {
            Some(
                CreatureSet(
                    Self::hand_below(
                        index,
                        hand_size,
                        Self::hand_pool(graveyard).0,
                        CREATURE_COUNT as int,
                    ),
                ),
            )
        } else {
            None
        }
    }

    /// Numbers a hand among the hands of its size. There is no number if a
    /// creature of the hand lies in the graveyard.
    pub fn encode_hand_contents(hand: CreatureSet, graveyard: CreatureSet) -> (r: Option<
        HandContentIndex,
    >)
        ensures
            r is Some <==> Self::hand_legal(hand, graveyard),
            r matches Some(index) ==> index == Self::hand_code(hand, graveyard),
    {
        let creature_set = graveyard.others();
        let mut result: usize = 0;
        let mut alive: u8 = 0;
        let mut held: u8 = 0;
        let mut position: u8 = 0;

        while position < CREATURE_COUNT
            invariant
                position <= CREATURE_COUNT,
                creature_set == Self::hand_pool(graveyard),
                forall|c: Creature|
                    #![trigger creature_set.contains(c)]
                    creature_set.contains(c) == !graveyard.contains(c),
                alive == creature_set.0.count_below(position as int),
                held == hand.0.count_below(position as int),
                result == Self::code_below(hand.0, creature_set.0, position as int),
                forall|i: int|
                    #![trigger hand.0.contains(i)]
                    0 <= i < position && hand.0.contains(i) ==> creature_set.0.contains(i),
            decreases CREATURE_COUNT - position,
        {
            let in_pool = creature_set.0.has(position);
            if hand.0.has(position) {
                if !in_pool {
                    proof {
                        let c = Creature::at(position as int);
                        Creature::lemma_at_roundtrip(position as int);
                        assert(hand.contains(c));
                        assert(!creature_set.contains(c));
                    }
                    return None;
                }
                proof {
                    Self::lemma_code_bounds(hand.0, creature_set.0, position as int + 1);
                    creature_set.0.lemma_count_nonnegative(position as int + 1);
                    lemma_binomial_small(
                        creature_set.0.count_below(position as int + 1),
                        hand.0.count_below(position as int + 1),
                    );
                    creature_set.0.lemma_count_nonnegative(position as int);
                    hand.0.lemma_count_nonnegative(position as int);
                }
                result = result + binomial_coefficient(alive, held + 1);
                held = held + 1;
            }
            if in_pool {
                proof {
                    creature_set.0.lemma_count_nonnegative(position as int);
                }
                alive = alive + 1;
            }
            position = position + 1;
        }

        proof {
            assert forall|c: Creature| #[trigger] hand.contains(c) implies !graveyard.contains(
                c,
            ) by {
                assert(hand.0.contains(c.position() as int));
                assert(creature_set.contains(c));
            }
        }
        Some(result)
    }

    /// The hand of `hand_size` creatures that has the number `index`. There
    /// is none if the number is not below the count.
    pub fn decode_hand_contents(
        index: HandContentIndex,
        hand_size: u8,
        graveyard: CreatureSet,
    ) -> (r: Option<CreatureSet>)
        ensures
            r == Self::hand_contents(index as int, hand_size as int, graveyard),
    {
        let creature_set = graveyard.others();
        if index >= binomial_coefficient(creature_set.len(), hand_size) {
            return None;
        }
        Some(CreatureSet(Self::decode_below(index, hand_size, creature_set.0, CREATURE_COUNT)))
    }

    /// The members below `position` of the hand with number `index`.
    fn decode_below(index: usize, hand_size: u8, pool: Bitfield, position: u8) -> (r: Bitfield)
        requires
            position <= 16,
        ensures
            r == Self::hand_below(index as int, hand_size as int, pool, position as int),
        decreases position,
    {
        if position == 0 {
            return Bitfield::empty();
        }
        let last = position - 1;
        if hand_size > 0 && pool.has(last) {
            let weight = binomial_coefficient(pool.count(last), hand_size);
            if weight <= index {
                let mut rest = Self::decode_below(index - weight, hand_size - 1, pool, last);
                rest.add(last);
                return rest;
            }
        }
        Self::decode_below(index, hand_size, pool, last)
    }

    /// How many hands of `hand_size` creatures there are: the size of the
    /// table that the numbers of such hands point into.
    pub fn hand_contents_count(hand_size: u8, graveyard: CreatureSet) -> (r: usize)
        ensures
            r == Self::spec_hand_contents_count(hand_size as int, graveyard),
    {
        binomial_coefficient(graveyard.others().len(), hand_size)
    }

    /// The members of a hand below `p` add up to less than the number of
    /// hands that can be picked below `p`.
    pub proof fn lemma_code_bounds(hand: Bitfield, pool: Bitfield, p: int)
        requires
            forall|i: int|
                #![trigger hand.contains(i)]
                0 <= i < p && hand.contains(i) ==> pool.contains(i),
        ensures
            0 <= Self::code_below(hand, pool, p) < binomial(
                pool.count_below(p),
                hand.count_below(p),
            ),
        decreases p,
    {
        if p > 0 {
            Self::lemma_code_bounds(hand, pool, p - 1);
            let alive = pool.count_below(p - 1);
            let held = hand.count_below(p - 1);
            pool.lemma_count_nonnegative(p - 1);
            hand.lemma_count_nonnegative(p - 1);
            lemma_binomial_bounds(alive, held + 1);
            if hand.contains(p - 1) {
                assert(pool.contains(p - 1));
                assert(binomial(alive + 1, held + 1) == binomial(alive, held) + binomial(
                    alive,
                    held + 1,
                ));
            } else if pool.contains(p - 1) {
                lemma_binomial_monotone(alive, alive + 1, held);
            }
        } else {
            hand.lemma_count_nonnegative(p);
        }
    }
}

impl HiddenIndex {
    // ----- The encoder and the decoder are inverses -----
    /// Hands with the same members below `p` get the same from them.
    proof fn lemma_code_same(one: Bitfield, other: Bitfield, pool: Bitfield, p: int)
        requires
            forall|i: int|
                #![trigger one.contains(i)]
                0 <= i < p ==> one.contains(i) == other.contains(i),
        ensures
            Self::code_below(one, pool, p) == Self::code_below(other, pool, p),
        decreases p,
    {
        if p > 0 {
            Self::lemma_code_same(one, other, pool, p - 1);
            lemma_count_same(one, other, p - 1);
        }
    }

    /// Decoding picks members of the pool below `p` only.
    proof fn lemma_decoded_members(index: int, hand_size: int, pool: Bitfield, p: int)
        requires
            p <= 16,
        ensures
            forall|i: int|
                #![trigger Self::hand_below(index, hand_size, pool, p).contains(i)]
                Self::hand_below(index, hand_size, pool, p).contains(i) ==> 0 <= i < p
                    && pool.contains(i),
        decreases p,
    {
        if p > 0 {
            let weight = binomial(pool.count_below(p - 1), hand_size);
            let hand = Self::hand_below(index, hand_size, pool, p);
            if pool.contains(p - 1) && hand_size > 0 && weight <= index {
                let rest = Self::hand_below(index - weight, hand_size - 1, pool, p - 1);
                Self::lemma_decoded_members(index - weight, hand_size - 1, pool, p - 1);
                rest.lemma_inserted(p - 1);
                assert(hand == rest.inserted(p - 1));
                assert forall|i: int| #[trigger] hand.contains(i) implies 0 <= i < p
                    && pool.contains(i) by {
                    assert(rest.inserted(p - 1).contains(i));
                    if i != p - 1 {
                        assert(rest.contains(i));
                    }
                }
            } else {
                let rest = Self::hand_below(index, hand_size, pool, p - 1);
                Self::lemma_decoded_members(index, hand_size, pool, p - 1);
                assert(hand == rest);
                assert forall|i: int| #[trigger] hand.contains(i) implies 0 <= i < p
                    && pool.contains(i) by {
                    assert(rest.contains(i));
                }
            }
        } else {
            Bitfield::lemma_none();
        }
    }

    /// Below every position, decoding what the members of a hand add up to
    /// gives those members back.
    proof fn lemma_decode_encode_below(hand: Bitfield, pool: Bitfield, p: int)
        requires
            p <= 16,
            forall|i: int|
                #![trigger hand.contains(i)]
                0 <= i < p && hand.contains(i) ==> pool.contains(i),
        ensures
            forall|i: int|
                #![trigger Self::hand_below(
                    Self::code_below(hand, pool, p),
                    hand.count_below(p),
                    pool,
                    p,
                ).contains(i)]
                Self::hand_below(
                    Self::code_below(hand, pool, p),
                    hand.count_below(p),
                    pool,
                    p,
                ).contains(i) == (0 <= i < p && hand.contains(i)),
        decreases p,
    {
        let decoded = Self::hand_below(
            Self::code_below(hand, pool, p),
            hand.count_below(p),
            pool,
            p,
        );
        if p > 0 {
            let alive = pool.count_below(p - 1);
            let held = hand.count_below(p - 1);
            let below = Self::code_below(hand, pool, p - 1);
            let rest = Self::hand_below(below, held, pool, p - 1);
            Self::lemma_decode_encode_below(hand, pool, p - 1);
            Self::lemma_code_bounds(hand, pool, p - 1);
            hand.lemma_count_nonnegative(p - 1);
            lemma_binomial_bounds(alive, held + 1);
            if hand.contains(p - 1) {
                assert(pool.contains(p - 1));
                rest.lemma_inserted(p - 1);
                assert(decoded == rest.inserted(p - 1));
                assert forall|i: int| #[trigger]
                    decoded.contains(i) == (0 <= i < p && hand.contains(i)) by {
                    assert(rest.inserted(p - 1).contains(i) == (i == p - 1 || rest.contains(i)));
                }
            } else {
                assert(decoded == rest);
                assert forall|i: int| #[trigger]
                    decoded.contains(i) == (0 <= i < p && hand.contains(i)) by {
                    assert(rest.contains(i) == (0 <= i < p - 1 && hand.contains(i)));
                }
            }
        } else {
            Bitfield::lemma_none();
            assert(decoded == Bitfield::none());
        }
    }

    /// Below every position, each number under the number of hands decodes
    /// to a hand of the size asked for whose members add up to it.
    proof fn lemma_encode_decode_below(index: int, hand_size: int, pool: Bitfield, p: int)
        requires
            0 <= p <= 16,
            0 <= index < binomial(pool.count_below(p), hand_size),
        ensures
            Self::hand_below(index, hand_size, pool, p).count_below(p) == hand_size,
            Self::code_below(Self::hand_below(index, hand_size, pool, p), pool, p) == index,
        decreases p,
    {
        let hand = Self::hand_below(index, hand_size, pool, p);
        if p > 0 {
            let alive = pool.count_below(p - 1);
            let weight = binomial(alive, hand_size);
            pool.lemma_count_nonnegative(p - 1);
            lemma_binomial_bounds(alive, hand_size);
            if pool.contains(p - 1) && hand_size > 0 && weight <= index {
                let rest = Self::hand_below(index - weight, hand_size - 1, pool, p - 1);
                assert(binomial(alive + 1, hand_size) == binomial(alive, hand_size - 1) + weight);
                Self::lemma_encode_decode_below(index - weight, hand_size - 1, pool, p - 1);
                Self::lemma_decoded_members(index - weight, hand_size - 1, pool, p - 1);
                rest.lemma_inserted(p - 1);
                lemma_count_same(rest, hand, p - 1);
                Self::lemma_code_same(rest, hand, pool, p - 1);
            } else {
                if pool.contains(p - 1) && hand_size > 0 {
                } else if pool.contains(p - 1) {
                    // Only the empty hand is left to pick.
                    assert(hand_size == 0);
                    assert(binomial(alive, 0) == 1);
                }
                Self::lemma_encode_decode_below(index, hand_size, pool, p - 1);
                Self::lemma_decoded_members(index, hand_size, pool, p - 1);
            }
        } else {
            Bitfield::lemma_none();
            assert(hand_size == 0) by {
                if hand_size > 0 {
                    assert(binomial(0, hand_size) == 0);
                }
            }
        }
    }

    /// Hands, decode after encode: a legal hand has a number below the
    /// count for its size, and decoding that number gives a hand with the
    /// same creatures.
    pub proof fn lemma_hand_decode_encode(hand: CreatureSet, graveyard: CreatureSet)
        requires
            Self::hand_legal(hand, graveyard),
        ensures
            0 <= Self::hand_code(hand, graveyard) < Self::spec_hand_contents_count(
                hand.count(),
                graveyard,
            ),
            Self::hand_contents(
                Self::hand_code(hand, graveyard),
                hand.count(),
                graveyard,
            ) matches Some(decoded) && decoded@ == hand@,
    {
        let pool = Self::hand_pool(graveyard);
        graveyard.lemma_complemented();
        assert forall|i: int|
            #![trigger hand.0.contains(i)]
            0 <= i < 11 && hand.0.contains(i) implies pool.0.contains(i) by {
            Creature::lemma_at_roundtrip(i);
            assert(hand.contains(Creature::at(i)));
            assert(pool.contains(Creature::at(i)));
        }
        Self::lemma_code_bounds(hand.0, pool.0, 11);
        Self::lemma_decode_encode_below(hand.0, pool.0, 11);
        let decoded = CreatureSet(
            Self::hand_below(Self::hand_code(hand, graveyard), hand.count(), pool.0, 11),
        );
        assert forall|c: Creature| decoded@.contains(c) == hand@.contains(c) by {
            assert(decoded.0.contains(c.position() as int) == hand.0.contains(
                c.position() as int,
            ));
        }
        assert(decoded@ =~= hand@);
    }

    /// Hands, encode after decode: every number below the count decodes to
    /// a legal hand of the size asked for, and that hand has this number.
    pub proof fn lemma_hand_encode_decode(index: int, hand_size: int, graveyard: CreatureSet)
        requires
            0 <= index < Self::spec_hand_contents_count(hand_size, graveyard),
        ensures
            Self::hand_contents(index, hand_size, graveyard) matches Some(hand)
                && Self::hand_legal(hand, graveyard) && hand.count() == hand_size
                && Self::hand_code(hand, graveyard) == index,
    {
        let pool = Self::hand_pool(graveyard);
        graveyard.lemma_complemented();
        Self::lemma_encode_decode_below(index, hand_size, pool.0, 11);
        Self::lemma_decoded_members(index, hand_size, pool.0, 11);
        let hand = CreatureSet(Self::hand_below(index, hand_size, pool.0, 11));
        assert forall|c: Creature| #[trigger] hand.contains(c) implies !graveyard.contains(c) by {
            assert(pool.contains(c));
        }
    }

    /// The hands of `hand_size` creatures from outside the graveyard, each
    /// as the set of its creatures.
    pub open spec fn hands(hand_size: int, graveyard: CreatureSet) -> Set<Set<Creature>> {
        Set::new(
            |creatures: Set<Creature>|
                exists|hand: CreatureSet|
                    hand@ == creatures && Self::hand_legal(hand, graveyard) && hand.count()
                        == hand_size,
        )
    }

    /// Whatever a hand is asked, only the creatures in it matter.
    pub proof fn lemma_hand_by_creatures(one: CreatureSet, other: CreatureSet, graveyard: CreatureSet)
        requires
            one@ == other@,
        ensures
            Self::hand_legal(one, graveyard) == Self::hand_legal(other, graveyard),
            one.count() == other.count(),
            Self::hand_code(one, graveyard) == Self::hand_code(other, graveyard),
    {
        assert forall|c: Creature| one.contains(c) == other.contains(c) by {
            assert(one@.contains(c) == one.contains(c));
            assert(other@.contains(c) == other.contains(c));
        }
        assert forall|i: int|
            #![trigger one.0.contains(i)]
            0 <= i < 11 implies one.0.contains(i) == other.0.contains(i) by {
            Creature::lemma_at_roundtrip(i);
            assert(one.contains(Creature::at(i)) == other.contains(Creature::at(i)));
        }
        lemma_count_same(one.0, other.0, 11);
        Self::lemma_code_same(one.0, other.0, Self::hand_pool(graveyard).0, 11);
    }

    /// Hands, exact size: there are as many hands of `hand_size` creatures
    /// as the count says.
    pub proof fn lemma_hand_exact_size(hand_size: int, graveyard: CreatureSet)
        ensures
            Self::hands(hand_size, graveyard).finite(),
            Self::hands(hand_size, graveyard).len() == Self::spec_hand_contents_count(
                hand_size,
                graveyard,
            ),
    {
        let hands = Self::hands(hand_size, graveyard);
        let count = Self::spec_hand_contents_count(hand_size, graveyard);
        let decode = |index: int| Self::hand_contents(index, hand_size, graveyard).unwrap()@;
        let encode = |creatures: Set<Creature>|
            Self::hand_code(choose|hand: CreatureSet| hand@ == creatures, graveyard);
        lemma_binomial_bounds(Self::hand_pool(graveyard).count(), hand_size);
        assert forall|index: int| 0 <= index < count implies hands.contains(
            #[trigger] decode(index),
        ) && encode(decode(index)) == index by {
            Self::lemma_hand_encode_decode(index, hand_size, graveyard);
            let hand = Self::hand_contents(index, hand_size, graveyard).unwrap();
            let chosen = choose|chosen: CreatureSet| chosen@ == hand@;
            Self::lemma_hand_by_creatures(chosen, hand, graveyard);
        }
        assert forall|creatures: Set<Creature>| hands.contains(creatures) implies 0
            <= #[trigger] encode(creatures) < count && decode(encode(creatures)) == creatures by {
            let hand = choose|hand: CreatureSet|
                hand@ == creatures && Self::hand_legal(hand, graveyard) && hand.count()
                    == hand_size;
            let chosen = choose|chosen: CreatureSet| chosen@ == creatures;
            Self::lemma_hand_by_creatures(chosen, hand, graveyard);
            Self::lemma_hand_decode_encode(chosen, graveyard);
        }
        lemma_numbered_set_size(hands, count, decode, encode);
    }

    /// Hands, exact size: more creatures than are outside the graveyard
    /// make no hand at all.
    pub proof fn lemma_hand_too_large(hand_size: int, graveyard: CreatureSet)
        requires
            hand_size > Self::hand_pool(graveyard).count(),
        ensures
            Self::spec_hand_contents_count(hand_size, graveyard) == 0,
    {
        Self::hand_pool(graveyard).0.lemma_count_nonnegative(11);
        lemma_binomial_too_many(Self::hand_pool(graveyard).count(), hand_size);
    }
}

} // verus!
