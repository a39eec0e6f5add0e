//! Creatures and sets of creatures.

use crate::helpers::bitfield::Bitfield;
use crate::helpers::upair::{decode_upair, encode_upair, pair_code, pair_of};
use vstd::prelude::*;

verus! {

/// The cards players fight with. Each exists once in the whole game.
#[derive(Clone, Copy, Debug, PartialEq, Eq, PartialOrd, Ord, Hash, Structural)]
pub enum Creature {
    Wall,
    Seer,
    Rogue,
    Bard,
    Diplomat,
    Ranger,
    Steward,
    Barbarian,
    Witch,
    Mercenary,
    Monarch,
}

/// How many creatures there are.
pub const CREATURE_COUNT: u8 = 11;

impl Creature {
    /// Every creature, weakest position first.
    pub const CREATURES: [Creature; 11] = [
        Creature::Wall,
        Creature::Seer,
        Creature::Rogue,
        Creature::Bard,
        Creature::Diplomat,
        Creature::Ranger,
        Creature::Steward,
        Creature::Barbarian,
        Creature::Witch,
        Creature::Mercenary,
        Creature::Monarch,
    ];

    /// The position of the creature in the list of all creatures.
    pub open spec fn position(self) -> u8 {
        match self {
            Creature::Wall => 0,
            Creature::Seer => 1,
            Creature::Rogue => 2,
            Creature::Bard => 3,
            Creature::Diplomat => 4,
            Creature::Ranger => 5,
            Creature::Steward => 6,
            Creature::Barbarian => 7,
            Creature::Witch => 8,
            Creature::Mercenary => 9,
            Creature::Monarch => 10,
        }
    }

    /// The creature at position `i`; positions past the end give the last one.
    pub open spec fn at(i: int) -> Creature {
        if i <= 0 {
            Creature::Wall
        } else if i == 1 {
            Creature::Seer
        } else if i == 2 {
            Creature::Rogue
        } else if i == 3 {
            Creature::Bard
        } else if i == 4 {
            Creature::Diplomat
        } else if i == 5 {
            Creature::Ranger
        } else if i == 6 {
            Creature::Steward
        } else if i == 7 {
            Creature::Barbarian
        } else if i == 8 {
            Creature::Witch
        } else if i == 9 {
            Creature::Mercenary
        } else {
            Creature::Monarch
        }
    }

    /// The position of the creature in the list of all creatures.
    #[verifier::when_used_as_spec(position)]
    pub fn index(self) -> (r: u8)
        ensures
            r == self.position(),
            r < CREATURE_COUNT,
    {
        match self {
            Creature::Wall => 0,
            Creature::Seer => 1,
            Creature::Rogue => 2,
            Creature::Bard => 3,
            Creature::Diplomat => 4,
            Creature::Ranger => 5,
            Creature::Steward => 6,
            Creature::Barbarian => 7,
            Creature::Witch => 8,
            Creature::Mercenary => 9,
            Creature::Monarch => 10,
        }
    }

    /// The creature at position `i`, if there is one.
    pub fn from_index(i: u8) -> (r: Option<Creature>)
        ensures
            r is Some <==> i < CREATURE_COUNT,
            r matches Some(c) ==> c == Creature::at(i as int) && c.position() == i,
    {
        match i {
            0 => Some(Creature::Wall),
            1 => Some(Creature::Seer),
            2 => Some(Creature::Rogue),
            3 => Some(Creature::Bard),
            4 => Some(Creature::Diplomat),
            5 => Some(Creature::Ranger),
            6 => Some(Creature::Steward),
            7 => Some(Creature::Barbarian),
            8 => Some(Creature::Witch),
            9 => Some(Creature::Mercenary),
            10 => Some(Creature::Monarch),
            _ => None,
        }
    }

    /// The strength a creature fights with before anything modifies it.
    pub fn strength(self) -> (r: u8)
        ensures
            r == self.base_strength(),
    {
        match self {
            Creature::Wall => 0,
            Creature::Seer => 0,
            Creature::Rogue => 1,
            Creature::Bard => 2,
            Creature::Diplomat => 2,
            Creature::Ranger => 2,
            Creature::Steward => 2,
            Creature::Barbarian => 3,
            Creature::Witch => 3,
            Creature::Mercenary => 4,
            Creature::Monarch => 6,
        }
    }

    /// The strength a creature fights with before anything modifies it.
    pub open spec fn base_strength(self) -> u8 {
        match self {
            Creature::Wall => 0,
            Creature::Seer => 0,
            Creature::Rogue => 1,
            Creature::Bard => 2,
            Creature::Diplomat => 2,
            Creature::Ranger => 2,
            Creature::Steward => 2,
            Creature::Barbarian => 3,
            Creature::Witch => 3,
            Creature::Mercenary => 4,
            Creature::Monarch => 6,
        }
    }

    /// A position names the creature that stands at it.
    pub proof fn lemma_at_roundtrip(i: int)
        requires
            0 <= i < CREATURE_COUNT,
        ensures
            Creature::at(i).position() == i,
    {
    }
}

/// A set of creatures, such as a hand or the graveyard.
///
/// Only the positions of creatures count: two sets with the same members
/// behave alike in every operation.
#[derive(Clone, Copy, Debug, PartialEq, Eq, Hash, Structural)]
pub struct CreatureSet(pub Bitfield);

impl View for CreatureSet {
    type V = Set<Creature>;

    /// The creatures in the set.
    open spec fn view(&self) -> Set<Creature> {
        Set::new(|c: Creature| self.contains(c))
    }
}

impl Default for CreatureSet {
    /// The set without creatures.
    fn default() -> (r: CreatureSet)
        ensures
            r == CreatureSet::none(),
            forall|c: Creature| !r.contains(c),
            r.count() == 0,
    {
        CreatureSet(Bitfield::empty())
    }
}

impl CreatureSet {
    /// Whether `c` is in the set.
    pub open spec fn contains(self, c: Creature) -> bool {
        self.0.contains(c.position() as int)
    }

    /// The number of creatures in the set.
    pub open spec fn count(self) -> int {
        self.0.count_below(CREATURE_COUNT as int)
    }

    /// The number of members that come before `c` in the list of creatures.
    pub open spec fn rank(self, c: Creature) -> int {
        self.0.count_below(c.position() as int)
    }

    /// The number of members that come after `c` in the list of creatures.
    pub open spec fn rank_from_end(self, c: Creature) -> int {
        self.0.count_above(c.position() as int, CREATURE_COUNT as int)
    }

    /// The member with `k` members before it.
    pub open spec fn nth(self, k: int) -> Creature {
        Creature::at(self.0.nth(k, CREATURE_COUNT as int))
    }

    /// The member with `k` members after it.
    pub open spec fn nth_from_end(self, k: int) -> Creature {
        Creature::at(self.0.nth_from_end(k, CREATURE_COUNT as int))
    }

    /// The set without members.
    pub open spec fn none() -> CreatureSet {
        CreatureSet(Bitfield::none())
    }

    /// The set of all creatures.
    pub open spec fn full() -> CreatureSet {
        CreatureSet(Bitfield::below(CREATURE_COUNT as int))
    }

    /// The set with `c` put in.
    pub open spec fn inserted(self, c: Creature) -> CreatureSet {
        CreatureSet(self.0.inserted(c.position() as int))
    }

    /// The set with `c` taken out.
    pub open spec fn removed(self, c: Creature) -> CreatureSet {
        CreatureSet(self.0.removed(c.position() as int))
    }

    /// The members of either set.
    pub open spec fn united(self, other: CreatureSet) -> CreatureSet {
        CreatureSet(self.0.united(other.0))
    }

    /// The creatures that are not members.
    pub open spec fn complemented(self) -> CreatureSet {
        CreatureSet(self.0.complemented(CREATURE_COUNT as int))
    }

    /// What `inserted` holds.
    pub proof fn lemma_inserted(self, x: Creature)
        ensures
            forall|c: Creature|
                #![trigger self.inserted(x).contains(c)]
                self.inserted(x).contains(c) == (c == x || self.contains(c)),
            self.inserted(x)@ == self@.insert(x),
    {
        self.0.lemma_inserted(x.position() as int);
        assert(self.inserted(x)@ =~= self@.insert(x));
    }

    /// What `removed` holds.
    pub proof fn lemma_removed(self, x: Creature)
        ensures
            forall|c: Creature|
                #![trigger self.removed(x).contains(c)]
                self.removed(x).contains(c) == (c != x && self.contains(c)),
            self.removed(x)@ == self@.remove(x),
            self.removed(x).count() == self.count() - if self.contains(x) {
                1int
            } else {
                0int
            },
            forall|c: Creature|
                self.removed(x).rank(c) == self.rank(c) - if self.contains(x) && x.position()
                    < c.position() {
                    1int
                } else {
                    0int
                },
    {
        self.0.lemma_removed(x.position() as int);
        assert(self.removed(x)@ =~= self@.remove(x));
    }

    /// What `complemented` holds.
    pub proof fn lemma_complemented(self)
        ensures
            forall|c: Creature|
                #![trigger self.complemented().contains(c)]
                self.complemented().contains(c) == !self.contains(c),
            self.complemented().count() == CREATURE_COUNT - self.count(),
    {
        self.0.lemma_complemented(11);
    }

    /// The set whose members are the creatures at the positions of the bits
    /// set in `bits`.
    pub fn new(bits: u16) -> (r: CreatureSet)
        ensures
            r.0.0 == bits,
    {
        CreatureSet(Bitfield::new(bits))
    }

    /// The set of all creatures.
    pub fn all() -> (r: CreatureSet)
        ensures
            r == CreatureSet::full(),
            forall|c: Creature| r.contains(c),
            r.count() == CREATURE_COUNT,
    {
        CreatureSet(Bitfield::full(CREATURE_COUNT))
    }

    /// Whether `creature` is in the set.
    pub fn has(self, creature: Creature) -> (r: bool)
        ensures
            r == self.contains(creature),
    {
        self.0.has(creature.index())
    }

    /// Puts `creature` into the set.
    pub fn add(&mut self, creature: Creature)
        ensures
            *final(self) == old(self).inserted(creature),
            forall|c: Creature|
                #![trigger final(self).contains(c)]
                final(self).contains(c) == (c == creature || old(self).contains(c)),
            final(self)@ == old(self)@.insert(creature),
    {
        proof {
            self.lemma_inserted(creature);
        }
        self.0.add(creature.index());
    }

    /// Takes `creature` out of the set.
    pub fn remove(&mut self, creature: Creature)
        ensures
            *final(self) == old(self).removed(creature),
            forall|c: Creature|
                #![trigger final(self).contains(c)]
                final(self).contains(c) == (c != creature && old(self).contains(c)),
            final(self)@ == old(self)@.remove(creature),
            final(self).count() == old(self).count() - if old(self).contains(creature) {
                1int
            } else {
                0int
            },
    {
        proof {
            self.lemma_removed(creature);
        }
        self.0.remove(creature.index());
    }

    /// The members of either set.
    pub fn union(self, other: CreatureSet) -> (r: CreatureSet)
        ensures
            r == self.united(other),
            forall|c: Creature|
                #![trigger r.contains(c)]
                r.contains(c) == (self.contains(c) || other.contains(c)),
            r@ == self@.union(other@),
    {
        proof {
            self.0.lemma_united(other.0);
            assert(self.united(other)@ =~= self@.union(other@));
        }
        CreatureSet(self.0.union(other.0))
    }

    /// The number of creatures in the set.
    pub fn len(self) -> (r: u8)
        ensures
            r == self.count(),
            r == self@.len(),
            r <= CREATURE_COUNT,
    {
        proof {
            self.0.lemma_count_nonnegative(11);
            self.lemma_count_is_len();
        }
        self.0.count(CREATURE_COUNT)
    }

    /// The creatures that are not in the set.
    pub fn others(self) -> (r: CreatureSet)
        ensures
            r == self.complemented(),
            forall|c: Creature| r.contains(c) == !self.contains(c),
            r.count() == CREATURE_COUNT - self.count(),
    {
        CreatureSet(self.0.complement(CREATURE_COUNT))
    }

    /// The set without `creature`.
    pub fn without(self, creature: Creature) -> (r: CreatureSet)
        ensures
            r == self.removed(creature),
            forall|c: Creature| r.contains(c) == (c != creature && self.contains(c)),
            r.count() == self.count() - if self.contains(creature) {
                1int
            } else {
                0int
            },
    {
        let mut r = self;
        r.remove(creature);
        r
    }

    /// The number of members before `creature`, if it is a member.
    pub fn indexof(self, creature: Creature) -> (r: Option<usize>)
        ensures
            r is Some <==> self.contains(creature),
            r matches Some(k) ==> k == self.rank(creature) && k < self.count() <= CREATURE_COUNT,
    {
        proof {
            self.0.lemma_count_nonnegative(11);
            if self.contains(creature) {
                self.lemma_nth_of_rank(creature);
            }
        }
        self.0.indexof(creature.index())
    }

    /// The member with `k` members before it, if there are that many.
    pub fn index(self, k: usize) -> (r: Option<Creature>)
        ensures
            r is Some <==> k < self.count(),
            r matches Some(c) ==> c == self.nth(k as int) && self.contains(c) && self.rank(c) == k,
    {
        match self.0.index(k, CREATURE_COUNT) {
            Some(p) => {
                proof {
                    self.lemma_rank_of_nth(k as int);
                }
                Creature::from_index(p)
            },
            None => None,
        }
    }

    /// The number of members after `creature`, whether or not it is one
    /// itself.
    pub fn count_from_end(self, creature: Creature) -> (r: CreatureIndex)
        ensures
            r.0 == self.rank_from_end(creature),
    {
        CreatureIndex(self.0.count_from_end(creature.index(), CREATURE_COUNT))
    }

    /// The member with `index` members after it, if there are that many.
    pub fn lookup_from_end(self, index: CreatureIndex) -> (r: Option<Creature>)
        ensures
            r is Some <==> index.0 < self.count(),
            r matches Some(c) ==> c == self.nth_from_end(index.0 as int) && self.contains(c)
                && self.rank_from_end(c) == index.0,
    {
        match self.0.lookup_from_end(index.0, CREATURE_COUNT) {
            Some(p) => {
                proof {
                    self.lemma_rank_of_nth_from_end(index.0 as int);
                }
                Creature::from_index(p)
            },
            None => None,
        }
    }

    /// The members at positions below `n`.
    pub open spec fn members_below(self, n: int) -> Set<Creature> {
        Set::new(|c: Creature| c.position() < n && self.contains(c))
    }

    /// Counting members position by position counts the members at the
    /// positions passed.
    proof fn lemma_members_below(self, n: int)
        requires
            0 <= n <= 11,
        ensures
            self.members_below(n).finite(),
            self.members_below(n).len() == self.0.count_below(n),
        decreases n,
    {
        if n == 0 {
            assert(self.members_below(0) =~= Set::empty());
        } else {
            self.lemma_members_below(n - 1);
            Creature::lemma_at_roundtrip(n - 1);
            if self.0.contains(n - 1) {
                assert(self.members_below(n) =~= self.members_below(n - 1).insert(
                    Creature::at(n - 1),
                ));
            } else {
                assert(self.members_below(n) =~= self.members_below(n - 1));
            }
        }
    }

    /// The count is the number of elements of the view.
    pub proof fn lemma_count_is_len(self)
        ensures
            self@.finite(),
            self@.len() == self.count(),
    {
        self.lemma_members_below(11);
        assert(self.members_below(11) =~= self@);
    }

    /// A member's rank is below the member count, and `nth` finds the
    /// member again from its rank.
    pub proof fn lemma_nth_of_rank(self, c: Creature)
        requires
            self.contains(c),
        ensures
            0 <= self.rank(c) < self.count(),
            self.nth(self.rank(c)) == c,
    {
        self.0.lemma_rank_below_count(c.position() as int, 11);
        self.0.lemma_nth_of_rank(c.position() as int, 11);
    }

    /// Every rank below the member count belongs to a member, and `nth`
    /// names it.
    pub proof fn lemma_rank_of_nth(self, k: int)
        requires
            0 <= k < self.count(),
        ensures
            self.contains(self.nth(k)),
            self.rank(self.nth(k)) == k,
            self.nth(k).position() == self.0.nth(k, 11),
    {
        self.0.lemma_rank_of_nth(k, 11);
    }

    /// Counted from the end, a member's rank is below the member count, and
    /// `nth_from_end` finds the member again from it.
    pub proof fn lemma_nth_of_rank_from_end(self, c: Creature)
        requires
            self.contains(c),
        ensures
            0 <= self.rank_from_end(c) < self.count(),
            self.rank_from_end(c) == self.count() - 1 - self.rank(c),
            self.nth_from_end(self.rank_from_end(c)) == c,
    {
        self.lemma_nth_of_rank(c);
    }

    /// Counted from the end, every rank below the member count belongs to a
    /// member, and `nth_from_end` names it.
    pub proof fn lemma_rank_of_nth_from_end(self, k: int)
        requires
            0 <= k < self.count(),
        ensures
            self.contains(self.nth_from_end(k)),
            self.rank_from_end(self.nth_from_end(k)) == k,
            self.nth_from_end(k).position() == self.0.nth_from_end(k, 11),
    {
        self.lemma_rank_of_nth(self.count() - 1 - k);
    }
}

/// The place of a creature among the members of a set, counted from the end.
#[derive(Clone, Copy, Debug, PartialEq, Eq, PartialOrd, Ord, Hash, Structural)]
pub struct CreatureIndex(pub u8);

/// The creature or the two creatures a player puts down, as one number.
#[derive(Clone, Copy, Debug, PartialEq, Eq, PartialOrd, Ord, Hash, Structural)]
pub struct CreatureChoice(pub u8);

impl CreatureChoice {
    /// The choice of the single creature at `index`.
    pub fn encode_one(index: CreatureIndex) -> (r: CreatureChoice)
        ensures
            r.0 == index.0,
    {
        CreatureChoice(index.0)
    }

    /// The single creature this choice stands for.
    pub fn decode_one(self) -> (r: CreatureIndex)
        ensures
            r.0 == self.0,
    {
        CreatureIndex(self.0)
    }

    /// The choice of the two creatures at `first` and `second`, in either
    /// order. There is none if the two are the same, or if the pair's
    /// number does not fit in a byte.
    pub fn encode_two(first: CreatureIndex, second: CreatureIndex) -> (r: Option<CreatureChoice>)
        ensures
            r is Some <==> first.0 != second.0 && Self::two_code(first.0 as int, second.0 as int)
                <= u8::MAX,
            r matches Some(choice) ==> choice.0 == Self::two_code(first.0 as int, second.0 as int),
    {
        match encode_upair(first.0, second.0) {
            Some(code) => Some(CreatureChoice(code)),
            None => None,
        }
    }

    /// The two creatures this choice stands for, the smaller index first.
    pub fn decode_two(self) -> (r: (CreatureIndex, CreatureIndex))
        ensures
            r.0.0 < r.1.0,
            Self::two_code(r.0.0 as int, r.1.0 as int) == self.0,
            (r.0.0 as int, r.1.0 as int) == pair_of(self.0 as int),
    {
        let (low, high) = decode_upair(self.0);
        (CreatureIndex(low), CreatureIndex(high))
    }

    /// The number of the unordered pair `{a, b}`.
    pub open spec fn two_code(a: int, b: int) -> int {
        if a < b {
            pair_code(a, b)
        } else {
            pair_code(b, a)
        }
    }
}

} // verus!
