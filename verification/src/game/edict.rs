//! Edicts and sets of edicts.

use crate::helpers::bitfield::Bitfield;
use vstd::prelude::*;

verus! {

/// The orders a player gives along with a creature. Every player starts
/// with one of each.
#[derive(Clone, Copy, Debug, PartialEq, Eq, PartialOrd, Ord, Hash, Structural)]
pub enum Edict {
    Sabotage,
    Gambit,
    Ambush,
    RileThePublic,
    DivertAttention,
}

/// How many edicts there are.
pub const EDICT_COUNT: u8 = 5;

impl Edict {
    /// Every edict, in the order of their positions.
    pub const EDICTS: [Edict; 5] = [
        Edict::Sabotage,
        Edict::Gambit,
        Edict::Ambush,
        Edict::RileThePublic,
        Edict::DivertAttention,
    ];

    /// The position of the edict in the list of all edicts.
    pub open spec fn position(self) -> u8 {
        match self {
            Edict::Sabotage => 0,
            Edict::Gambit => 1,
            Edict::Ambush => 2,
            Edict::RileThePublic => 3,
            Edict::DivertAttention => 4,
        }
    }

    /// The edict at position `i`; positions past the end give the last one.
    pub open spec fn at(i: int) -> Edict {
        if i <= 0 {
            Edict::Sabotage
        } else if i == 1 {
            Edict::Gambit
        } else if i == 2 {
            Edict::Ambush
        } else if i == 3 {
            Edict::RileThePublic
        } else {
            Edict::DivertAttention
        }
    }

    /// The position of the edict in the list of all edicts.
    #[verifier::when_used_as_spec(position)]
    pub fn index(self) -> (r: u8)
        ensures
            r == self.position(),
            r < EDICT_COUNT,
    {
        match self {
            Edict::Sabotage => 0,
            Edict::Gambit => 1,
            Edict::Ambush => 2,
            Edict::RileThePublic => 3,
            Edict::DivertAttention => 4,
        }
    }

    /// A position names the edict that stands at it.
    pub proof fn lemma_at_roundtrip(i: int)
        requires
            0 <= i < EDICT_COUNT,
        ensures
            Edict::at(i).position() == i,
    {
    }

    /// The edict at position `i`, if there is one.
    pub fn from_index(i: u8) -> (r: Option<Edict>)
        ensures
            r is Some <==> i < EDICT_COUNT,
            r matches Some(e) ==> e == Edict::at(i as int) && e.position() == i,
    {
        match i {
            0 => Some(Edict::Sabotage),
            1 => Some(Edict::Gambit),
            2 => Some(Edict::Ambush),
            3 => Some(Edict::RileThePublic),
            4 => Some(Edict::DivertAttention),
            _ => None,
        }
    }
}

/// The edicts a player still holds.
///
/// Only the positions of edicts count: two sets with the same members behave
/// alike in every operation.
#[derive(Clone, Copy, Debug, PartialEq, Eq, Hash, Structural)]
pub struct EdictSet(pub Bitfield);

impl View for EdictSet {
    type V = Set<Edict>;

    /// The edicts in the set.
    open spec fn view(&self) -> Set<Edict> {
        Set::new(|e: Edict| self.contains(e))
    }
}

impl Default for EdictSet {
    /// A full hand of edicts.
    fn default() -> (r: EdictSet)
        ensures
            r == EdictSet::full(),
            forall|e: Edict| r.contains(e),
            r.count() == EDICT_COUNT,
    {
        EdictSet::all()
    }
}

impl EdictSet {
    /// Whether `e` is in the set.
    pub open spec fn contains(self, e: Edict) -> bool {
        self.0.contains(e.position() as int)
    }

    /// The number of edicts in the set.
    pub open spec fn count(self) -> int {
        self.0.count_below(EDICT_COUNT as int)
    }

    /// The number of members that come before `e` in the list of edicts.
    pub open spec fn rank(self, e: Edict) -> int {
        self.0.count_below(e.position() as int)
    }

    /// The number of members that come after `e` in the list of edicts.
    pub open spec fn rank_from_end(self, e: Edict) -> int {
        self.0.count_above(e.position() as int, EDICT_COUNT as int)
    }

    /// The member with `k` members before it.
    pub open spec fn nth(self, k: int) -> Edict {
        Edict::at(self.0.nth(k, EDICT_COUNT as int))
    }

    /// The member with `k` members after it.
    pub open spec fn nth_from_end(self, k: int) -> Edict {
        Edict::at(self.0.nth_from_end(k, EDICT_COUNT as int))
    }

    /// The set without members.
    pub open spec fn none() -> EdictSet {
        EdictSet(Bitfield::none())
    }

    /// The set of all edicts.
    pub open spec fn full() -> EdictSet {
        EdictSet(Bitfield::below(EDICT_COUNT as int))
    }

    /// The set with `e` put in.
    pub open spec fn inserted(self, e: Edict) -> EdictSet {
        EdictSet(self.0.inserted(e.position() as int))
    }

    /// The set with `e` taken out.
    pub open spec fn removed(self, e: Edict) -> EdictSet {
        EdictSet(self.0.removed(e.position() as int))
    }

    /// The members of either set.
    pub open spec fn united(self, other: EdictSet) -> EdictSet {
        EdictSet(self.0.united(other.0))
    }

    /// The edicts that are not members.
    pub open spec fn complemented(self) -> EdictSet {
        EdictSet(self.0.complemented(EDICT_COUNT as int))
    }

    /// What `inserted` holds.
    pub proof fn lemma_inserted(self, x: Edict)
        ensures
            forall|e: Edict|
                #![trigger self.inserted(x).contains(e)]
                self.inserted(x).contains(e) == (e == x || self.contains(e)),
            self.inserted(x)@ == self@.insert(x),
    {
        self.0.lemma_inserted(x.position() as int);
        assert(self.inserted(x)@ =~= self@.insert(x));
    }

    /// What `removed` holds.
    pub proof fn lemma_removed(self, x: Edict)
        ensures
            forall|e: Edict|
                #![trigger self.removed(x).contains(e)]
                self.removed(x).contains(e) == (e != x && self.contains(e)),
            self.removed(x)@ == self@.remove(x),
            self.removed(x).count() == self.count() - if self.contains(x) {
                1int
            } else {
                0int
            },
            forall|e: Edict|
                self.removed(x).rank(e) == self.rank(e) - if self.contains(x) && x.position()
                    < e.position() {
                    1int
                } else {
                    0int
                },
    {
        self.0.lemma_removed(x.position() as int);
        assert(self.removed(x)@ =~= self@.remove(x));
    }

    /// What `complemented` holds.
    pub proof fn lemma_complemented(self)
        ensures
            forall|e: Edict|
                #![trigger self.complemented().contains(e)]
                self.complemented().contains(e) == !self.contains(e),
            self.complemented().count() == EDICT_COUNT - self.count(),
    {
        self.0.lemma_complemented(5);
    }

    /// The set whose members are the edicts at the positions of the bits set
    /// in `bits`.
    pub fn new(bits: u16) -> (r: EdictSet)
        ensures
            r.0.0 == bits,
    {
        EdictSet(Bitfield::new(bits))
    }

    /// The set of all edicts.
    pub fn all() -> (r: EdictSet)
        ensures
            r == EdictSet::full(),
            forall|e: Edict| r.contains(e),
            r.count() == EDICT_COUNT,
    {
        EdictSet(Bitfield::full(EDICT_COUNT))
    }

    /// Whether `edict` is in the set.
    pub fn has(self, edict: Edict) -> (r: bool)
        ensures
            r == self.contains(edict),
    {
        self.0.has(edict.index())
    }

    /// Puts `edict` into the set.
    pub fn add(&mut self, edict: Edict)
        ensures
            *final(self) == old(self).inserted(edict),
            forall|e: Edict|
                #![trigger final(self).contains(e)]
                final(self).contains(e) == (e == edict || old(self).contains(e)),
            final(self)@ == old(self)@.insert(edict),
    {
        proof {
            self.lemma_inserted(edict);
        }
        self.0.add(edict.index());
    }

    /// Takes `edict` out of the set.
    pub fn remove(&mut self, edict: Edict)
        ensures
            *final(self) == old(self).removed(edict),
            forall|e: Edict|
                #![trigger final(self).contains(e)]
                final(self).contains(e) == (e != edict && old(self).contains(e)),
            final(self)@ == old(self)@.remove(edict),
            final(self).count() == old(self).count() - if old(self).contains(edict) {
                1int
            } else {
                0int
            },
    {
        proof {
            self.lemma_removed(edict);
        }
        self.0.remove(edict.index());
    }

    /// The members of either set.
    pub fn union(self, other: EdictSet) -> (r: EdictSet)
        ensures
            r == self.united(other),
            forall|e: Edict|
                #![trigger r.contains(e)]
                r.contains(e) == (self.contains(e) || other.contains(e)),
            r@ == self@.union(other@),
    {
        proof {
            self.0.lemma_united(other.0);
            assert(self.united(other)@ =~= self@.union(other@));
        }
        EdictSet(self.0.union(other.0))
    }

    /// The number of edicts in the set.
    pub fn len(self) -> (r: u8)
        ensures
            r == self.count(),
            r == self@.len(),
            r <= EDICT_COUNT,
    {
        proof {
            self.0.lemma_count_nonnegative(5);
            self.lemma_count_is_len();
        }
        self.0.count(EDICT_COUNT)
    }

    /// The number of members before `edict`, if it is a member.
    pub fn indexof(self, edict: Edict) -> (r: Option<usize>)
        ensures
            r is Some <==> self.contains(edict),
            r matches Some(k) ==> k == self.rank(edict) && k < self.count() <= EDICT_COUNT,
    {
        proof {
            self.0.lemma_count_nonnegative(5);
            if self.contains(edict) {
                self.lemma_nth_of_rank(edict);
            }
        }
        self.0.indexof(edict.index())
    }

    /// The member with `k` members before it, if there are that many.
    pub fn index(self, k: usize) -> (r: Option<Edict>)
        ensures
            r is Some <==> k < self.count(),
            r matches Some(e) ==> e == self.nth(k as int) && self.contains(e) && self.rank(e) == k,
    {
        match self.0.index(k, EDICT_COUNT) {
            Some(p) => {
                proof {
                    self.lemma_rank_of_nth(k as int);
                }
                Edict::from_index(p)
            },
            None => None,
        }
    }

    /// The number of members after `edict`, whether or not it is one itself.
    pub fn count_from_end(self, edict: Edict) -> (r: EdictIndex)
        ensures
            r.0 == self.rank_from_end(edict),
    {
        EdictIndex(self.0.count_from_end(edict.index(), EDICT_COUNT))
    }

    /// The member with `index` members after it, if there are that many.
    pub fn lookup_from_end(self, index: EdictIndex) -> (r: Option<Edict>)
        ensures
            r is Some <==> index.0 < self.count(),
            r matches Some(e) ==> e == self.nth_from_end(index.0 as int) && self.contains(e)
                && self.rank_from_end(e) == index.0,
    {
        match self.0.lookup_from_end(index.0, EDICT_COUNT) {
            Some(p) => {
                proof {
                    self.lemma_rank_of_nth_from_end(index.0 as int);
                }
                Edict::from_index(p)
            },
            None => None,
        }
    }

    /// The members at positions below `n`.
    pub open spec fn members_below(self, n: int) -> Set<Edict> {
        Set::new(|e: Edict| e.position() < n && self.contains(e))
    }

    /// Counting members position by position counts the members at the
    /// positions passed.
    proof fn lemma_members_below(self, n: int)
        requires
            0 <= n <= 5,
        ensures
            self.members_below(n).finite(),
            self.members_below(n).len() == self.0.count_below(n),
        decreases n,
    {
        if n == 0 {
            assert(self.members_below(0) =~= Set::empty());
        } else {
            self.lemma_members_below(n - 1);
            Edict::lemma_at_roundtrip(n - 1);
            if self.0.contains(n - 1) {
                assert(self.members_below(n) =~= self.members_below(n - 1).insert(
                    Edict::at(n - 1),
                ));
            } else {
                assert(self.members_below(n) =~= self.members_below(n - 1));
            }
        }
    }

    /// The count is the number of elements of the view.
    pub proof fn lemma_count_is_len(self)
        ensures
            self@.finite(),
            self@.len() == self.count(),
    {
        self.lemma_members_below(5);
        assert(self.members_below(5) =~= self@);
    }

    /// A member's rank is below the member count, and `nth` finds the
    /// member again from its rank.
    pub proof fn lemma_nth_of_rank(self, e: Edict)
        requires
            self.contains(e),
        ensures
            0 <= self.rank(e) < self.count(),
            self.nth(self.rank(e)) == e,
    {
        self.0.lemma_rank_below_count(e.position() as int, 5);
        self.0.lemma_nth_of_rank(e.position() as int, 5);
    }

    /// Every rank below the member count belongs to a member, and `nth`
    /// names it.
    pub proof fn lemma_rank_of_nth(self, k: int)
        requires
            0 <= k < self.count(),
        ensures
            self.contains(self.nth(k)),
            self.rank(self.nth(k)) == k,
            self.nth(k).position() == self.0.nth(k, 5),
    {
        self.0.lemma_rank_of_nth(k, 5);
    }

    /// Counted from the end, a member's rank is below the member count, and
    /// `nth_from_end` finds the member again from it.
    pub proof fn lemma_nth_of_rank_from_end(self, e: Edict)
        requires
            self.contains(e),
        ensures
            0 <= self.rank_from_end(e) < self.count(),
            self.rank_from_end(e) == self.count() - 1 - self.rank(e),
            self.nth_from_end(self.rank_from_end(e)) == e,
    {
        self.lemma_nth_of_rank(e);
    }

    /// Counted from the end, every rank below the member count belongs to a
    /// member, and `nth_from_end` names it.
    pub proof fn lemma_rank_of_nth_from_end(self, k: int)
        requires
            0 <= k < self.count(),
        ensures
            self.contains(self.nth_from_end(k)),
            self.rank_from_end(self.nth_from_end(k)) == k,
            self.nth_from_end(k).position() == self.0.nth_from_end(k, 5),
    {
        self.lemma_rank_of_nth(self.count() - 1 - k);
    }
}

/// The place of an edict among the members of a set, counted from the end.
#[derive(Clone, Copy, Debug, PartialEq, Eq, PartialOrd, Ord, Hash, Structural)]
pub struct EdictIndex(pub u8);

} // verus!
