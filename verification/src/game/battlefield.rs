//! The places where battles are fought.

use crate::game::creature::Creature;
use vstd::prelude::*;

verus! {

/// A place where one battle is fought.
#[derive(Clone, Copy, Debug, PartialEq, Eq, PartialOrd, Ord, Hash, Structural)]
pub enum Battlefield {
    Mountain,
    Glade,
    Urban,
    LastStrand,
    Night,
    Plains,
}

impl Battlefield {
    /// The victory points the winner of a battle here gets.
    pub open spec fn spec_reward(self) -> u8 {
        match self {
            Battlefield::LastStrand => 5,
            _ => 3,
        }
    }

    /// Whether `creature` fights better here.
    pub open spec fn spec_bonus(self, creature: Creature) -> bool {
        match self {
            Battlefield::Mountain => creature == Creature::Ranger || creature
                == Creature::Barbarian || creature == Creature::Mercenary,
            Battlefield::Glade => creature == Creature::Bard || creature == Creature::Ranger
                || creature == Creature::Witch,
            Battlefield::Urban => creature == Creature::Rogue || creature == Creature::Bard
                || creature == Creature::Diplomat || creature == Creature::Steward,
            Battlefield::Night => creature == Creature::Seer || creature == Creature::Rogue
                || creature == Creature::Ranger,
            Battlefield::LastStrand => false,
            Battlefield::Plains => false,
        }
    }

    /// The victory points the winner of a battle here gets.
    #[verifier::when_used_as_spec(spec_reward)]
    pub fn reward(self) -> (r: u8)
        ensures
            r == self.spec_reward(),
            3 <= r <= 5,
    {
        match self {
            Battlefield::LastStrand => 5,
            _ => 3,
        }
    }

    /// Whether `creature` fights better here.
    #[verifier::when_used_as_spec(spec_bonus)]
    pub fn bonus(self, creature: Creature) -> (r: bool)
        ensures
            r == self.spec_bonus(creature),
    {
        match self {
            Battlefield::Mountain => matches!(
                creature,
                Creature::Ranger | Creature::Barbarian | Creature::Mercenary
            ),
            Battlefield::Glade => matches!(
                creature,
                Creature::Bard | Creature::Ranger | Creature::Witch
            ),
            Battlefield::Urban => matches!(
                creature,
                Creature::Rogue | Creature::Bard | Creature::Diplomat | Creature::Steward
            ),
            Battlefield::Night => matches!(
                creature,
                Creature::Seer | Creature::Rogue | Creature::Ranger
            ),
            Battlefield::LastStrand => false,
            Battlefield::Plains => false,
        }
    }
}

/// The four battlefields of a game, in the order in which they are fought
/// over, and the one the game has come to.
#[derive(Clone, Copy, Debug, PartialEq, Eq)]
pub struct Battlefields {
    pub all: [Battlefield; 4],
    pub current: usize,
}

impl Battlefields {
    /// The cursor points at one of the four battlefields.
    pub open spec fn wf(self) -> bool {
        self.current < 4
    }

    /// The battlefield the game has come to.
    pub open spec fn spec_current(&self) -> Battlefield {
        self.all[self.current as int]
    }

    /// The battlefields with the cursor moved on by one.
    pub open spec fn advanced(self) -> Battlefields {
        Battlefields { all: self.all, current: (self.current + 1) as usize }
    }

    /// Whether `battlefield` is the current one or comes later.
    pub open spec fn spec_will_be_active(&self, battlefield: Battlefield) -> bool {
        exists|i: int| self.current <= i < 4 && self.all[i] == battlefield
    }

    /// The victory points of the battlefields from position `from` on.
    pub open spec fn rewards_from(self, from: int) -> int
        decreases 4 - from,
    {
        if from < 0 || from >= 4 {
            0
        } else {
            self.all[from].spec_reward() + self.rewards_from(from + 1)
        }
    }

    /// Four battlefields with the cursor on the first.
    pub fn new(all: [Battlefield; 4]) -> (r: Battlefields)
        ensures
            r.all == all,
            r.current == 0,
            r.wf(),
    {
        Battlefields { all, current: 0 }
    }

    /// The battlefield the game has come to.
    #[verifier::when_used_as_spec(spec_current)]
    pub fn current(&self) -> (r: Battlefield)
        requires
            self.wf(),
        ensures
            r == self.spec_current(),
    {
        self.all[self.current]
    }

    /// The battlefields as they stand after the current battle, if another
    /// battle follows.
    pub fn next(&self) -> (r: Option<Battlefields>)
        ensures
            r == if self.current < 3 {
                Some(self.advanced())
            } else {
                None
            },
    {
        if self.current < 3 {
            Some(Battlefields { all: self.all, current: self.current + 1 })
        } else {
            None
        }
    }

    /// The current battlefield and those that come later, in order.
    pub fn active(&self) -> (r: Vec<Battlefield>)
        ensures
            r@ == if self.current < 4 {
                self.all@.subrange(self.current as int, 4)
            } else {
                Seq::empty()
            },
    {
        let mut result: Vec<Battlefield> = Vec::new();
        let mut i: usize = self.current;
        while i < 4
            invariant
                self.current <= i,
                self.current < 4 ==> i <= 4,
                self.current < 4 ==> result@ == self.all@.subrange(self.current as int, i as int),
                self.current >= 4 ==> result@ == Seq::<Battlefield>::empty(),
            decreases 4 - i,
        {
            result.push(self.all[i]);
            i = i + 1;
            assert(result@ =~= self.all@.subrange(self.current as int, i as int));
        }
        result
    }

    /// Whether `battlefield` is the current one or comes later.
    #[verifier::when_used_as_spec(spec_will_be_active)]
    pub fn will_be_active(&self, battlefield: Battlefield) -> (r: bool)
        ensures
            r == self.spec_will_be_active(battlefield),
    {
        let mut i: usize = self.current;
        while i < 4
            invariant
                self.current <= i,
                forall|j: int| self.current <= j < i && j < 4 ==> self.all[j] != battlefield,
            decreases 4 - i,
        {
            if self.all[i] == battlefield {
                return true;
            }
            i = i + 1;
        }
        false
    }

    /// The victory points of the current battlefield and those that come
    /// later, taken together.
    pub fn active_reward(&self) -> (r: u8)
        ensures
            r == self.rewards_from(self.current as int),
            r <= 20,
    {
        if self.current >= 4 {
            return 0;
        }
        let mut total: u8 = 0;
        let mut i: usize = 4;
        while i > self.current
            invariant
                self.current <= i <= 4,
                total == self.rewards_from(i as int),
                total <= 5 * (4 - i),
            decreases i,
        {
            i = i - 1;
            total = total + self.all[i].reward();
        }
        total
    }
}

} // verus!
