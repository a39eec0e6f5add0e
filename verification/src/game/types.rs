//! The two players and the score between them.

use vstd::prelude::*;

verus! {

/// A value for each player: first `Me`, then `You`.
pub type Pair<T> = (T, T);

/// One of the two sides of the table.
#[derive(Clone, Copy, Debug, PartialEq, Eq, Hash, Structural)]
pub enum Player {
    Me,
    You,
}

impl Player {
    /// Both players, in the order in which pairs hold their values.
    pub const PLAYERS: [Player; 2] = [Player::Me, Player::You];

    /// The other player.
    pub open spec fn opponent(self) -> Player {
        match self {
            Player::Me => Player::You,
            Player::You => Player::Me,
        }
    }

    /// This player's half of `pair`.
    pub open spec fn pick<T>(self, pair: Pair<T>) -> T {
        match self {
            Player::Me => pair.0,
            Player::You => pair.1,
        }
    }

    /// The other player.
    pub fn not(self) -> (r: Player)
        ensures
            r == self.opponent(),
    {
        match self {
            Player::Me => Player::You,
            Player::You => Player::Me,
        }
    }

    /// This player's half of `pair`.
    pub fn select<T: Copy>(self, pair: Pair<T>) -> (r: T)
        ensures
            r == self.pick(pair),
    {
        match self {
            Player::Me => pair.0,
            Player::You => pair.1,
        }
    }

    /// Overwrites this player's half of `pair`.
    pub fn set_selection<T>(self, pair: &mut Pair<T>, value: T)
        ensures
            self.pick(*final(pair)) == value,
            self.opponent().pick(*final(pair)) == self.opponent().pick(*old(pair)),
    {
        match self {
            Player::Me => {
                pair.0 = value;
            },
            Player::You => {
                pair.1 = value;
            },
        }
    }
}

/// Victory points, counted from the point of view of `Player::Me`: what
/// `Me` has won counts up, what `You` has won counts down.
#[derive(Clone, Copy, Debug, PartialEq, Eq, PartialOrd, Ord, Hash, Structural)]
pub struct Score(pub i8);

impl Default for Score {
    /// An even score.
    fn default() -> (r: Score)
        ensures
            r.0 == 0,
    {
        Score(0)
    }
}

} // verus!
