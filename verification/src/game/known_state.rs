//! What both players know of the game at some point in time.

use crate::game::battlefield::{Battlefield, Battlefields};
use crate::game::creature::{Creature, CreatureSet};
use crate::game::edict::{Edict, EdictSet};
use crate::game::status_effect::{StatusEffect, StatusEffectSet};
use crate::game::types::{Pair, Player, Score};
use vstd::prelude::*;

verus! {

/// State of a player known by both players.
#[derive(Clone, Copy, Debug, PartialEq, Eq, Structural)]
pub struct KnownPlayerState {
    pub edicts: EdictSet,
    pub effects: StatusEffectSet,
}

impl KnownPlayerState {
    /// A player at the start of a game: every edict in hand, no effect.
    pub open spec fn starting() -> KnownPlayerState {
        KnownPlayerState { edicts: EdictSet::full(), effects: StatusEffectSet::none() }
    }
}

impl Default for KnownPlayerState {
    /// A player at the start of a game.
    fn default() -> (r: KnownPlayerState)
        ensures
            r == KnownPlayerState::starting(),
    {
        KnownPlayerState { edicts: EdictSet::default(), effects: StatusEffectSet::default() }
    }
}

/// How a turn leaves the game.
#[derive(Debug, PartialEq, Eq)]
pub enum TurnResult<T> {
    /// The last battle has been fought; this is the final score.
    Finished(Score),
    /// The game goes on from this state.
    Unfinished(T),
}

impl<T> TurnResult<T> {
    /// The state the game goes on from, if it goes on.
    pub fn get_unfinished(self) -> (r: Option<T>)
        ensures
            r == match self {
                TurnResult::Unfinished(state) => Some(state),
                TurnResult::Finished(_) => None,
            },
    {
        match self {
            TurnResult::Unfinished(state) => Some(state),
            TurnResult::Finished(_) => None,
        }
    }
}

/// State known by both players at some point in time.
#[derive(Clone, Copy, Debug, PartialEq, Eq)]
pub struct KnownState {
    pub player_states: Pair<KnownPlayerState>,
    pub battlefields: Battlefields,
    /// The creatures that have left the game for good.
    pub graveyard: CreatureSet,
    /// The score from the point of view of `Player::Me`.
    pub score: Score,
}

impl KnownState {
    /// The cursor points at one of the four battlefields.
    pub open spec fn wf(self) -> bool {
        self.battlefields.wf()
    }

    /// The score is one that play can have led to: no battle moves it by
    /// more than sixteen points.
    pub open spec fn within_play(self) -> bool {
        &&& self.wf()
        &&& -16 * self.battlefields.current <= self.score.0 <= 16 * self.battlefields.current
    }

    /// The state in which every game over `battlefields` starts.
    pub open spec fn starting(battlefields: [Battlefield; 4]) -> KnownState {
        KnownState {
            player_states: (KnownPlayerState::starting(), KnownPlayerState::starting()),
            battlefields: Battlefields { all: battlefields, current: 0 },
            graveyard: CreatureSet::none(),
            score: Score(0),
        }
    }

    /// Whether nothing tells the two players apart: no battle has been
    /// fought, both hold the same edicts under the same effects, and the
    /// score is even.
    pub open spec fn symmetrical(self) -> bool {
        &&& self.battlefields.current == 0
        &&& self.player_states.0 == self.player_states.1
        &&& self.score.0 == 0
    }

    /// The score as `player` sees it.
    pub open spec fn score_for(self, player: Player) -> int {
        match player {
            Player::Me => self.score.0 as int,
            Player::You => -(self.score.0 as int),
        }
    }

    /// The player who carries the seer's effect into the turn, `Me` before
    /// `You`.
    pub open spec fn spec_seer_player(self) -> Option<Player> {
        if self.player_states.0.effects.contains(StatusEffect::Seer) {
            Some(Player::Me)
        } else if self.player_states.1.effects.contains(StatusEffect::Seer) {
            Some(Player::You)
        } else {
            None
        }
    }

    /// How often the opponent of `player` can still profit from riling the
    /// public, at most: once for holding the edict, once for an urban
    /// battlefield to come, once for a steward that is still in play and
    /// once more if that steward could hand the edict back in time.
    pub open spec fn rile_usages(self, player: Player) -> int {
        let has_edict = player.opponent().pick(self.player_states).edicts.contains(
            Edict::RileThePublic,
        );
        let has_steward = !self.graveyard.contains(Creature::Steward);
        let has_urban = self.battlefields.spec_will_be_active(Battlefield::Urban);
        (if has_edict { 1int } else { 0int }) + (if has_urban { 1int } else { 0int }) + (
        if has_steward {
            if self.battlefields.current < 3 { 2int } else { 1int }
        } else {
            0int
        })
    }

    /// The most victory points the opponent of `player` can still gain.
    pub open spec fn max_opponent_gain(self, player: Player) -> int {
        let effects = player.opponent().pick(self.player_states).effects;
        let glade = effects.contains(StatusEffect::Glade) || self.battlefields.spec_will_be_active(
            Battlefield::Glade,
        );
        let night = effects.contains(StatusEffect::Night) || self.battlefields.spec_will_be_active(
            Battlefield::Night,
        );
        self.battlefields.rewards_from(self.battlefields.current as int) + self.rile_usages(player)
            + (if glade { 2int } else { 0int }) + (if night { 1int } else { 0int })
    }

    /// The creatures that have left the game for good.
    pub fn graveyard(&self) -> (r: CreatureSet)
        ensures
            r == self.graveyard,
    {
        self.graveyard
    }

    /// The player who carries the seer's effect into the turn, `Me` before
    /// `You`.
    pub fn seer_player(&self) -> (r: Option<Player>)
        ensures
            r == self.spec_seer_player(),
    {
        if self.player_states.0.effects.has(StatusEffect::Seer) {
            Some(Player::Me)
        } else if self.player_states.1.effects.has(StatusEffect::Seer) {
            Some(Player::You)
        } else {
            None
        }
    }

    /// The edicts each player holds.
    pub fn edict_sets(&self) -> (r: Pair<EdictSet>)
        ensures
            r == (self.player_states.0.edicts, self.player_states.1.edicts),
    {
        (self.player_states.0.edicts, self.player_states.1.edicts)
    }

    /// The edicts `player` holds.
    pub fn player_edicts(&self, player: Player) -> (r: EdictSet)
        ensures
            r == player.pick(self.player_states).edicts,
    {
        player.select(self.player_states).edicts
    }

    /// The state in which every game over `battlefields` starts.
    pub fn new_starting(battlefields: [Battlefield; 4]) -> (r: KnownState)
        ensures
            r == KnownState::starting(battlefields),
            r.wf(),
            r.within_play(),
            r.symmetrical(),
    {
        KnownState {
            player_states: (KnownPlayerState::default(), KnownPlayerState::default()),
            graveyard: CreatureSet::default(),
            score: Score::default(),
            battlefields: Battlefields::new(battlefields),
        }
    }

    /// Returns whether the current known game state is symmetrical.
    /// A game state is symmetrical if whenever (A, B) is a possible
    /// combination of hidden information the two players might know,
    /// (B, A) is also such a possibility.
    ///
    /// The first turn is usually the only symmetrical game state.
    pub fn is_symmetrical(&self) -> (r: bool)
        ensures
            r == self.symmetrical(),
    {
        self.battlefields.current == 0 && self.player_states.0 == self.player_states.1
            && self.score.0 == 0
    }

    /// Returns the score from a given player's perspective.
    pub fn score(&self, player: Player) -> (r: Score)
        requires
            player == Player::You ==> self.score.0 > i8::MIN,
        ensures
            r.0 == self.score_for(player),
    {
        match player {
            Player::Me => self.score,
            Player::You => Score(-self.score.0),
        }
    }

    /// Computes whether a given player is guaranteed to win,
    /// no matter what the opponent can pull off.
    pub fn guaranteed_win(&self, player: Player) -> (r: bool)
        ensures
            r == (self.score_for(player) > self.max_opponent_gain(player)),
    {
        let opponent = player.not();
        let has_rtp = self.player_edicts(opponent).has(Edict::RileThePublic);
        let has_steward = !self.graveyard.has(Creature::Steward);
        let has_urban = self.battlefields.will_be_active(Battlefield::Urban);

        let mut rtp_usages: i16 = 0;

        if has_rtp {
            rtp_usages += 1;  // base usage
        }
        if has_urban {
            rtp_usages += 1;  // edict multiplier
        }
        if has_steward {
            rtp_usages += 1;  // edict multiplier

            if self.battlefields.current < 3 {
                rtp_usages += 1;  // the steward returns edicts to the hand
            }
        }
        let mut max_opponent_gain: i16 = self.battlefields.active_reward() as i16 + rtp_usages;

        // Battlefield victory point bonuses
        let effects = opponent.select(self.player_states).effects;

        if effects.has(StatusEffect::Glade) || self.battlefields.will_be_active(
            Battlefield::Glade,
        ) {
            max_opponent_gain += 2;
        }
        if effects.has(StatusEffect::Night) || self.battlefields.will_be_active(
            Battlefield::Night,
        ) {
            max_opponent_gain += 1;
        }
        let score: i16 = match player {
            Player::Me => self.score.0 as i16,
            Player::You => -(self.score.0 as i16),
        };

        score > max_opponent_gain
    }
}

} // verus!
