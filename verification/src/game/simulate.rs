//! The rules that resolve one battle and carry the game to the next turn.

use crate::game::battlefield::Battlefield;
use crate::game::choice::{FinalMainPhaseChoice, SabotagePhaseChoice};
use crate::game::creature::Creature;
use crate::game::edict::{Edict, EdictSet};
use crate::game::known_state::{KnownPlayerState, KnownState, TurnResult};
use crate::game::status_effect::{StatusEffect, StatusEffectSet};
use crate::game::types::{Player, Score};
use vstd::prelude::*;

verus! {

/// How a battle ends for one of the players.
#[derive(Clone, Copy, Debug, PartialEq, Eq, Structural)]
pub enum BattleResult {
    Lost,
    Tied,
    Won,
}

impl BattleResult {
    /// The same outcome as the other player sees it.
    pub open spec fn negated(self) -> BattleResult {
        match self {
            BattleResult::Lost => BattleResult::Won,
            BattleResult::Tied => BattleResult::Tied,
            BattleResult::Won => BattleResult::Lost,
        }
    }

    /// The same outcome as the other player sees it.
    #[verifier::when_used_as_spec(negated)]
    pub fn not(self) -> (r: BattleResult)
        ensures
            r == self.negated(),
    {
        match self {
            BattleResult::Lost => BattleResult::Won,
            BattleResult::Tied => BattleResult::Tied,
            BattleResult::Won => BattleResult::Lost,
        }
    }
}

/// Context required for resolving a battle.
#[derive(Clone, Copy, Debug, PartialEq, Eq)]
pub struct BattleContext {
    pub main_choices: (FinalMainPhaseChoice, FinalMainPhaseChoice),
    pub sabotage_choices: (SabotagePhaseChoice, SabotagePhaseChoice),
    pub state: KnownState,
}

impl BattleContext {
    // ----- The rules, as mathematics -----
    /// The creature `player` fights with.
    pub open spec fn spec_creature(&self, player: Player) -> Creature {
        player.pick(self.main_choices).creature
    }

    /// The edict `player` has played.
    pub open spec fn spec_edict(&self, player: Player) -> Edict {
        player.pick(self.main_choices).edict
    }

    /// The effects `player` carries into this battle.
    pub open spec fn spec_player_effects(&self, player: Player) -> StatusEffectSet {
        player.pick(self.state.player_states).effects
    }

    /// The battlefield this battle is fought on.
    pub open spec fn spec_battlefield(&self) -> Battlefield {
        self.state.battlefields.spec_current()
    }

    /// The creature of `player` loses its ability when it faces the witch,
    /// and the seer loses it when it faces the rogue.
    pub open spec fn spec_creature_is_negated(&self, player: Player) -> bool {
        let own = self.spec_creature(player);
        let other = self.spec_creature(player.opponent());
        other == Creature::Witch || (own == Creature::Seer && other == Creature::Rogue)
    }

    /// Whether `player` fights with `creature` and its ability holds.
    pub open spec fn spec_is_active_creature(&self, player: Player, creature: Creature) -> bool {
        creature == self.spec_creature(player) && !self.spec_creature_is_negated(player)
    }

    /// What the edict of `player` is multiplied by: one, one more on the
    /// urban battlefield, and one more with an active steward.
    pub open spec fn spec_edict_multiplier(&self, player: Player) -> int {
        1 + (if self.spec_battlefield() == Battlefield::Urban {
            1int
        } else {
            0int
        }) + (if self.spec_is_active_creature(player, Creature::Steward) {
            1int
        } else {
            0int
        })
    }

    /// Whether the creature of `player` fights better on this battlefield.
    pub open spec fn spec_battlefield_bonus(&self, player: Player) -> bool {
        self.spec_battlefield().spec_bonus(self.spec_creature(player))
    }

    /// What the creature's own ability adds to its strength.
    pub open spec fn creature_strength_bonus(&self, player: Player) -> int {
        let effects = self.spec_player_effects(player);
        let creature = self.spec_creature(player);
        if self.spec_creature_is_negated(player) {
            0
        } else if creature == Creature::Ranger && self.spec_battlefield_bonus(player)
            && !self.spec_battlefield_bonus(player.opponent()) {
            2
        } else if creature == Creature::Barbarian && effects.contains(StatusEffect::Barbarian) {
            2
        } else {
            0
        }
    }

    /// What the edict of `player` adds to the creature's strength, before
    /// it is multiplied.
    pub open spec fn edict_strength_bonus(&self, player: Player) -> int {
        match self.spec_edict(player) {
            Edict::Sabotage => if player.pick(self.sabotage_choices) == Some(
                self.spec_creature(player.opponent()),
            ) {
                3
            } else {
                0
            },
            Edict::Ambush => if self.spec_battlefield_bonus(player) {
                1
            } else {
                0
            },
            Edict::Gambit => 1,
            _ => 0,
        }
    }

    /// What lingering effects add to the creature's strength.
    pub open spec fn lingering_strength_bonus(&self, player: Player) -> int {
        let effects = self.spec_player_effects(player);
        (if effects.contains(StatusEffect::Bard) {
            1int
        } else if effects.contains(StatusEffect::Mercenary) {
            -1int
        } else {
            0int
        }) + (if effects.contains(StatusEffect::Mountain) {
            1int
        } else {
            0int
        })
    }

    /// Everything that is added to the base strength of the creature of
    /// `player`: two for the battlefield's bonus, the creature's own
    /// ability, the edict (the witch takes none) and the lingering effects.
    pub open spec fn spec_strength_modifier(&self, player: Player) -> int {
        (if self.spec_battlefield_bonus(player) {
            2int
        } else {
            0int
        }) + self.creature_strength_bonus(player) + (if self.spec_creature(player)
            != Creature::Witch {
            self.spec_edict_multiplier(player) * self.edict_strength_bonus(player)
        } else {
            0int
        }) + self.lingering_strength_bonus(player)
    }

    /// The strength the creature of `player` fights with.
    pub open spec fn strength(&self, player: Player) -> int {
        self.spec_creature(player).base_strength() + self.spec_strength_modifier(player)
    }

    /// Whether `player` wins whatever the strengths are: the witch and the
    /// rogue beat the wall, the rogue beats the monarch, and the diplomat
    /// beats everyone who played the same edict. A negated creature wins
    /// nothing this way.
    pub open spec fn spec_wins_by_effect(&self, player: Player) -> bool {
        let own = self.spec_creature(player);
        let other = self.spec_creature(player.opponent());
        &&& !self.spec_creature_is_negated(player)
        &&& {
            ||| other == Creature::Wall && (own == Creature::Witch || own == Creature::Rogue)
            ||| own == Creature::Rogue && other == Creature::Monarch
            ||| own == Creature::Diplomat && self.spec_edict(player) == self.spec_edict(
                player.opponent(),
            )
        }
    }

    /// How a tie ends for `player`: whoever played the gambit alone loses.
    pub open spec fn spec_resolve_gambits(&self, player: Player) -> BattleResult {
        if self.spec_edict(player) == self.spec_edict(player.opponent()) {
            BattleResult::Tied
        } else if self.spec_edict(player) == Edict::Gambit {
            BattleResult::Lost
        } else if self.spec_edict(player.opponent()) == Edict::Gambit {
            BattleResult::Won
        } else {
            BattleResult::Tied
        }
    }

    /// How the battle ends for `player`.
    pub open spec fn spec_battle_result(&self, player: Player) -> BattleResult {
        let opponent = player.opponent();
        if self.spec_wins_by_effect(player) {
            BattleResult::Won
        } else if self.spec_wins_by_effect(opponent) {
            BattleResult::Lost
        } else if self.spec_creature(player) == Creature::Wall || self.spec_creature(opponent)
            == Creature::Wall {
            self.spec_resolve_gambits(player)
        } else if self.strength(player) < self.strength(opponent) {
            BattleResult::Lost
        } else if self.strength(player) > self.strength(opponent) {
            BattleResult::Won
        } else {
            self.spec_resolve_gambits(player)
        }
    }

    /// What the edict of `player` adds to the worth of the battle: riling
    /// the public adds, diverting attention takes away unless the opponent
    /// riles the public.
    pub open spec fn spec_edict_reward(&self, player: Player) -> int {
        self.spec_edict_multiplier(player) * match self.spec_edict(player) {
            Edict::RileThePublic => 1int,
            Edict::DivertAttention => if self.spec_edict(player.opponent())
                != Edict::RileThePublic {
                -1int
            } else {
                0int
            },
            _ => 0int,
        }
    }

    /// The worth of the battle before the edicts change it: the
    /// battlefield's reward and what lingering effects of `player` add.
    pub open spec fn base_reward(&self, player: Player) -> int {
        let effects = self.spec_player_effects(player);
        self.spec_battlefield().spec_reward() + (if effects.contains(StatusEffect::Night) {
            1int
        } else if effects.contains(StatusEffect::Glade) {
            2int
        } else {
            0int
        }) + (if effects.contains(StatusEffect::Bard) {
            1int
        } else {
            0int
        })
    }

    /// The victory points `player` earns by winning this battle; never
    /// below zero.
    pub open spec fn spec_battle_reward(&self, player: Player) -> int {
        let total = self.base_reward(player) + self.spec_edict_reward(player)
            + self.spec_edict_reward(player.opponent());
        if total < 0 {
            0
        } else {
            total
        }
    }

    /// The victory points `player` earns for not losing to an active
    /// monarch.
    pub open spec fn spec_monarch_reward(&self, player: Player, result: BattleResult) -> int {
        if result != BattleResult::Lost && self.spec_is_active_creature(
            player.opponent(),
            Creature::Monarch,
        ) {
            2
        } else {
            0
        }
    }

    /// By how much the score of `player` changes when the battle ends with
    /// `result` for that player: the winner gains what the battle is worth
    /// to the winner, and the loser loses just that.
    pub open spec fn spec_battle_score_delta(&self, result: BattleResult, player: Player) -> int {
        (match result {
            BattleResult::Tied => 0int,
            BattleResult::Won => self.spec_battle_reward(player),
            BattleResult::Lost => -self.spec_battle_reward(player.opponent()),
        }) + self.spec_monarch_reward(player, result) - self.spec_monarch_reward(
            player.opponent(),
            result.negated(),
        )
    }

    /// Whether both players see the same battle: what one wins the other
    /// loses, in the outcome and in the score.
    pub open spec fn perspectives_agree(&self) -> bool {
        let result = self.spec_battle_result(Player::Me);
        &&& result == self.spec_battle_result(Player::You).negated()
        &&& self.spec_battle_score_delta(result, Player::Me) == -self.spec_battle_score_delta(
            result.negated(),
            Player::You,
        )
    }

    /// How the battle ends for `player`, taken from the outcome for `Me`.
    pub open spec fn outcome_for(&self, player: Player) -> BattleResult {
        match player {
            Player::Me => self.spec_battle_result(Player::Me),
            Player::You => self.spec_battle_result(Player::Me).negated(),
        }
    }

    /// The score after the battle.
    pub open spec fn next_score(&self) -> int {
        self.state.score.0 + self.spec_battle_score_delta(
            self.spec_battle_result(Player::Me),
            Player::Me,
        )
    }

    /// The edicts `player` holds after the battle: the played one is gone,
    /// unless an active steward brings them all back. Between two stewards
    /// only that of `Me` does.
    pub open spec fn next_edicts(&self, player: Player) -> EdictSet {
        let steward = match player {
            Player::Me => self.spec_is_active_creature(Player::Me, Creature::Steward),
            Player::You => !self.spec_is_active_creature(Player::Me, Creature::Steward)
                && self.spec_is_active_creature(Player::You, Creature::Steward),
        };
        if steward {
            EdictSet::full()
        } else {
            player.pick(self.state.player_states).edicts.removed(self.spec_edict(player))
        }
    }

    /// The effects the battlefield leaves on `player`, who came out of the
    /// battle with `outcome`: night falls on both, the glade and the
    /// mountain favour the winner.
    pub open spec fn battlefield_effects(&self, outcome: BattleResult) -> StatusEffectSet {
        let none = StatusEffectSet::none();
        match self.spec_battlefield() {
            Battlefield::Night => none.inserted(StatusEffect::Night),
            Battlefield::Glade => if outcome == BattleResult::Won {
                none.inserted(StatusEffect::Glade)
            } else {
                none
            },
            Battlefield::Mountain => if outcome == BattleResult::Won {
                none.inserted(StatusEffect::Mountain)
            } else {
                none
            },
            _ => none,
        }
    }

    /// The effects `player` carries into the next battle: the old ones end;
    /// then come those of the battlefield, the barbarian's for the loser
    /// while the barbarian is in play, and that of the creature played.
    pub open spec fn next_effects(&self, player: Player) -> StatusEffectSet {
        let outcome = self.outcome_for(player);
        let place = self.battlefield_effects(outcome);
        let fight = if outcome == BattleResult::Lost && !self.state.graveyard.contains(
            Creature::Barbarian,
        ) {
            place.inserted(StatusEffect::Barbarian)
        } else {
            place
        };
        match self.spec_creature(player) {
            Creature::Mercenary => fight.inserted(StatusEffect::Mercenary),
            Creature::Seer => fight.inserted(StatusEffect::Seer),
            Creature::Bard => fight.inserted(StatusEffect::Bard),
            _ => fight,
        }
    }

    /// What both players know of `player` after the battle.
    pub open spec fn next_player_state(&self, player: Player) -> KnownPlayerState {
        KnownPlayerState { edicts: self.next_edicts(player), effects: self.next_effects(player) }
    }

    /// The state after the battle, if another battle follows.
    pub open spec fn next_state(&self) -> KnownState {
        KnownState {
            player_states: (
                self.next_player_state(Player::Me),
                self.next_player_state(Player::You),
            ),
            battlefields: self.state.battlefields.advanced(),
            graveyard: self.state.graveyard,
            score: Score(self.next_score() as i8),
        }
    }

    /// How the turn leaves the game: the outcome for `Me`, and the next
    /// state or, after the last battlefield, the final score.
    pub open spec fn spec_advance(&self) -> (BattleResult, TurnResult<KnownState>) {
        (
            self.spec_battle_result(Player::Me),
            if self.state.battlefields.current < 3 {
                TurnResult::Unfinished(self.next_state())
            } else {
                TurnResult::Finished(Score(self.next_score() as i8))
            },
        )
    }

    // ----- The rules, as code -----
    /// The battle in which the players fight with `main_choices`, having
    /// guessed `sabotage_choices`, in the game that stands at `state`.
    pub fn new(
        main_choices: (FinalMainPhaseChoice, FinalMainPhaseChoice),
        sabotage_choices: (SabotagePhaseChoice, SabotagePhaseChoice),
        state: KnownState,
    ) -> (r: BattleContext)
        ensures
            r.main_choices == main_choices,
            r.sabotage_choices == sabotage_choices,
            r.state == state,
    {
        BattleContext { main_choices, sabotage_choices, state }
    }

    /// What `player` ended up fighting with.
    pub fn main_choice(&self, player: Player) -> (r: FinalMainPhaseChoice)
        ensures
            r == player.pick(self.main_choices),
    {
        player.select(self.main_choices)
    }

    /// Returns the edict played by the current player.
    #[verifier::when_used_as_spec(spec_edict)]
    pub fn edict(&self, player: Player) -> (r: Edict)
        ensures
            r == self.spec_edict(player),
    {
        self.main_choice(player).edict
    }

    /// Returns the creature played by the current player.
    #[verifier::when_used_as_spec(spec_creature)]
    pub fn creature(&self, player: Player) -> (r: Creature)
        ensures
            r == self.spec_creature(player),
    {
        self.main_choice(player).creature
    }

    /// Returns the player effects active on some player.
    #[verifier::when_used_as_spec(spec_player_effects)]
    pub fn player_effects(&self, player: Player) -> (r: StatusEffectSet)
        ensures
            r == self.spec_player_effects(player),
    {
        player.select(self.state.player_states).effects
    }

    /// Returns the current battlefield.
    #[verifier::when_used_as_spec(spec_battlefield)]
    pub fn battlefield(&self) -> (r: Battlefield)
        requires
            self.state.wf(),
        ensures
            r == self.spec_battlefield(),
    {
        self.state.battlefields.current()
    }

    /// Checks if the creature a player has played is negated.
    #[verifier::when_used_as_spec(spec_creature_is_negated)]
    pub fn creature_is_negated(&self, player: Player) -> (r: bool)
        ensures
            r == self.spec_creature_is_negated(player),
    {
        let witch = self.creature(player.not()) == Creature::Witch;
        let rogue = self.creature(player) == Creature::Seer && self.creature(player.not())
            == Creature::Rogue;

        witch || rogue
    }

    /// Returns true if the given creature is the one a given player
    /// has played, and if its effect has not been negated.
    #[verifier::when_used_as_spec(spec_is_active_creature)]
    pub fn is_active_creature(&self, player: Player, creature: Creature) -> (r: bool)
        ensures
            r == self.spec_is_active_creature(player, creature),
    {
        creature == self.creature(player) && !self.creature_is_negated(player)
    }

    /// Calculates the edict multiplier for some player.
    /// This multiplier is influenced by:
    /// - the urban battlefield
    /// - the steward creature
    pub fn edict_multiplier(&self, player: Player) -> (r: i8)
        requires
            self.state.wf(),
        ensures
            r == self.spec_edict_multiplier(player),
            1 <= r <= 3,
    {
        let mut result: i8 = 1;

        if self.battlefield() == Battlefield::Urban {
            result += 1;
        }
        if self.is_active_creature(player, Creature::Steward) {
            result += 1;
        }
        result
    }

    /// Returns true if the creature a player has played
    /// is affected by the battlefield bonus.
    #[verifier::when_used_as_spec(spec_battlefield_bonus)]
    pub fn battlefield_bonus(&self, player: Player) -> (r: bool)
        requires
            self.state.wf(),
        ensures
            r == self.spec_battlefield_bonus(player),
    {
        self.battlefield().bonus(self.creature(player))
    }

    /// What the creature's own ability adds to its strength.
    fn creature_bonus(&self, player: Player) -> (r: i8)
        requires
            self.state.wf(),
        ensures
            r == self.creature_strength_bonus(player),
            0 <= r <= 2,
    {
        if self.creature_is_negated(player) {
            return 0;
        }
        match self.creature(player) {
            Creature::Ranger => {
                if self.battlefield_bonus(player) && !self.battlefield_bonus(player.not()) {
                    2
                } else {
                    0
                }
            },
            Creature::Barbarian => {
                if self.player_effects(player).has(StatusEffect::Barbarian) {
                    2
                } else {
                    0
                }
            },
            _ => 0,
        }
    }

    /// What the edict of `player` adds to the creature's strength, before
    /// it is multiplied.
    fn edict_bonus(&self, player: Player) -> (r: i8)
        requires
            self.state.wf(),
        ensures
            r == self.edict_strength_bonus(player),
            0 <= r <= 3,
    {
        match self.edict(player) {
            Edict::Sabotage => {
                match player.select(self.sabotage_choices) {
                    Some(guess) => if guess == self.creature(player.not()) {
                        3
                    } else {
                        0
                    },
                    None => 0,
                }
            },
            Edict::Ambush => if self.battlefield_bonus(player) {
                1
            } else {
                0
            },
            Edict::Gambit => 1,
            _ => 0,
        }
    }

    /// What lingering effects add to the creature's strength.
    fn lingering_bonus(&self, player: Player) -> (r: i8)
        ensures
            r == self.lingering_strength_bonus(player),
            -1 <= r <= 2,
    {
        let effects = self.player_effects(player);
        let mut result: i8 = 0;

        // Effects caused by the previously played creature
        if effects.has(StatusEffect::Bard) {
            result += 1;
        } else if effects.has(StatusEffect::Mercenary) {
            result -= 1;
        }

        // Effects caused by previous battlefields
        if effects.has(StatusEffect::Mountain) {
            result += 1;
        }
        result
    }

    /// Calculates the strength modifier for the creature the current player
    /// has played.
    pub fn strength_modifier(&self, player: Player) -> (r: i8)
        requires
            self.state.wf(),
        ensures
            r == self.spec_strength_modifier(player),
            -1 <= r <= 15,
    {
        let mut result: i8 = 0;

        if self.battlefield_bonus(player) {
            result += 2;
        }
        result += self.creature_bonus(player);

        // The witch cannot get strength bonuses from edicts
        if self.creature(player) != Creature::Witch {
            let multiplier = self.edict_multiplier(player);
            let bonus = self.edict_bonus(player);
            assert(0 <= multiplier * bonus <= 9) by (nonlinear_arith)
                requires
                    1 <= multiplier <= 3,
                    0 <= bonus <= 3,
            ;
            result += multiplier * bonus;
        }
        result += self.lingering_bonus(player);

        result
    }

    /// Calculate strength modifiers for a player and its opponent.
    pub fn strength_modifiers(&self, player: Player) -> (r: (i8, i8))
        requires
            self.state.wf(),
        ensures
            r.0 == self.spec_strength_modifier(player),
            r.1 == self.spec_strength_modifier(player.opponent()),
    {
        (self.strength_modifier(player), self.strength_modifier(player.not()))
    }

    /// Check if some player wins because of an effect.
    #[verifier::when_used_as_spec(spec_wins_by_effect)]
    pub fn wins_by_effect(&self, player: Player) -> (r: bool)
        ensures
            r == self.spec_wins_by_effect(player),
    {
        if self.creature_is_negated(player) {
            return false;
        }

        // The wall gets negated by the witch and rogue characters
        if self.creature(player.not()) == Creature::Wall && (self.creature(player)
            == Creature::Witch || self.creature(player) == Creature::Rogue) {
            return true;
        }

        // The rogue wins against the monarch
        if self.creature(player) == Creature::Rogue && self.creature(player.not())
            == Creature::Monarch {
            return true;
        }

        // The diplomat wins against any creature
        // if the two edicts are identical
        if self.creature(player) == Creature::Diplomat && self.edict(player) == self.edict(
            player.not(),
        ) {
            return true;
        }
        false
    }

    /// Resolves the gambit effects on a tie, relative to a given player.
    #[verifier::when_used_as_spec(spec_resolve_gambits)]
    pub fn resolve_gambits(&self, player: Player) -> (r: BattleResult)
        ensures
            r == self.spec_resolve_gambits(player),
    {
        // If both players played gambits, nothing happens
        if self.edict(player) == self.edict(player.not()) {
            return BattleResult::Tied;
        }

        // if we played a gambit, we lose on ties
        if self.edict(player) == Edict::Gambit {
            return BattleResult::Lost;
        }

        // if the opponent has played a gambit, they lose on ties
        if self.edict(player.not()) == Edict::Gambit {
            return BattleResult::Won;
        }

        // Otherwise it's still a tie
        BattleResult::Tied
    }

    /// Resolves a battle relative to some player.
    pub fn battle_result(&self, player: Player) -> (r: BattleResult)
        requires
            self.state.wf(),
        ensures
            r == self.spec_battle_result(player),
    {
        if self.wins_by_effect(player) {
            return BattleResult::Won;
        } else if self.wins_by_effect(player.not()) {
            return BattleResult::Lost;
        } else if self.creature(player) == Creature::Wall || self.creature(player.not())
            == Creature::Wall {
            // The wall can force ties.
            // We don't have to check for the wall being negated here,
            // as that would trigger a win by effect.
            return self.resolve_gambits(player);
        }
        let base_strengths: (i8, i8) = (
            self.creature(player).strength() as i8,
            self.creature(player.not()).strength() as i8,
        );

        let strength_modifiers = self.strength_modifiers(player);
        let strengths: (i8, i8) = (
            base_strengths.0 + strength_modifiers.0,
            base_strengths.1 + strength_modifiers.1,
        );

        if strengths.0 < strengths.1 {
            BattleResult::Lost
        } else if strengths.0 > strengths.1 {
            BattleResult::Won
        } else {
            self.resolve_gambits(player)
        }
    }

    /// Calculate the amount of victory points
    /// the value of the current battle changed by
    /// because of the cards played by a player.
    pub fn edict_reward(&self, player: Player) -> (r: i8)
        requires
            self.state.wf(),
        ensures
            r == self.spec_edict_reward(player),
            -3 <= r <= 3,
    {
        let unit: i8 = match self.edict(player) {
            Edict::RileThePublic => 1,
            Edict::DivertAttention => if self.edict(player.not()) != Edict::RileThePublic {
                -1
            } else {
                0
            },
            _ => 0,
        };
        let multiplier = self.edict_multiplier(player);
        assert(-3 <= multiplier * unit <= 3) by (nonlinear_arith)
            requires
                1 <= multiplier <= 3,
                -1 <= unit <= 1,
        ;
        multiplier * unit
    }

    /// Calculates the amount of victory points
    /// earned by winning this particular battle
    /// as a given player.
    pub fn battle_reward(&self, player: Player) -> (r: u8)
        requires
            self.state.wf(),
        ensures
            r == self.spec_battle_reward(player),
            r <= 14,
    {
        let effects = self.player_effects(player);
        let mut total: i8 = self.battlefield().reward() as i8;

        // Lingering effects:
        if effects.has(StatusEffect::Night) {
            total += 1;
        } else if effects.has(StatusEffect::Glade) {
            total += 2;
        }
        if effects.has(StatusEffect::Bard) {
            total += 1;
        }

        // Apply the "rile the public" and "divert attention" edicts.
        // This is the only place where the total can decrease,
        // which is why we must be careful for it not to become negative.
        total = total + self.edict_reward(player) + self.edict_reward(player.not());
        if total < 0 {
            0
        } else {
            total as u8
        }
    }

    /// The reward for a player killing the monarch.
    pub fn monarch_reward(&self, player: Player, result: BattleResult) -> (r: u8)
        ensures
            r == self.spec_monarch_reward(player, result),
            r <= 2,
    {
        match result {
            BattleResult::Won | BattleResult::Tied => {
                if self.is_active_creature(player.not(), Creature::Monarch) {
                    2
                } else {
                    0
                }
            },
            BattleResult::Lost => 0,
        }
    }

    /// Calculates the delta we need to change the score by.
    /// - positive values mean we've earned points
    /// - negative values mean the opponent has gained points
    ///
    /// A battle is worth what it is worth to its winner, so a loss costs
    /// what the opponent earns by winning.
    pub fn battle_score_delta(&self, result: BattleResult, player: Player) -> (r: i8)
        requires
            self.state.wf(),
        ensures
            r == self.spec_battle_score_delta(result, player),
            -16 <= r <= 16,
    {
        let mut delta: i8 = match result {
            BattleResult::Tied => 0,
            BattleResult::Won => self.battle_reward(player) as i8,
            BattleResult::Lost => -(self.battle_reward(player.not()) as i8),
        };

        // Trigger monarch's effect
        delta += self.monarch_reward(player, result) as i8;
        delta -= self.monarch_reward(player.not(), result.not()) as i8;

        delta
    }

    /// Returns a mut ref to the player effects active on some player.
    pub fn player_effects_mut(&mut self, player: Player) -> (r: &mut StatusEffectSet)
        ensures
            *r == old(self).spec_player_effects(player),
            final(self).spec_player_effects(player) == *final(r),
            final(self).spec_player_effects(player.opponent()) == old(self).spec_player_effects(
                player.opponent(),
            ),
            final(self).state.player_states.0.edicts == old(self).state.player_states.0.edicts,
            final(self).state.player_states.1.edicts == old(self).state.player_states.1.edicts,
            final(self).state.battlefields == old(self).state.battlefields,
            final(self).state.graveyard == old(self).state.graveyard,
            final(self).state.score == old(self).state.score,
            final(self).main_choices == old(self).main_choices,
            final(self).sabotage_choices == old(self).sabotage_choices,
    {
        match player {
            Player::Me => &mut self.state.player_states.0.effects,
            Player::You => &mut self.state.player_states.1.effects,
        }
    }

    /// The edicts `player` holds after the battle.
    fn edicts_after(&self, player: Player) -> (r: EdictSet)
        ensures
            r == self.next_edicts(player),
    {
        let steward = match player {
            Player::Me => self.is_active_creature(Player::Me, Creature::Steward),
            Player::You => !self.is_active_creature(Player::Me, Creature::Steward)
                && self.is_active_creature(Player::You, Creature::Steward),
        };
        if steward {
            EdictSet::all()
        } else {
            // Discard used edicts
            let mut edicts = player.select(self.state.player_states).edicts;
            edicts.remove(self.edict(player));
            edicts
        }
    }

    /// The effects `player` carries into the next battle, having come out
    /// of this one with `outcome`.
    fn effects_after(&self, player: Player, outcome: BattleResult) -> (r: StatusEffectSet)
        requires
            self.state.wf(),
            outcome == self.outcome_for(player),
        ensures
            r == self.next_effects(player),
    {
        // Clear status effects
        let mut effects = StatusEffectSet::default();

        // Set up global lingering effects
        match self.battlefield() {
            Battlefield::Night => {
                effects.add(StatusEffect::Night);
            },
            Battlefield::Glade => {
                if outcome == BattleResult::Won {
                    effects.add(StatusEffect::Glade);
                }
            },
            Battlefield::Mountain => {
                if outcome == BattleResult::Won {
                    effects.add(StatusEffect::Mountain);
                }
            },
            _ => {},
        }

        // if this card has already been played there's no point
        // in adding the status effect anymore
        if outcome == BattleResult::Lost && !self.state.graveyard.has(Creature::Barbarian) {
            effects.add(StatusEffect::Barbarian);
        }
        match self.creature(player) {
            Creature::Mercenary => {
                effects.add(StatusEffect::Mercenary);
            },
            Creature::Seer => {
                effects.add(StatusEffect::Seer);
            },
            Creature::Bard => {
                effects.add(StatusEffect::Bard);
            },
            _ => {},
        }
        effects
    }

    /// Resolves the battle and moves the game on by one turn: returns how
    /// the battle ended for `Player::Me`, and the state the next turn starts
    /// from or, after the last battlefield, the final score.
    ///
    /// The two players fight with different creatures, as every creature
    /// exists once, and the new score has to fit. Then `You` sees the
    /// negated outcome, and the negated change of score.
    pub fn advance_known_state(&self) -> (r: (BattleResult, TurnResult<KnownState>))
        requires
            self.state.wf(),
            self.spec_creature(Player::Me) != self.spec_creature(Player::You),
            i8::MIN <= self.next_score() <= i8::MAX,
        ensures
            r == self.spec_advance(),
            r.0 == self.spec_battle_result(Player::You).negated(),
            r.1 matches TurnResult::Unfinished(next) ==> next.wf(),
    {
        let player = Player::Me;
        let battle_result = self.battle_result(player);

        let score_delta = self.battle_score_delta(battle_result, player);
        let score = Score(self.state.score.0 + score_delta);

        let turn_result = match self.state.battlefields.next() {
            // Continue game
            Some(battlefields) => {
                let new_state = KnownState {
                    player_states: (
                        KnownPlayerState {
                            edicts: self.edicts_after(player),
                            effects: self.effects_after(player, battle_result),
                        },
                        KnownPlayerState {
                            edicts: self.edicts_after(player.not()),
                            effects: self.effects_after(player.not(), battle_result.not()),
                        },
                    ),
                    battlefields,
                    graveyard: self.state.graveyard,
                    score,
                };

                TurnResult::Unfinished(new_state)
            },
            // Report final results
            None => TurnResult::Finished(score),
        };

        (battle_result, turn_result)
    }
}

impl BattleContext {
    // ----- Setting up a battle piece by piece -----
    /// Sets the creature played by a player.
    pub fn set_creature(&mut self, player: Player, creature: Creature)
        ensures
            final(self).spec_creature(player) == creature,
            final(self).spec_creature(player.opponent()) == old(self).spec_creature(
                player.opponent(),
            ),
            final(self).spec_edict(Player::Me) == old(self).spec_edict(Player::Me),
            final(self).spec_edict(Player::You) == old(self).spec_edict(Player::You),
            final(self).sabotage_choices == old(self).sabotage_choices,
            final(self).state == old(self).state,
    {
        match player {
            Player::Me => {
                self.main_choices.0.creature = creature;
            },
            Player::You => {
                self.main_choices.1.creature = creature;
            },
        }
    }

    /// Sets the edict played by a player.
    pub fn set_edict(&mut self, player: Player, edict: Edict)
        ensures
            final(self).spec_edict(player) == edict,
            final(self).spec_edict(player.opponent()) == old(self).spec_edict(player.opponent()),
            final(self).spec_creature(Player::Me) == old(self).spec_creature(Player::Me),
            final(self).spec_creature(Player::You) == old(self).spec_creature(Player::You),
            final(self).sabotage_choices == old(self).sabotage_choices,
            final(self).state == old(self).state,
    {
        match player {
            Player::Me => {
                self.main_choices.0.edict = edict;
            },
            Player::You => {
                self.main_choices.1.edict = edict;
            },
        }
    }

    /// Activates an effect on a player.
    pub fn add_effect(&mut self, player: Player, effect: StatusEffect)
        ensures
            final(self).spec_player_effects(player) == old(self).spec_player_effects(
                player,
            ).inserted(effect),
            final(self).spec_player_effects(player.opponent()) == old(self).spec_player_effects(
                player.opponent(),
            ),
            final(self).state.player_states.0.edicts == old(self).state.player_states.0.edicts,
            final(self).state.player_states.1.edicts == old(self).state.player_states.1.edicts,
            final(self).state.battlefields == old(self).state.battlefields,
            final(self).state.graveyard == old(self).state.graveyard,
            final(self).state.score == old(self).state.score,
            final(self).main_choices == old(self).main_choices,
            final(self).sabotage_choices == old(self).sabotage_choices,
    {
        match player {
            Player::Me => {
                self.state.player_states.0.effects.add(effect);
            },
            Player::You => {
                self.state.player_states.1.effects.add(effect);
            },
        }
    }

    /// Replaces the battlefield this battle is fought on.
    pub fn set_battlefield(&mut self, battlefield: Battlefield)
        requires
            old(self).state.wf(),
        ensures
            final(self).state.wf(),
            final(self).spec_battlefield() == battlefield,
            final(self).state.battlefields.current == old(self).state.battlefields.current,
            final(self).state.battlefields.all@ == old(self).state.battlefields.all@.update(
                old(self).state.battlefields.current as int,
                battlefield,
            ),
            final(self).state.player_states == old(self).state.player_states,
            final(self).state.graveyard == old(self).state.graveyard,
            final(self).state.score == old(self).state.score,
            final(self).main_choices == old(self).main_choices,
            final(self).sabotage_choices == old(self).sabotage_choices,
    {
        self.state.battlefields.all[self.state.battlefields.current] = battlefield;
    }
}

impl BattleContext {
    // ----- What the rules imply -----
    /// Battle symmetry, outcome: when the two players fight with different
    /// creatures, as they must, one player's result is the other's
    /// result negated.
    pub proof fn lemma_battle_result_symmetry(self)
        requires
            self.spec_creature(Player::Me) != self.spec_creature(Player::You),
        ensures
            self.spec_battle_result(Player::Me) == self.spec_battle_result(Player::You).negated(),
    {
    }

    /// Battle symmetry, score: whatever the state and the choices, the
    /// change of score that `Me` sees for `result` is the negation of what
    /// `You` sees for the negated result.
    pub proof fn lemma_score_delta_symmetry(self, result: BattleResult)
        ensures
            self.spec_battle_score_delta(result, Player::Me) == -self.spec_battle_score_delta(
                result.negated(),
                Player::You,
            ),
    {
    }

    /// Battle symmetry: players who fight with different creatures see the
    /// same battle, in the outcome and in the score.
    pub proof fn lemma_perspectives_agree(self)
        requires
            self.spec_creature(Player::Me) != self.spec_creature(Player::You),
        ensures
            self.perspectives_agree(),
    {
        self.lemma_battle_result_symmetry();
        self.lemma_score_delta_symmetry(self.spec_battle_result(Player::Me));
    }

    /// A game that is played from its start never leaves the scores that
    /// fit: from a state within play the new score fits, and the next state
    /// is within play again.
    pub proof fn lemma_play_stays_within(self)
        requires
            self.state.within_play(),
        ensures
            i8::MIN <= self.next_score() <= i8::MAX,
            self.state.battlefields.current < 3 ==> self.next_state().within_play(),
    {
        self.lemma_score_delta_bounds(self.spec_battle_result(Player::Me), Player::Me);
    }

    /// The score never moves by more than sixteen points in one battle.
    pub proof fn lemma_score_delta_bounds(self, result: BattleResult, player: Player)
        ensures
            -16 <= self.spec_battle_score_delta(result, player) <= 16,
    {
        self.lemma_reward_bounds(player);
        self.lemma_reward_bounds(player.opponent());
    }

    /// A battle is worth between zero and fourteen points.
    pub proof fn lemma_reward_bounds(self, player: Player)
        ensures
            0 <= self.spec_battle_reward(player) <= 14,
    {
        let a = self.spec_edict_multiplier(player);
        let b = self.spec_edict_multiplier(player.opponent());
        assert(-3 <= self.spec_edict_reward(player) <= 3) by (nonlinear_arith)
            requires
                1 <= a <= 3,
                self.spec_edict_reward(player) == a * 1 || self.spec_edict_reward(player) == a
                    * (-1) || self.spec_edict_reward(player) == a * 0,
        ;
        assert(-3 <= self.spec_edict_reward(player.opponent()) <= 3) by (nonlinear_arith)
            requires
                1 <= b <= 3,
                self.spec_edict_reward(player.opponent()) == b * 1 || self.spec_edict_reward(
                    player.opponent(),
                ) == b * (-1) || self.spec_edict_reward(player.opponent()) == b * 0,
        ;
    }
}

} // verus!
