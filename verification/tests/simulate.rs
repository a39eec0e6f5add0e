use echo_cfr::game::battlefield::{Battlefield, Battlefields};
use echo_cfr::game::choice::FinalMainPhaseChoice;
use echo_cfr::game::creature::{Creature, CreatureSet};
use echo_cfr::game::edict::{Edict, EdictSet};
use echo_cfr::game::known_state::{KnownPlayerState, KnownState, TurnResult};
use echo_cfr::game::simulate::{BattleContext, BattleResult};
use echo_cfr::game::status_effect::{PlayerStatusEffect, StatusEffectSet};
use echo_cfr::game::types::{Player, Score};

// ----- Common setup -----
fn basic_state() -> KnownState {
    KnownState {
        battlefields: Battlefields::new([Battlefield::Plains; 4]),
        graveyard: CreatureSet::default(),
        score: Score::default(),
        player_states: Default::default(),
    }
}

fn basic_battle_context() -> BattleContext {
    let p1_choice = FinalMainPhaseChoice::new(Creature::Mercenary, Edict::Gambit);
    let p2_choice = FinalMainPhaseChoice::new(Creature::Seer, Edict::Gambit);

    BattleContext::new((p1_choice, p2_choice), (None, None), basic_state())
}

fn context(
    me: (Creature, Edict),
    you: (Creature, Edict),
    battlefield: Battlefield,
) -> BattleContext {
    let mut ctx = BattleContext::new(
        (
            FinalMainPhaseChoice::new(me.0, me.1),
            FinalMainPhaseChoice::new(you.0, you.1),
        ),
        (None, None),
        basic_state(),
    );
    ctx.set_battlefield(battlefield);
    ctx
}
// ----- Battlefields -----
#[test]
fn mountain_glade_setup() {
    let setups = [
        (Battlefield::Glade, PlayerStatusEffect::Glade),
        (Battlefield::Mountain, PlayerStatusEffect::Mountain),
    ];

    let mut ctx = basic_battle_context();

    for (battlefield, effect) in setups {
        ctx.set_battlefield(battlefield);

        let has_effect = ctx
            .advance_known_state()
            .1
            .get_unfinished()
            .unwrap()
            .player_states
            .0
            .effects
            .has(effect);

        assert!(has_effect, "{:?} setup does not work", battlefield,);
    }
}

#[test]
fn glade_effect() {
    let winner = Player::Me;
    for player in Player::PLAYERS {
        let mut ctx = basic_battle_context();
        ctx.add_effect(player, PlayerStatusEffect::Glade);

        let extra_reward = ctx.battle_reward(winner) - ctx.battlefield().reward();

        if player == winner {
            assert_eq!(extra_reward, 2, "Glade effect does not work");
        } else {
            assert_eq!(extra_reward, 0, "Glade should only affect one player");
        }
    }
}

#[test]
fn mountain_effect() {
    for player in Player::PLAYERS {
        let mut ctx = basic_battle_context();
        ctx.add_effect(player, PlayerStatusEffect::Mountain);

        // We don't want the edicts to influence the strength values.
        ctx.set_edict(player, Edict::RileThePublic);
        ctx.set_edict(player.not(), Edict::RileThePublic);

        assert_eq!(ctx.strength_modifier(player), 1, "Mountain does not work");
        assert_eq!(
            ctx.strength_modifier(player.not()),
            0,
            "Mountain should only affect one player"
        );
    }
}

#[test]
fn night_setup() {
    let mut ctx = basic_battle_context();
    ctx.set_battlefield(Battlefield::Night);

    let effect = PlayerStatusEffect::Night;

    let unfinished = ctx.advance_known_state().1.get_unfinished().unwrap();
    let has_effects = unfinished.player_states.0.effects.has(effect)
        && unfinished.player_states.1.effects.has(effect);

    assert!(has_effects);
}

#[test]
fn night_effect() {
    let mut ctx = basic_battle_context();

    // Give the status effect to both players
    ctx.add_effect(Player::Me, PlayerStatusEffect::Night);
    ctx.add_effect(Player::You, PlayerStatusEffect::Night);

    for player in Player::PLAYERS {
        assert_eq!(
            ctx.battle_reward(player) - ctx.battlefield().reward(),
            1,
            "Night effect does not work"
        );
    }
}

#[test]
fn urban_effect() {
    let mut ctx = basic_battle_context();
    ctx.set_battlefield(Battlefield::Urban);

    for player in Player::PLAYERS {
        assert_eq!(ctx.edict_multiplier(player), 2);
    }
}
// ----- Creatures -----
#[test]
fn steward_effect_1() {
    for player in Player::PLAYERS {
        let mut ctx = basic_battle_context();
        ctx.set_creature(player, Creature::Steward);

        assert_eq!(ctx.edict_multiplier(player), 2);
        assert_eq!(ctx.edict_multiplier(player.not()), 1);
    }
}

#[test]
fn steward_effect_2() {
    for player in Player::PLAYERS {
        let mut ctx = basic_battle_context();
        ctx.set_creature(player, Creature::Steward);

        let player_states = ctx
            .advance_known_state()
            .1
            .get_unfinished()
            .unwrap()
            .player_states;

        let player_edicts = player.select(player_states).edicts;
        let opponent_edicts = player.not().select(player_states).edicts;

        assert_eq!(
            player_edicts,
            EdictSet::default(),
            "Steward player must have all the edicts"
        );

        // In contrast, the opponent has fewer edicts
        assert_eq!(opponent_edicts.len(), 4, "Opponent must have 4 edicts");
    }
}
// ----- Rules -----
#[test]
fn edict_multiplier_additive() {
    for player in Player::PLAYERS {
        let mut ctx = basic_battle_context();
        ctx.set_battlefield(Battlefield::Urban);
        ctx.set_creature(player, Creature::Steward);

        assert_eq!(ctx.edict_multiplier(player), 3);
        assert_eq!(ctx.edict_multiplier(player.not()), 2);
    }
}
// ----- A whole turn -----
#[test]
fn mercenary_beats_seer_on_the_plains() {
    // Both play the gambit, so both get one strength from it and a tie
    // would stay a tie; the mercenary's four beats the seer's nought, and
    // the plains are worth three points.
    let ctx = basic_battle_context();

    assert_eq!(ctx.strength_modifier(Player::Me), 1);
    assert_eq!(ctx.strength_modifier(Player::You), 1);
    assert_eq!(ctx.strength_modifiers(Player::You), (1, 1));
    assert_eq!(ctx.battle_result(Player::Me), BattleResult::Won);
    assert_eq!(ctx.battle_result(Player::You), BattleResult::Lost);
    assert_eq!(ctx.battle_reward(Player::Me), 3);
    assert_eq!(ctx.battle_score_delta(BattleResult::Won, Player::Me), 3);
    assert_eq!(ctx.battle_score_delta(BattleResult::Lost, Player::You), -3);

    let (result, turn) = ctx.advance_known_state();
    assert_eq!(result, BattleResult::Won);

    let next = turn.get_unfinished().unwrap();
    assert_eq!(next.score, Score(3));
    assert_eq!(next.battlefields.current, 1);
    assert_eq!(next.battlefields.all, [Battlefield::Plains; 4]);
    assert_eq!(next.graveyard, CreatureSet::default());

    let mut used = EdictSet::all();
    used.remove(Edict::Gambit);
    assert_eq!(next.player_states.0.edicts, used);
    assert_eq!(next.player_states.1.edicts, used);

    // The winner carries the mercenary's weakness, the loser the seer's
    // sight and the barbarian's anger.
    let mut winner = StatusEffectSet::default();
    winner.add(PlayerStatusEffect::Mercenary);
    let mut loser = StatusEffectSet::default();
    loser.add(PlayerStatusEffect::Barbarian);
    loser.add(PlayerStatusEffect::Seer);
    assert_eq!(next.player_states.0.effects, winner);
    assert_eq!(next.player_states.1.effects, loser);
    assert_eq!(next.seer_player(), Some(Player::You));
}

#[test]
fn the_last_battle_finishes_the_game() {
    let mut ctx = basic_battle_context();
    ctx.state.battlefields.current = 3;
    ctx.state.score = Score(-5);

    assert_eq!(
        ctx.advance_known_state(),
        (BattleResult::Won, TurnResult::Finished(Score(-2)))
    );
}

#[test]
fn old_effects_end_with_the_battle() {
    let mut ctx = context(
        (Creature::Ranger, Edict::Ambush),
        (Creature::Ranger, Edict::Ambush),
        Battlefield::Plains,
    );
    ctx.set_creature(Player::You, Creature::Witch);
    ctx.add_effect(Player::Me, PlayerStatusEffect::Mountain);
    ctx.add_effect(Player::You, PlayerStatusEffect::Mountain);
    ctx.state.graveyard.add(Creature::Barbarian);

    // Ranger 2 + 1 against witch 3 + 1: the witch wins.
    let (result, turn) = ctx.advance_known_state();
    assert_eq!(result, BattleResult::Lost);
    let next = turn.get_unfinished().unwrap();
    assert_eq!(next.score, Score(-3));
    // The barbarian is in the graveyard: no anger for the loser.
    assert_eq!(next.player_states.0.effects, StatusEffectSet::default());
    assert_eq!(next.player_states.1.effects, StatusEffectSet::default());
}

#[test]
fn a_tie_moves_neither_score_nor_battlefield_effects() {
    let ctx = context(
        (Creature::Bard, Edict::Ambush),
        (Creature::Diplomat, Edict::Sabotage),
        Battlefield::Glade,
    );
    // In the glade the bard has the bonus: 2 + 2 + 1 (ambush with bonus)
    // = 5; the diplomat has 2. Take the bonus away.
    assert_eq!(ctx.battle_result(Player::Me), BattleResult::Won);

    let ctx = context(
        (Creature::Bard, Edict::RileThePublic),
        (Creature::Diplomat, Edict::Sabotage),
        Battlefield::Mountain,
    );
    let (result, turn) = ctx.advance_known_state();
    assert_eq!(result, BattleResult::Tied);
    let next = turn.get_unfinished().unwrap();
    assert_eq!(next.score, Score(0));
    let mut bard = StatusEffectSet::default();
    bard.add(PlayerStatusEffect::Bard);
    assert_eq!(next.player_states.0.effects, bard);
    assert_eq!(next.player_states.1.effects, StatusEffectSet::default());
}
// ----- Strength -----
#[test]
fn strength_modifier_adds_its_parts() {
    // Ranger on the mountain against a seer: bonus 2, ranger's own 2,
    // ambush with bonus 1 times the urban-less multiplier 1, bard 1,
    // mountain 1.
    let mut ctx = context(
        (Creature::Ranger, Edict::Ambush),
        (Creature::Seer, Edict::Gambit),
        Battlefield::Mountain,
    );
    ctx.add_effect(Player::Me, PlayerStatusEffect::Bard);
    ctx.add_effect(Player::Me, PlayerStatusEffect::Mercenary);
    ctx.add_effect(Player::Me, PlayerStatusEffect::Mountain);
    assert_eq!(ctx.strength_modifier(Player::Me), 7);

    // The mercenary's weakness counts only without the bard.
    let mut ctx = context(
        (Creature::Wall, Edict::RileThePublic),
        (Creature::Seer, Edict::RileThePublic),
        Battlefield::Plains,
    );
    ctx.add_effect(Player::Me, PlayerStatusEffect::Mercenary);
    assert_eq!(ctx.strength_modifier(Player::Me), -1);
}

#[test]
fn sabotage_gives_three_for_the_right_guess() {
    let mut ctx = context(
        (Creature::Bard, Edict::Sabotage),
        (Creature::Monarch, Edict::Gambit),
        Battlefield::Urban,
    );
    assert_eq!(ctx.strength_modifier(Player::Me), 2);

    ctx.sabotage_choices = (Some(Creature::Rogue), None);
    assert_eq!(ctx.strength_modifier(Player::Me), 2);

    // Urban doubles the edict: 2 for the bard's bonus and 2 * 3.
    ctx.sabotage_choices = (Some(Creature::Monarch), None);
    assert_eq!(ctx.strength_modifier(Player::Me), 8);
    // 2 + 8 against 6 + 2 * 1.
    assert_eq!(ctx.battle_result(Player::Me), BattleResult::Won);
    // Not losing to the monarch is worth two points more.
    assert_eq!(ctx.monarch_reward(Player::Me, BattleResult::Won), 2);
    assert_eq!(ctx.monarch_reward(Player::Me, BattleResult::Lost), 0);
    assert_eq!(ctx.monarch_reward(Player::You, BattleResult::Won), 0);
    assert_eq!(ctx.battle_score_delta(BattleResult::Won, Player::Me), 5);
    assert_eq!(ctx.battle_score_delta(BattleResult::Lost, Player::You), -5);
}

#[test]
fn the_witch_takes_no_edict_and_negates_her_opponent() {
    let mut ctx = context(
        (Creature::Witch, Edict::Gambit),
        (Creature::Barbarian, Edict::RileThePublic),
        Battlefield::Plains,
    );
    ctx.add_effect(Player::You, PlayerStatusEffect::Barbarian);

    assert!(ctx.creature_is_negated(Player::You));
    assert!(!ctx.creature_is_negated(Player::Me));
    assert!(ctx.is_active_creature(Player::Me, Creature::Witch));
    assert!(!ctx.is_active_creature(Player::You, Creature::Barbarian));
    assert_eq!(ctx.strength_modifier(Player::Me), 0);
    assert_eq!(ctx.strength_modifier(Player::You), 0);
    // Three against three: a tie, which the lone gambit loses.
    assert_eq!(ctx.resolve_gambits(Player::Me), BattleResult::Lost);
    assert_eq!(ctx.battle_result(Player::Me), BattleResult::Lost);
    assert_eq!(ctx.battle_result(Player::You), BattleResult::Won);
}
// ----- Wins by effect -----
#[test]
fn some_creatures_win_whatever_the_strengths() {
    let ctx = context(
        (Creature::Rogue, Edict::Ambush),
        (Creature::Monarch, Edict::Gambit),
        Battlefield::Plains,
    );
    assert!(ctx.wins_by_effect(Player::Me));
    assert!(!ctx.wins_by_effect(Player::You));
    assert_eq!(ctx.battle_result(Player::Me), BattleResult::Won);
    assert_eq!(ctx.battle_result(Player::You), BattleResult::Lost);

    let ctx = context(
        (Creature::Wall, Edict::Ambush),
        (Creature::Witch, Edict::Gambit),
        Battlefield::Plains,
    );
    assert!(ctx.wins_by_effect(Player::You));
    assert_eq!(ctx.battle_result(Player::Me), BattleResult::Lost);

    let ctx = context(
        (Creature::Diplomat, Edict::Ambush),
        (Creature::Monarch, Edict::Ambush),
        Battlefield::Plains,
    );
    assert!(ctx.wins_by_effect(Player::Me));

    // Against the witch the diplomat's ability is gone.
    let ctx = context(
        (Creature::Diplomat, Edict::Ambush),
        (Creature::Witch, Edict::Ambush),
        Battlefield::Plains,
    );
    assert!(!ctx.wins_by_effect(Player::Me));
}

#[test]
fn the_wall_forces_a_tie() {
    let ctx = context(
        (Creature::Wall, Edict::Ambush),
        (Creature::Monarch, Edict::RileThePublic),
        Battlefield::Plains,
    );
    assert_eq!(ctx.battle_result(Player::Me), BattleResult::Tied);
    assert_eq!(ctx.battle_result(Player::You), BattleResult::Tied);

    let ctx = context(
        (Creature::Wall, Edict::Ambush),
        (Creature::Monarch, Edict::Gambit),
        Battlefield::Plains,
    );
    assert_eq!(ctx.battle_result(Player::Me), BattleResult::Won);
    assert_eq!(ctx.battle_result(Player::You), BattleResult::Lost);
}
// ----- Rewards -----
#[test]
fn edicts_change_what_the_battle_is_worth() {
    let ctx = context(
        (Creature::Steward, Edict::RileThePublic),
        (Creature::Bard, Edict::DivertAttention),
        Battlefield::LastStrand,
    );
    // The steward doubles the riling; the diversion is lost on a riled
    // public.
    assert_eq!(ctx.edict_reward(Player::Me), 2);
    assert_eq!(ctx.edict_reward(Player::You), 0);
    assert_eq!(ctx.battle_reward(Player::Me), 7);
    assert_eq!(ctx.battle_reward(Player::You), 7);

    let ctx = context(
        (Creature::Steward, Edict::DivertAttention),
        (Creature::Bard, Edict::DivertAttention),
        Battlefield::Urban,
    );
    assert_eq!(ctx.edict_reward(Player::Me), -3);
    assert_eq!(ctx.edict_reward(Player::You), -2);
    // Three minus five is not below nought.
    assert_eq!(ctx.battle_reward(Player::Me), 0);
}

#[test]
fn both_views_of_a_battle_agree() {
    let carried = [
        vec![],
        vec![PlayerStatusEffect::Glade],
        vec![PlayerStatusEffect::Night],
        vec![PlayerStatusEffect::Bard],
        vec![PlayerStatusEffect::Glade, PlayerStatusEffect::Bard],
    ];
    for me in Creature::CREATURES {
        for you in Creature::CREATURES {
            if me == you {
                continue;
            }
            for my_edict in Edict::EDICTS {
                for your_edict in Edict::EDICTS {
                    for battlefield in [
                        Battlefield::Mountain,
                        Battlefield::Glade,
                        Battlefield::Urban,
                        Battlefield::LastStrand,
                        Battlefield::Night,
                        Battlefield::Plains,
                    ] {
                        for mine in &carried {
                            for yours in &carried {
                                let mut ctx =
                                    context((me, my_edict), (you, your_edict), battlefield);
                                for effect in mine {
                                    ctx.add_effect(Player::Me, *effect);
                                }
                                for effect in yours {
                                    ctx.add_effect(Player::You, *effect);
                                }
                                let result = ctx.battle_result(Player::Me);
                                assert_eq!(result, ctx.battle_result(Player::You).not());
                                for result in
                                    [BattleResult::Lost, BattleResult::Tied, BattleResult::Won]
                                {
                                    assert_eq!(
                                        ctx.battle_score_delta(result, Player::Me),
                                        -ctx.battle_score_delta(result.not(), Player::You)
                                    );
                                }
                            }
                        }
                    }
                }
            }
        }
    }
}

#[test]
fn a_battle_moves_the_score_by_what_it_is_worth_to_the_winner() {
    let mut ctx = basic_battle_context();
    ctx.add_effect(Player::Me, PlayerStatusEffect::Glade);

    // To me the battle is worth five, to you three.
    assert_eq!(ctx.battle_reward(Player::Me), 5);
    assert_eq!(ctx.battle_reward(Player::You), 3);

    // If I win, I gain five and you lose five.
    assert_eq!(ctx.battle_score_delta(BattleResult::Won, Player::Me), 5);
    assert_eq!(ctx.battle_score_delta(BattleResult::Lost, Player::You), -5);
    // If you win, you gain three and I lose three.
    assert_eq!(ctx.battle_score_delta(BattleResult::Won, Player::You), 3);
    assert_eq!(ctx.battle_score_delta(BattleResult::Lost, Player::Me), -3);
    // A tie moves nothing.
    assert_eq!(ctx.battle_score_delta(BattleResult::Tied, Player::Me), 0);
    assert_eq!(ctx.battle_score_delta(BattleResult::Tied, Player::You), 0);
}

#[test]
fn the_glade_pays_on_the_next_battle_won() {
    // The second turn: I won in the glade, and now send the monarch
    // against the bard on the plains.
    let mut ctx = context(
        (Creature::Monarch, Edict::Ambush),
        (Creature::Bard, Edict::Ambush),
        Battlefield::Plains,
    );
    ctx.state.battlefields.current = 1;
    ctx.state.score = Score(3);
    ctx.add_effect(Player::Me, PlayerStatusEffect::Glade);

    let (result, turn) = ctx.advance_known_state();
    assert_eq!(result, BattleResult::Won);
    let next = turn.get_unfinished().unwrap();
    assert_eq!(next.score, Score(8));
    assert_eq!(next.battlefields.current, 2);
    assert_eq!(next.player_states.0.effects, StatusEffectSet::default());

    // The other way round the bard loses to the monarch, who carries
    // nothing: the battle is worth three, and I lose three.
    let mut ctx = context(
        (Creature::Bard, Edict::Ambush),
        (Creature::Monarch, Edict::Ambush),
        Battlefield::Plains,
    );
    ctx.state.battlefields.current = 1;
    ctx.state.score = Score(3);
    ctx.add_effect(Player::Me, PlayerStatusEffect::Glade);

    let (result, turn) = ctx.advance_known_state();
    assert_eq!(result, BattleResult::Lost);
    assert_eq!(turn.get_unfinished().unwrap().score, Score(0));
}

#[test]
fn the_same_creature_on_both_sides_can_win_twice() {
    // No creature exists twice; where one is set on both sides all the
    // same, the diplomat beats the diplomat from either side.
    let ctx = context(
        (Creature::Diplomat, Edict::Ambush),
        (Creature::Diplomat, Edict::Ambush),
        Battlefield::Plains,
    );
    assert_eq!(ctx.battle_result(Player::Me), BattleResult::Won);
    assert_eq!(ctx.battle_result(Player::You), BattleResult::Won);
}
// ----- Small things -----
#[test]
fn effects_can_be_changed_in_place() {
    let mut ctx = basic_battle_context();
    ctx.player_effects_mut(Player::You).add(PlayerStatusEffect::Night);
    assert!(ctx.player_effects(Player::You).has(PlayerStatusEffect::Night));
    assert!(!ctx.player_effects(Player::Me).has(PlayerStatusEffect::Night));
    ctx.player_effects_mut(Player::You).clear();
    assert_eq!(ctx, basic_battle_context());
}

#[test]
fn battle_results_negate() {
    assert_eq!(BattleResult::Won.not(), BattleResult::Lost);
    assert_eq!(BattleResult::Lost.not(), BattleResult::Won);
    assert_eq!(BattleResult::Tied.not(), BattleResult::Tied);
}

#[test]
fn the_context_hands_out_what_it_holds() {
    let mut ctx = basic_battle_context();
    ctx.add_effect(Player::You, PlayerStatusEffect::Bard);
    ctx.set_battlefield(Battlefield::Night);

    assert_eq!(
        ctx.main_choice(Player::Me),
        FinalMainPhaseChoice::new(Creature::Mercenary, Edict::Gambit)
    );
    assert_eq!(ctx.creature(Player::You), Creature::Seer);
    assert_eq!(ctx.edict(Player::You), Edict::Gambit);
    assert!(ctx.player_effects(Player::You).has(PlayerStatusEffect::Bard));
    assert!(!ctx.player_effects(Player::Me).has(PlayerStatusEffect::Bard));
    assert_eq!(ctx.battlefield(), Battlefield::Night);
    // At night the seer fights better.
    assert!(ctx.battlefield_bonus(Player::You));
    assert!(!ctx.battlefield_bonus(Player::Me));
    assert_eq!(
        ctx.state.player_states,
        (
            KnownPlayerState::default(),
            KnownPlayerState {
                edicts: EdictSet::all(),
                effects: {
                    let mut effects = StatusEffectSet::default();
                    effects.add(PlayerStatusEffect::Bard);
                    effects
                },
            }
        )
    );
}
