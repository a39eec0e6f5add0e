use echo_cfr::game::battlefield::{Battlefield, Battlefields};
use echo_cfr::game::creature::{Creature, CreatureSet};
use echo_cfr::game::edict::{Edict, EdictSet};
use echo_cfr::game::known_state::{KnownPlayerState, KnownState, TurnResult};
use echo_cfr::game::status_effect::{StatusEffect, StatusEffectSet};
use echo_cfr::game::types::{Player, Score};

const FIELDS: [Battlefield; 4] = [
    Battlefield::Plains,
    Battlefield::Mountain,
    Battlefield::LastStrand,
    Battlefield::Plains,
];

#[test]
fn a_game_starts_even() {
    let state = KnownState::new_starting(FIELDS);

    assert_eq!(state.battlefields, Battlefields { all: FIELDS, current: 0 });
    assert_eq!(state.score, Score(0));
    assert_eq!(state.graveyard(), CreatureSet::new(0));
    assert_eq!(state.edict_sets(), (EdictSet::all(), EdictSet::all()));
    assert_eq!(state.player_edicts(Player::You), EdictSet::all());
    assert_eq!(
        state.player_states.0,
        KnownPlayerState { edicts: EdictSet::all(), effects: StatusEffectSet::default() }
    );
    assert_eq!(state.seer_player(), None);
    assert!(state.is_symmetrical());
}

#[test]
fn symmetry_ends_with_any_difference() {
    let start = KnownState::new_starting(FIELDS);

    let mut state = start;
    state.battlefields.current = 1;
    assert!(!state.is_symmetrical());

    let mut state = start;
    state.score = Score(1);
    assert!(!state.is_symmetrical());

    let mut state = start;
    state.player_states.1.edicts.remove(Edict::Ambush);
    assert!(!state.is_symmetrical());
    state.player_states.0.edicts.remove(Edict::Ambush);
    assert!(state.is_symmetrical());

    let mut state = start;
    state.player_states.0.effects.add(StatusEffect::Night);
    assert!(!state.is_symmetrical());
}

#[test]
fn the_score_changes_sign_with_the_player() {
    let mut state = KnownState::new_starting(FIELDS);
    state.score = Score(-7);

    assert_eq!(state.score(Player::Me), Score(-7));
    assert_eq!(state.score(Player::You), Score(7));
}

#[test]
fn the_seer_player_is_me_before_you() {
    let mut state = KnownState::new_starting(FIELDS);
    state.player_states.1.effects.add(StatusEffect::Seer);
    assert_eq!(state.seer_player(), Some(Player::You));
    state.player_states.0.effects.add(StatusEffect::Seer);
    assert_eq!(state.seer_player(), Some(Player::Me));
}

#[test]
fn a_win_is_guaranteed_past_the_most_the_opponent_can_gain() {
    // From the start: 3 + 3 + 5 + 3 for the battlefields, one for the
    // edict, two for the steward.
    let mut state = KnownState::new_starting(FIELDS);
    state.score = Score(17);
    assert!(!state.guaranteed_win(Player::Me));
    state.score = Score(18);
    assert!(state.guaranteed_win(Player::Me));
    assert!(!state.guaranteed_win(Player::You));
    state.score = Score(-18);
    assert!(state.guaranteed_win(Player::You));
    state.score = Score(-128);
    assert!(state.guaranteed_win(Player::You));
}

#[test]
fn what_the_opponent_can_gain_shrinks_as_the_game_goes_on() {
    let mut state = KnownState::new_starting([
        Battlefield::Urban,
        Battlefield::Glade,
        Battlefield::Night,
        Battlefield::Plains,
    ]);
    // 12 for the battlefields, 1 + 1 + 2 for riling, 2 for the glade and 1
    // for the night.
    state.score = Score(19);
    assert!(!state.guaranteed_win(Player::Me));
    state.score = Score(20);
    assert!(state.guaranteed_win(Player::Me));

    // On the last battlefield: 3, and one for a steward that can no longer
    // hand the edict back; you no longer hold the edict.
    state.battlefields.current = 3;
    state.player_states.1.edicts.remove(Edict::RileThePublic);
    state.score = Score(4);
    assert!(!state.guaranteed_win(Player::Me));
    state.score = Score(5);
    assert!(state.guaranteed_win(Player::Me));

    // Without the steward nothing but the battlefield is left.
    state.graveyard.add(Creature::Steward);
    state.score = Score(3);
    assert!(!state.guaranteed_win(Player::Me));
    state.score = Score(4);
    assert!(state.guaranteed_win(Player::Me));

    // Lingering effects of the opponent count.
    state.player_states.1.effects.add(StatusEffect::Glade);
    state.player_states.1.effects.add(StatusEffect::Night);
    state.score = Score(6);
    assert!(!state.guaranteed_win(Player::Me));
    state.score = Score(7);
    assert!(state.guaranteed_win(Player::Me));
    // Those of the player do not: I can still gain the battlefield's three
    // and one for the edict I hold.
    state.score = Score(-4);
    assert!(!state.guaranteed_win(Player::You));
    state.score = Score(-5);
    assert!(state.guaranteed_win(Player::You));
}

#[test]
fn battlefields_move_on_three_times() {
    let fields = Battlefields::new(FIELDS);
    assert_eq!(fields.current(), Battlefield::Plains);
    assert_eq!(fields.active(), FIELDS.to_vec());
    assert_eq!(fields.active_reward(), 14);
    assert!(fields.will_be_active(Battlefield::Mountain));
    assert!(!fields.will_be_active(Battlefield::Night));

    let fields = fields.next().unwrap().next().unwrap();
    assert_eq!(fields.current, 2);
    assert_eq!(fields.current(), Battlefield::LastStrand);
    assert_eq!(
        fields.active(),
        vec![Battlefield::LastStrand, Battlefield::Plains]
    );
    assert_eq!(fields.active_reward(), 8);
    assert!(!fields.will_be_active(Battlefield::Mountain));

    let fields = fields.next().unwrap();
    assert_eq!(fields.next(), None);
}

#[test]
fn battlefields_favour_their_creatures() {
    assert!(Battlefield::Mountain.bonus(Creature::Barbarian));
    assert!(!Battlefield::Mountain.bonus(Creature::Bard));
    assert!(Battlefield::Glade.bonus(Creature::Witch));
    assert!(Battlefield::Urban.bonus(Creature::Steward));
    assert!(Battlefield::Night.bonus(Creature::Seer));
    for creature in Creature::CREATURES {
        assert!(!Battlefield::Plains.bonus(creature));
        assert!(!Battlefield::LastStrand.bonus(creature));
    }
    assert_eq!(Battlefield::LastStrand.reward(), 5);
    assert_eq!(Battlefield::Plains.reward(), 3);
}

#[test]
fn a_turn_result_knows_whether_the_game_goes_on() {
    assert_eq!(TurnResult::Unfinished(5u8).get_unfinished(), Some(5));
    assert_eq!(TurnResult::<u8>::Finished(Score(2)).get_unfinished(), None);
}
