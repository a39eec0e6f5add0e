use echo_cfr::cfr::reveal_index::RevealIndex;
use echo_cfr::game::creature::{Creature, CreatureSet};
use echo_cfr::game::edict::{Edict, EdictSet};
use echo_cfr::game::types::Player;

#[test]
fn sabotage_decode_encode_inverses() {
    // Test with an arbitrary amount of graveyard configurations
    // (checking all of them would take too long).
    for graveyard in 0..1000 {
        let graveyard = CreatureSet::new(graveyard);
        for seer_player in Player::PLAYERS {
            for first_sabotage_creature in Creature::CREATURES {
                for first_sabotage_status in [false, true] {
                    let first_sabotage =
                        Some(first_sabotage_creature).filter(|_| first_sabotage_status);

                    if first_sabotage_status && graveyard.has(first_sabotage_creature) {
                        continue;
                    }

                    for second_sabotage_creature in Creature::CREATURES {
                        for second_sabotage_status in [false, true] {
                            let second_sabotage = Some(second_sabotage_creature)
                                .filter(|_| second_sabotage_status);

                            if second_sabotage_status && graveyard.has(second_sabotage_creature)
                            {
                                continue;
                            }

                            for revealed_creature in Creature::CREATURES {
                                if graveyard.has(revealed_creature) {
                                    continue;
                                }

                                let non_seer_player_sabotage = seer_player
                                    .not()
                                    .select((first_sabotage, second_sabotage));

                                // The non seer player revealed `reveal_creature`, and would
                                // have no reason to sabotage their own creature.
                                if non_seer_player_sabotage == Some(revealed_creature) {
                                    continue;
                                }

                                let sabotage_choices = (first_sabotage, second_sabotage);

                                let encoded = RevealIndex::encode_sabotage_phase_reveal(
                                    sabotage_choices,
                                    seer_player,
                                    revealed_creature,
                                    graveyard,
                                )
                                .unwrap();

                                let count = RevealIndex::sabotage_phase_count(
                                    (first_sabotage_status, second_sabotage_status),
                                    seer_player,
                                    graveyard,
                                );

                                assert!(encoded.0 < count, "Encoded value was {}, even though the total count was supposed to be {}", encoded.0, count);

                                let decoded = encoded.decode_sabotage_phase_reveal(
                                    (first_sabotage_status, second_sabotage_status),
                                    seer_player,
                                    graveyard,
                                );

                                assert_eq!(
                                    decoded,
                                    Some((sabotage_choices, revealed_creature))
                                );
                            }
                        }
                    }
                }
            }
        }
    }
}

#[test]
fn main_phase_reveal_has_its_exact_value() {
    let mut mine = EdictSet::all();
    mine.remove(Edict::Sabotage);
    let yours = EdictSet::all();

    // Mine: gambit is the first of four; yours: rile the public is the
    // fourth of five: 3 * 4 + 0.
    let encoded = RevealIndex::encode_main_phase_reveal(
        (Edict::Gambit, Edict::RileThePublic),
        (mine, yours),
    );
    assert_eq!(encoded, Some(RevealIndex(12)));
    assert_eq!(
        RevealIndex(12).decode_main_phase_reveal((mine, yours)),
        Some((Edict::Gambit, Edict::RileThePublic))
    );
    assert_eq!(RevealIndex::main_phase_count((mine, yours)), 20);
}

#[test]
fn main_phase_reveals_fill_the_count_exactly() {
    for first_bits in 0..32u16 {
        for second_bits in 0..32u16 {
            let edicts = (EdictSet::new(first_bits), EdictSet::new(second_bits));
            let count = RevealIndex::main_phase_count(edicts);
            assert_eq!(
                count,
                (first_bits.count_ones() * second_bits.count_ones()) as usize
            );

            for index in 0..count {
                let choices = RevealIndex(index).decode_main_phase_reveal(edicts).unwrap();
                assert!(edicts.0.has(choices.0));
                assert!(edicts.1.has(choices.1));
                assert_eq!(
                    RevealIndex::encode_main_phase_reveal(choices, edicts),
                    Some(RevealIndex(index))
                );
            }
            assert_eq!(RevealIndex(count).decode_main_phase_reveal(edicts), None);
            assert_eq!(RevealIndex(usize::MAX).decode_main_phase_reveal(edicts), None);
        }
    }
}

#[test]
fn main_phase_reveal_refuses_an_edict_that_is_not_in_hand() {
    let mut mine = EdictSet::all();
    mine.remove(Edict::Ambush);
    let yours = EdictSet::all();

    assert_eq!(
        RevealIndex::encode_main_phase_reveal((Edict::Ambush, Edict::Gambit), (mine, yours)),
        None
    );
    assert_eq!(
        RevealIndex::encode_main_phase_reveal((Edict::Gambit, Edict::Ambush), (yours, mine)),
        None
    );
}

#[test]
fn sabotage_reveal_has_its_exact_value() {
    let mut graveyard = CreatureSet::default();
    graveyard.add(Creature::Wall);
    // Ten creatures are left; the seer is the first of them.
    // Me is the player without the seer and guesses the rogue, so the
    // revealed bard is the second of the nine creatures other than the
    // rogue: base 1. The rogue is the second of ten: 1 * 10 + 1 = 11.
    // You guesses the monarch, the tenth of ten: 11 * 10 + 9 = 119.
    let encoded = RevealIndex::encode_sabotage_phase_reveal(
        (Some(Creature::Rogue), Some(Creature::Monarch)),
        Player::You,
        Creature::Bard,
        graveyard,
    );
    assert_eq!(encoded, Some(RevealIndex(119)));
    assert_eq!(
        RevealIndex(119).decode_sabotage_phase_reveal((true, true), Player::You, graveyard),
        Some((
            (Some(Creature::Rogue), Some(Creature::Monarch)),
            Creature::Bard
        ))
    );
    assert_eq!(
        RevealIndex::sabotage_phase_count((true, true), Player::You, graveyard),
        9 * 10 * 10
    );
    assert_eq!(
        RevealIndex::sabotage_phase_count((true, true), Player::Me, graveyard),
        9 * 10 * 10
    );
    assert_eq!(
        RevealIndex::sabotage_phase_count((false, true), Player::You, graveyard),
        10 * 10
    );
    assert_eq!(
        RevealIndex::sabotage_phase_count((false, true), Player::Me, graveyard),
        9 * 10
    );
    assert_eq!(
        RevealIndex::sabotage_phase_count((false, false), Player::Me, graveyard),
        10
    );
}

#[test]
fn sabotage_reveal_refuses_what_is_not_legal() {
    let mut graveyard = CreatureSet::default();
    graveyard.add(Creature::Witch);

    // The revealed creature is in the graveyard.
    assert_eq!(
        RevealIndex::encode_sabotage_phase_reveal(
            (None, None),
            Player::Me,
            Creature::Witch,
            graveyard
        ),
        None
    );
    // A guess is in the graveyard.
    assert_eq!(
        RevealIndex::encode_sabotage_phase_reveal(
            (Some(Creature::Witch), None),
            Player::Me,
            Creature::Bard,
            graveyard
        ),
        None
    );
    assert_eq!(
        RevealIndex::encode_sabotage_phase_reveal(
            (None, Some(Creature::Witch)),
            Player::Me,
            Creature::Bard,
            graveyard
        ),
        None
    );
    // The player without the seer guesses the creature they revealed.
    assert_eq!(
        RevealIndex::encode_sabotage_phase_reveal(
            (None, Some(Creature::Bard)),
            Player::Me,
            Creature::Bard,
            graveyard
        ),
        None
    );
    // The player with the seer may guess it.
    assert!(RevealIndex::encode_sabotage_phase_reveal(
        (Some(Creature::Bard), None),
        Player::Me,
        Creature::Bard,
        graveyard
    )
    .is_some());
}

#[test]
fn sabotage_reveals_fill_the_count_exactly() {
    for graveyard in [0u16, 1, 0b101_0101_0101, 0b011_1111_1111, 0b111_1111_1111] {
        let graveyard = CreatureSet::new(graveyard);
        for seer_player in Player::PLAYERS {
            for statuses in [(false, false), (false, true), (true, false), (true, true)] {
                let count = RevealIndex::sabotage_phase_count(statuses, seer_player, graveyard);

                for index in 0..count {
                    let (choices, revealed) = RevealIndex(index)
                        .decode_sabotage_phase_reveal(statuses, seer_player, graveyard)
                        .unwrap();

                    assert_eq!((choices.0.is_some(), choices.1.is_some()), statuses);
                    assert!(!graveyard.has(revealed));
                    for guess in [choices.0, choices.1].into_iter().flatten() {
                        assert!(!graveyard.has(guess));
                    }
                    assert_ne!(seer_player.not().select(choices), Some(revealed));

                    assert_eq!(
                        RevealIndex::encode_sabotage_phase_reveal(
                            choices,
                            seer_player,
                            revealed,
                            graveyard
                        ),
                        Some(RevealIndex(index))
                    );
                }

                for index in [count, count + 1, usize::MAX] {
                    assert_eq!(
                        RevealIndex(index).decode_sabotage_phase_reveal(
                            statuses,
                            seer_player,
                            graveyard
                        ),
                        None
                    );
                }
            }
        }
    }
}

#[test]
fn seer_reveal_has_its_exact_value() {
    let mut graveyard = CreatureSet::default();
    graveyard.add(Creature::Wall);
    graveyard.add(Creature::Rogue);

    // Left without the revealed bard: seer, diplomat, ranger, ...
    assert_eq!(
        RevealIndex::encode_seer_phase_reveal(Creature::Ranger, graveyard, Creature::Bard),
        Some(RevealIndex(2))
    );
    assert_eq!(
        RevealIndex(2).decode_seer_phase_reveal(graveyard, Creature::Bard),
        Some(Creature::Ranger)
    );
    assert_eq!(RevealIndex::seer_phase_count(graveyard), 8);
    assert_eq!(RevealIndex::seer_phase_count(CreatureSet::all()), 0);
}

#[test]
fn seer_reveal_refuses_what_is_not_legal() {
    let mut graveyard = CreatureSet::default();
    graveyard.add(Creature::Wall);

    assert_eq!(
        RevealIndex::encode_seer_phase_reveal(Creature::Wall, graveyard, Creature::Bard),
        None
    );
    assert_eq!(
        RevealIndex::encode_seer_phase_reveal(Creature::Bard, graveyard, Creature::Bard),
        None
    );
}

#[test]
fn seer_reveals_fill_the_count_exactly() {
    for graveyard in 0..2048u16 {
        let graveyard = CreatureSet::new(graveyard);
        for revealed in Creature::CREATURES {
            if graveyard.has(revealed) {
                continue;
            }
            let count = RevealIndex::seer_phase_count(graveyard);
            for index in 0..count {
                let creature = RevealIndex(index)
                    .decode_seer_phase_reveal(graveyard, revealed)
                    .unwrap();
                assert!(!graveyard.has(creature));
                assert_ne!(creature, revealed);
                assert_eq!(
                    RevealIndex::encode_seer_phase_reveal(creature, graveyard, revealed),
                    Some(RevealIndex(index))
                );
            }
            assert_eq!(
                RevealIndex(count).decode_seer_phase_reveal(graveyard, revealed),
                None
            );
        }
    }
}
