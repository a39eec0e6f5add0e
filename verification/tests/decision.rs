use echo_cfr::cfr::decision::DecisionIndex;
use echo_cfr::game::creature::{Creature, CreatureChoice, CreatureIndex, CreatureSet};
use echo_cfr::game::edict::{Edict, EdictIndex, EdictSet};

#[test]
fn encode_decode_main_inverses_seer() {
    for creature_choice in 0..100 {
        for edicts_len in 1..5 {
            for edict in 0..edicts_len {
                let encoded = DecisionIndex::encode_main_phase_index(
                    CreatureChoice(creature_choice),
                    EdictIndex(edict),
                    edicts_len,
                );

                let decoded = encoded.decode_main_phase_index(edicts_len);

                assert_eq!(
                    decoded,
                    (CreatureChoice(creature_choice), EdictIndex(edict))
                );
            }
        }
    }
}

#[test]
fn encode_decode_main_user_inverses_seer() {
    let mut edicts = EdictSet::all();
    edicts.0.remove(Edict::DivertAttention as u8);

    let mut graveyard = CreatureSet::all().others();
    graveyard.0.add(Creature::Seer as u8);
    graveyard.0.add(Creature::Steward as u8);

    for creature_one in Creature::CREATURES {
        for creature_two in Creature::CREATURES {
            if creature_one <= creature_two
                || graveyard.has(creature_one)
                || graveyard.has(creature_two)
            {
                continue;
            };

            for edict in Edict::EDICTS {
                if !edicts.has(edict) {
                    continue;
                };

                let encoded = DecisionIndex::encode_main_phase_index_user(
                    (creature_one, Some(creature_two)),
                    edict,
                    edicts,
                    graveyard,
                );

                let decoded = encoded.and_then(|encoded| {
                    encoded.decode_main_phase_index_user(edicts, graveyard, true)
                });

                assert_eq!(
                    decoded,
                    Some((creature_one, Some(creature_two), edict)),
                    "The edicts are {:?}, and the current one is {:?} (represented as {}).
                        ",
                    edicts,
                    edict,
                    edict as u8
                );
            }
        }
    }
}

#[test]
fn main_phase_index_is_creatures_times_count_plus_edict() {
    let encoded =
        DecisionIndex::encode_main_phase_index(CreatureChoice(7), EdictIndex(2), 5);
    assert_eq!(encoded, DecisionIndex(37));
    assert_eq!(
        DecisionIndex(37).decode_main_phase_index(5),
        (CreatureChoice(7), EdictIndex(2))
    );
}

#[test]
fn main_phase_index_decode_drops_the_upper_bits_of_the_creature_choice() {
    // 300 * 2 + 1: the creature choice 300 does not fit in a byte.
    assert_eq!(
        DecisionIndex(601).decode_main_phase_index(2),
        (CreatureChoice(44), EdictIndex(1))
    );
}

#[test]
fn user_index_of_a_single_creature_has_its_exact_value() {
    // Nothing is in the graveyard, all edicts are in hand. The monarch is
    // the last creature (nothing after it), the gambit has three edicts
    // after it.
    let edicts = EdictSet::all();
    let graveyard = CreatureSet::default();
    assert_eq!(
        DecisionIndex::encode_main_phase_index_user(
            (Creature::Monarch, None),
            Edict::Gambit,
            edicts,
            graveyard
        ),
        Some(DecisionIndex(3))
    );
    // The wall has ten creatures after it: 10 * 5 + 4.
    assert_eq!(
        DecisionIndex::encode_main_phase_index_user(
            (Creature::Wall, None),
            Edict::Sabotage,
            edicts,
            graveyard
        ),
        Some(DecisionIndex(54))
    );
    assert_eq!(
        DecisionIndex(54).decode_main_phase_index_user(edicts, graveyard, false),
        Some((Creature::Wall, None, Edict::Sabotage))
    );
}

#[test]
fn user_index_of_two_creatures_has_its_exact_value() {
    let edicts = EdictSet::all();
    let graveyard = CreatureSet::default();
    // Mercenary is 1 from the end, witch is 2 from the end: the pair
    // {1, 2} has number 2 * 1 / 2 + 1 = 2; divert attention is the last
    // edict: 2 * 5 + 0.
    assert_eq!(
        DecisionIndex::encode_main_phase_index_user(
            (Creature::Mercenary, Some(Creature::Witch)),
            Edict::DivertAttention,
            edicts,
            graveyard
        ),
        Some(DecisionIndex(10))
    );
}

#[test]
fn user_index_takes_two_creatures_in_either_order() {
    let edicts = EdictSet::all();
    let graveyard = CreatureSet::default();
    let one = DecisionIndex::encode_main_phase_index_user(
        (Creature::Bard, Some(Creature::Witch)),
        Edict::Ambush,
        edicts,
        graveyard,
    );
    let other = DecisionIndex::encode_main_phase_index_user(
        (Creature::Witch, Some(Creature::Bard)),
        Edict::Ambush,
        edicts,
        graveyard,
    );
    assert!(one.is_some());
    assert_eq!(one, other);
    assert_eq!(
        one.unwrap()
            .decode_main_phase_index_user(edicts, graveyard, true),
        Some((Creature::Witch, Some(Creature::Bard), Edict::Ambush))
    );
}

#[test]
fn user_index_refuses_what_is_not_legal() {
    let mut edicts = EdictSet::all();
    edicts.remove(Edict::Gambit);
    let mut graveyard = CreatureSet::default();
    graveyard.add(Creature::Rogue);

    // An edict that is not in hand.
    assert_eq!(
        DecisionIndex::encode_main_phase_index_user(
            (Creature::Bard, None),
            Edict::Gambit,
            edicts,
            graveyard
        ),
        None
    );
    // A creature in the graveyard, first or second.
    assert_eq!(
        DecisionIndex::encode_main_phase_index_user(
            (Creature::Rogue, None),
            Edict::Ambush,
            edicts,
            graveyard
        ),
        None
    );
    assert_eq!(
        DecisionIndex::encode_main_phase_index_user(
            (Creature::Bard, Some(Creature::Rogue)),
            Edict::Ambush,
            edicts,
            graveyard
        ),
        None
    );
    // The same creature twice.
    assert_eq!(
        DecisionIndex::encode_main_phase_index_user(
            (Creature::Bard, Some(Creature::Bard)),
            Edict::Ambush,
            edicts,
            graveyard
        ),
        None
    );
}

#[test]
fn user_indices_fill_the_count_exactly() {
    let mut edicts = EdictSet::all();
    edicts.remove(Edict::Sabotage);
    let mut graveyard = CreatureSet::default();
    graveyard.add(Creature::Wall);
    graveyard.add(Creature::Monarch);
    graveyard.add(Creature::Bard);

    for seer_active in [false, true] {
        let count = DecisionIndex::main_phase_count(edicts, graveyard, seer_active);
        // Eight creatures are left and four edicts.
        assert_eq!(count, if seer_active { 28 * 4 } else { 8 * 4 });

        for index in 0..count {
            let (first, second, edict) = DecisionIndex(index)
                .decode_main_phase_index_user(edicts, graveyard, seer_active)
                .unwrap();
            assert_eq!(second.is_some(), seer_active);
            assert_eq!(
                DecisionIndex::encode_main_phase_index_user(
                    (first, second),
                    edict,
                    edicts,
                    graveyard
                ),
                Some(DecisionIndex(index))
            );
        }

        for index in [count, count + 1, 255 * 4, 256 * 4, 256 * 4 + 1, usize::MAX] {
            assert_eq!(
                DecisionIndex(index).decode_main_phase_index_user(edicts, graveyard, seer_active),
                None
            );
        }
    }
}

#[test]
fn user_index_decodes_nothing_without_edicts() {
    let edicts = EdictSet::new(0);
    let graveyard = CreatureSet::default();
    assert_eq!(DecisionIndex::main_phase_count(edicts, graveyard, false), 0);
    assert_eq!(
        DecisionIndex(0).decode_main_phase_index_user(edicts, graveyard, false),
        None
    );
}

#[test]
fn creature_choice_numbers_unordered_pairs() {
    // {0, 1} -> 0, {0, 2} -> 1, {1, 2} -> 2, {0, 3} -> 3, ...
    assert_eq!(
        CreatureChoice::encode_two(CreatureIndex(0), CreatureIndex(1)),
        Some(CreatureChoice(0))
    );
    assert_eq!(
        CreatureChoice::encode_two(CreatureIndex(2), CreatureIndex(1)),
        Some(CreatureChoice(2))
    );
    assert_eq!(
        CreatureChoice::encode_two(CreatureIndex(0), CreatureIndex(3)),
        Some(CreatureChoice(3))
    );
    assert_eq!(
        CreatureChoice::encode_two(CreatureIndex(4), CreatureIndex(4)),
        None
    );
    // 23 * 22 / 2 + 3 = 256 no longer fits in a byte.
    assert_eq!(
        CreatureChoice::encode_two(CreatureIndex(3), CreatureIndex(23)),
        None
    );
    assert_eq!(
        CreatureChoice::encode_two(CreatureIndex(2), CreatureIndex(23)),
        Some(CreatureChoice(255))
    );
    for code in 0..=255u8 {
        let (low, high) = CreatureChoice(code).decode_two();
        assert!(low < high);
        assert_eq!(
            CreatureChoice::encode_two(high, low),
            Some(CreatureChoice(code))
        );
    }
    assert_eq!(
        CreatureChoice::encode_one(CreatureIndex(9)).decode_one(),
        CreatureIndex(9)
    );
}
