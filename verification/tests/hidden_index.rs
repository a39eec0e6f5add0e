use echo_cfr::cfr::decision::HiddenIndex;
use echo_cfr::game::creature::{Creature, CreatureSet};
use echo_cfr::helpers::binomial::binomial_coefficient;

#[test]
fn binomial_coefficients_follow_pascal() {
    assert_eq!(binomial_coefficient(0, 0), 1);
    assert_eq!(binomial_coefficient(0, 1), 0);
    assert_eq!(binomial_coefficient(5, 0), 1);
    assert_eq!(binomial_coefficient(5, 2), 10);
    assert_eq!(binomial_coefficient(5, 5), 1);
    assert_eq!(binomial_coefficient(5, 6), 0);
    assert_eq!(binomial_coefficient(11, 5), 462);
    assert_eq!(binomial_coefficient(16, 8), 12870);
    assert_eq!(binomial_coefficient(16, 255), 0);
    for n in 1..=16u8 {
        for k in 1..=n {
            assert_eq!(
                binomial_coefficient(n, k),
                binomial_coefficient(n - 1, k - 1) + binomial_coefficient(n - 1, k)
            );
        }
    }
}

#[test]
fn hand_contents_have_their_exact_value() {
    let mut graveyard = CreatureSet::default();
    graveyard.add(Creature::Wall);
    graveyard.add(Creature::Bard);
    // Outside the graveyard: seer 0, rogue 1, diplomat 2, ranger 3,
    // steward 4, ...
    let mut hand = CreatureSet::default();
    assert_eq!(HiddenIndex::encode_hand_contents(hand, graveyard), Some(0));

    // A single creature has the number of its place.
    hand.add(Creature::Ranger);
    assert_eq!(HiddenIndex::encode_hand_contents(hand, graveyard), Some(3));

    // {1, 3}: C(1, 1) + C(3, 2) = 1 + 3.
    hand.add(Creature::Rogue);
    assert_eq!(HiddenIndex::encode_hand_contents(hand, graveyard), Some(4));

    // {1, 3, 4}: 1 + 3 + C(4, 3) = 8.
    hand.add(Creature::Steward);
    assert_eq!(HiddenIndex::encode_hand_contents(hand, graveyard), Some(8));
    assert_eq!(
        HiddenIndex::decode_hand_contents(8, 3, graveyard),
        Some(hand)
    );
    assert_eq!(HiddenIndex::hand_contents_count(3, graveyard), 84);
    assert_eq!(HiddenIndex::hand_contents_count(0, graveyard), 1);
    assert_eq!(HiddenIndex::hand_contents_count(9, graveyard), 1);
    assert_eq!(HiddenIndex::hand_contents_count(10, graveyard), 0);
}

#[test]
fn hand_contents_refuse_a_creature_from_the_graveyard() {
    let mut graveyard = CreatureSet::default();
    graveyard.add(Creature::Witch);
    let mut hand = CreatureSet::default();
    hand.add(Creature::Rogue);
    assert!(HiddenIndex::encode_hand_contents(hand, graveyard).is_some());
    hand.add(Creature::Witch);
    assert_eq!(HiddenIndex::encode_hand_contents(hand, graveyard), None);
}

#[test]
fn hand_contents_fill_the_count_exactly() {
    for graveyard in [0u16, 0b1, 0b110_0100_1000, 0b011_1111_1111, 0b111_1111_1111] {
        let graveyard = CreatureSet::new(graveyard);
        let alive = graveyard.others().len();

        let mut total = 0;
        for hand_size in 0..=12u8 {
            let count = HiddenIndex::hand_contents_count(hand_size, graveyard);
            assert_eq!(count, binomial_coefficient(alive, hand_size));
            total += count;

            for index in 0..count {
                let hand = HiddenIndex::decode_hand_contents(index, hand_size, graveyard).unwrap();
                assert_eq!(hand.len(), hand_size);
                for creature in Creature::CREATURES {
                    assert!(!(hand.has(creature) && graveyard.has(creature)));
                }
                assert_eq!(
                    HiddenIndex::encode_hand_contents(hand, graveyard),
                    Some(index)
                );
            }
            for index in [count, count + 1, usize::MAX] {
                assert_eq!(
                    HiddenIndex::decode_hand_contents(index, hand_size, graveyard),
                    None
                );
            }
        }
        // Every subset of the creatures outside the graveyard is a hand of
        // some size.
        assert_eq!(total, 1 << alive);
    }
}

#[test]
fn every_hand_decodes_to_itself() {
    let graveyard = CreatureSet::new(0b000_0101_0000);
    for bits in 0..2048u16 {
        if bits & 0b000_0101_0000 != 0 {
            continue;
        }
        let hand = CreatureSet::new(bits);
        let index = HiddenIndex::encode_hand_contents(hand, graveyard).unwrap();
        assert!(index < HiddenIndex::hand_contents_count(hand.len(), graveyard));
        assert_eq!(
            HiddenIndex::decode_hand_contents(index, hand.len(), graveyard),
            Some(hand)
        );
    }
}
