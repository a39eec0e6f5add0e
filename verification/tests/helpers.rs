use echo_cfr::game::creature::{Creature, CreatureIndex, CreatureSet};
use echo_cfr::game::edict::{Edict, EdictIndex, EdictSet};
use echo_cfr::game::status_effect::{StatusEffect, StatusEffectSet};
use echo_cfr::game::types::Player;
use echo_cfr::helpers::bitfield::Bitfield;
use echo_cfr::helpers::ranged::{mix_ranged, unmix_ranged};
use echo_cfr::helpers::upair::{decode_upair, encode_upair};

#[test]
fn bitfield_membership_follows_the_bits() {
    let mut set = Bitfield::new(0b1010);
    assert!(set.has(1) && set.has(3));
    assert!(!set.has(0) && !set.has(2) && !set.has(15));
    assert!(!set.has(16) && !set.has(200));

    set.add(15);
    set.add(1);
    set.remove(3);
    set.remove(4);
    assert_eq!(set, Bitfield(0b1000_0000_0000_0010));
    assert_eq!(Bitfield::empty(), Bitfield(0));
    assert_eq!(Bitfield::full(0), Bitfield(0));
    assert_eq!(Bitfield::full(5), Bitfield(0b1_1111));
    assert_eq!(Bitfield::full(16), Bitfield(0xFFFF));
    assert_eq!(Bitfield(0b1010).complement(3), Bitfield(0b101));
    assert_eq!(Bitfield(0b1010).complement(16), Bitfield(0xFFF5));
    assert_eq!(Bitfield(0b1010).complement(0), Bitfield(0));
    assert_eq!(Bitfield(0b1010).union(Bitfield(0b0110)), Bitfield(0b1110));
}

#[test]
fn bitfield_rank_and_select_are_inverses() {
    for bits in [0u16, 1, 0b1011_0010, 0x8001, 0xFFFF, 0x5555] {
        let set = Bitfield::new(bits);
        for width in 0..=16u8 {
            let below = (bits as u32) & ((1u32 << width) - 1);
            let count = below.count_ones() as u8;
            assert_eq!(set.count(width), count);

            for k in 0..count {
                let position = set.select(k, width).unwrap();
                assert!(position < width);
                assert!(set.has(position));
                assert_eq!(set.indexof(position), Some(k as usize));
                assert_eq!(set.index(k as usize, width), Some(position));
                assert_eq!(set.count_from_end(position, width), count - 1 - k);
                assert_eq!(set.lookup_from_end(count - 1 - k, width), Some(position));
            }
            assert_eq!(set.select(count, width), None);
            assert_eq!(set.index(count as usize, width), None);
            assert_eq!(set.index(usize::MAX, width), None);
            assert_eq!(set.lookup_from_end(count, width), None);
        }
        for position in 0..16u8 {
            if !set.has(position) {
                assert_eq!(set.indexof(position), None);
            }
        }
    }
}

#[test]
fn mixing_is_positional() {
    assert_eq!(mix_ranged(4, 2, 7), 30);
    assert_eq!(unmix_ranged(30, 7), (4, 2));
    assert_eq!(mix_ranged(0, 0, 0), 0);
    assert_eq!(unmix_ranged(usize::MAX, 1), (usize::MAX, 0));
    for rest in 0..20 {
        for max in 1..9 {
            for value in 0..max {
                assert_eq!(unmix_ranged(mix_ranged(rest, value, max), max), (rest, value));
            }
        }
    }
}

#[test]
fn pairs_are_numbered_without_gaps() {
    let mut expected = 0u8;
    for high in 1..=10u8 {
        for low in 0..high {
            assert_eq!(encode_upair(low, high), Some(expected));
            assert_eq!(encode_upair(high, low), Some(expected));
            assert_eq!(decode_upair(expected), (low, high));
            expected += 1;
        }
    }
    assert_eq!(encode_upair(6, 6), None);
    assert_eq!(encode_upair(254, 255), None);
    assert_eq!(decode_upair(255), (2, 23));
}

#[test]
fn creature_sets_count_from_both_ends() {
    let mut set = CreatureSet::default();
    assert_eq!(set.len(), 0);
    set.add(Creature::Rogue);
    set.add(Creature::Witch);
    set.add(Creature::Monarch);
    set.add(Creature::Rogue);
    assert_eq!(set, CreatureSet::new(0b101_0000_0100));
    assert_eq!(set.len(), 3);
    assert!(set.has(Creature::Witch));
    assert!(!set.has(Creature::Wall));

    assert_eq!(set.indexof(Creature::Rogue), Some(0));
    assert_eq!(set.indexof(Creature::Witch), Some(1));
    assert_eq!(set.indexof(Creature::Monarch), Some(2));
    assert_eq!(set.indexof(Creature::Bard), None);
    assert_eq!(set.index(1), Some(Creature::Witch));
    assert_eq!(set.index(3), None);

    assert_eq!(set.count_from_end(Creature::Rogue), CreatureIndex(2));
    assert_eq!(set.count_from_end(Creature::Monarch), CreatureIndex(0));
    // A creature that is no member still has members after it.
    assert_eq!(set.count_from_end(Creature::Bard), CreatureIndex(2));
    assert_eq!(set.lookup_from_end(CreatureIndex(0)), Some(Creature::Monarch));
    assert_eq!(set.lookup_from_end(CreatureIndex(2)), Some(Creature::Rogue));
    assert_eq!(set.lookup_from_end(CreatureIndex(3)), None);

    let others = set.others();
    assert_eq!(others.len(), 8);
    for creature in Creature::CREATURES {
        assert_eq!(others.has(creature), !set.has(creature));
    }
    assert_eq!(others.others(), set);
    assert_eq!(set.without(Creature::Witch), CreatureSet::new(0b100_0000_0100));
    assert_eq!(set.without(Creature::Bard), set);
    assert_eq!(set.union(others), CreatureSet::all());
    assert_eq!(
        set.union(CreatureSet::new(0b1100)),
        CreatureSet::new(0b101_0000_1100)
    );

    set.remove(Creature::Rogue);
    assert_eq!(set, CreatureSet::new(0b101_0000_0000));
    assert_eq!(CreatureSet::all().len(), 11);
    assert_eq!(CreatureSet::all().others(), CreatureSet::default());
}

#[test]
fn creature_sets_ignore_bits_past_the_last_creature() {
    let set = CreatureSet::new(0xF800 | 0b11);
    assert_eq!(set.len(), 2);
    assert_eq!(set.index(2), None);
    assert_eq!(set.lookup_from_end(CreatureIndex(0)), Some(Creature::Seer));
    assert_eq!(set.count_from_end(Creature::Wall), CreatureIndex(1));
    assert_eq!(set.others().len(), 9);
}

#[test]
fn creatures_and_positions_correspond() {
    for (position, creature) in Creature::CREATURES.into_iter().enumerate() {
        assert_eq!(creature.index() as usize, position);
        assert_eq!(creature as usize, position);
        assert_eq!(Creature::from_index(position as u8), Some(creature));
    }
    assert_eq!(Creature::from_index(11), None);
    assert_eq!(Creature::Wall.strength(), 0);
    assert_eq!(Creature::Rogue.strength(), 1);
    assert_eq!(Creature::Witch.strength(), 3);
    assert_eq!(Creature::Mercenary.strength(), 4);
    assert_eq!(Creature::Monarch.strength(), 6);
}

#[test]
fn edict_sets_count_from_both_ends() {
    let mut set = EdictSet::default();
    assert_eq!(set, EdictSet::all());
    assert_eq!(set, EdictSet::new(0b1_1111));
    assert_eq!(set.len(), 5);
    set.remove(Edict::Ambush);
    set.remove(Edict::Ambush);
    assert_eq!(set.len(), 4);
    assert!(!set.has(Edict::Ambush));

    assert_eq!(set.indexof(Edict::RileThePublic), Some(2));
    assert_eq!(set.indexof(Edict::Ambush), None);
    assert_eq!(set.index(2), Some(Edict::RileThePublic));
    assert_eq!(set.index(4), None);
    assert_eq!(set.count_from_end(Edict::Gambit), EdictIndex(2));
    assert_eq!(set.lookup_from_end(EdictIndex(2)), Some(Edict::Gambit));
    assert_eq!(set.lookup_from_end(EdictIndex(4)), None);

    assert_eq!(
        EdictSet::new(0b1).union(EdictSet::new(0b10000)),
        EdictSet::new(0b10001)
    );
    set.add(Edict::Ambush);
    assert_eq!(set, EdictSet::all());

    for (position, edict) in Edict::EDICTS.into_iter().enumerate() {
        assert_eq!(edict.index() as usize, position);
        assert_eq!(edict as usize, position);
        assert_eq!(Edict::from_index(position as u8), Some(edict));
    }
    assert_eq!(Edict::from_index(5), None);
}

#[test]
fn status_effects_come_and_go() {
    let mut effects = StatusEffectSet::default();
    assert!(!effects.has(StatusEffect::Glade));
    effects.add(StatusEffect::Glade);
    effects.add(StatusEffect::Barbarian);
    assert!(effects.has(StatusEffect::Glade));
    assert!(effects.has(StatusEffect::Barbarian));
    assert!(!effects.has(StatusEffect::Night));
    effects.clear();
    assert_eq!(effects, StatusEffectSet::default());
    assert_eq!(StatusEffect::Barbarian.index(), 6);
}

#[test]
fn players_pick_their_half() {
    assert_eq!(Player::Me.not(), Player::You);
    assert_eq!(Player::You.not(), Player::Me);
    assert_eq!(Player::Me.select((1, 2)), 1);
    assert_eq!(Player::You.select((1, 2)), 2);
    assert_eq!(Player::PLAYERS, [Player::Me, Player::You]);

    let mut pair = (1, 2);
    Player::You.set_selection(&mut pair, 5);
    assert_eq!(pair, (1, 5));
    Player::Me.set_selection(&mut pair, 7);
    assert_eq!(pair, (7, 5));
}
