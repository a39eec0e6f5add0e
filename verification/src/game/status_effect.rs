//! Effects that linger on a player from one battle to the next.

use crate::helpers::bitfield::Bitfield;
use vstd::prelude::*;

verus! {

/// Something a player carries into the next battle because of what happened
/// in the last one.
#[derive(Clone, Copy, Debug, PartialEq, Eq, PartialOrd, Ord, Hash, Structural)]
pub enum StatusEffect {
    /// Won on the mountain: one more strength.
    Mountain,
    /// Won in the glade: two more victory points for the next battle won.
    Glade,
    /// Played the seer: plays two creatures and takes one back.
    Seer,
    /// Fought at night: one more victory point for the next battle won.
    Night,
    /// Played the bard: one more strength and one more victory point.
    Bard,
    /// Played the mercenary: one strength less.
    Mercenary,
    /// Lost the last battle: the barbarian is stronger.
    Barbarian,
}

/// The name the battle rules use for [`StatusEffect`].
pub type PlayerStatusEffect = StatusEffect;

/// How many status effects there are.
pub const STATUS_EFFECT_COUNT: u8 = 7;

impl StatusEffect {
    /// The position of the effect in the list of all effects.
    pub open spec fn position(self) -> u8 {
        match self {
            StatusEffect::Mountain => 0,
            StatusEffect::Glade => 1,
            StatusEffect::Seer => 2,
            StatusEffect::Night => 3,
            StatusEffect::Bard => 4,
            StatusEffect::Mercenary => 5,
            StatusEffect::Barbarian => 6,
        }
    }

    /// The position of the effect in the list of all effects.
    #[verifier::when_used_as_spec(position)]
    pub fn index(self) -> (r: u8)
        ensures
            r == self.position(),
            r < STATUS_EFFECT_COUNT,
    {
        match self {
            StatusEffect::Mountain => 0,
            StatusEffect::Glade => 1,
            StatusEffect::Seer => 2,
            StatusEffect::Night => 3,
            StatusEffect::Bard => 4,
            StatusEffect::Mercenary => 5,
            StatusEffect::Barbarian => 6,
        }
    }
}

/// The status effects that are active on one player.
#[derive(Clone, Copy, Debug, PartialEq, Eq, Hash, Structural)]
pub struct StatusEffectSet(pub Bitfield);

/// The name the battle rules use for [`StatusEffectSet`].
pub type PlayerStatusEffects = StatusEffectSet;

impl View for StatusEffectSet {
    type V = Set<StatusEffect>;

    /// The effects that are active.
    open spec fn view(&self) -> Set<StatusEffect> {
        Set::new(|e: StatusEffect| self.contains(e))
    }
}

impl Default for StatusEffectSet {
    /// No effect at all.
    fn default() -> (r: StatusEffectSet)
        ensures
            r == StatusEffectSet::none(),
            forall|e: StatusEffect| !r.contains(e),
    {
        StatusEffectSet(Bitfield::empty())
    }
}

impl StatusEffectSet {
    /// Whether `e` is active.
    pub open spec fn contains(self, e: StatusEffect) -> bool {
        self.0.contains(e.position() as int)
    }

    /// No effect at all.
    pub open spec fn none() -> StatusEffectSet {
        StatusEffectSet(Bitfield::none())
    }

    /// These effects and `e`.
    pub open spec fn inserted(self, e: StatusEffect) -> StatusEffectSet {
        StatusEffectSet(self.0.inserted(e.position() as int))
    }

    /// What `none` holds.
    pub proof fn lemma_none()
        ensures
            forall|e: StatusEffect|
                #![trigger StatusEffectSet::none().contains(e)]
                !StatusEffectSet::none().contains(e),
    {
        Bitfield::lemma_none();
    }

    /// What `inserted` holds.
    pub proof fn lemma_inserted(self, x: StatusEffect)
        ensures
            forall|e: StatusEffect|
                #![trigger self.inserted(x).contains(e)]
                self.inserted(x).contains(e) == (e == x || self.contains(e)),
            self.inserted(x)@ == self@.insert(x),
    {
        self.0.lemma_inserted(x.position() as int);
        assert(self.inserted(x)@ =~= self@.insert(x));
    }

    /// Whether `effect` is active.
    pub fn has(self, effect: StatusEffect) -> (r: bool)
        ensures
            r == self.contains(effect),
    {
        self.0.has(effect.index())
    }

    /// Makes `effect` active.
    pub fn add(&mut self, effect: StatusEffect)
        ensures
            *final(self) == old(self).inserted(effect),
            forall|e: StatusEffect|
                #![trigger final(self).contains(e)]
                final(self).contains(e) == (e == effect || old(self).contains(e)),
            final(self)@ == old(self)@.insert(effect),
    {
        proof {
            self.lemma_inserted(effect);
        }
        self.0.add(effect.index());
    }

    /// Ends every effect.
    pub fn clear(&mut self)
        ensures
            *final(self) == StatusEffectSet::none(),
            forall|e: StatusEffect| !final(self).contains(e),
    {
        self.0 = Bitfield::empty();
    }
}

} // verus!
