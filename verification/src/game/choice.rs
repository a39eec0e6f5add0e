//! What a player decides in the phases of a turn.

use crate::game::creature::Creature;
use crate::game::edict::Edict;
use vstd::prelude::*;

verus! {

/// What a player ends up fighting with once the main phase is over.
#[derive(Clone, Copy, Debug, PartialEq, Eq, Hash, Structural)]
pub struct FinalMainPhaseChoice {
    pub creature: Creature,
    pub edict: Edict,
}

impl FinalMainPhaseChoice {
    /// The choice of `creature` with `edict`.
    pub fn new(creature: Creature, edict: Edict) -> (r: FinalMainPhaseChoice)
        ensures
            r.creature == creature,
            r.edict == edict,
    {
        FinalMainPhaseChoice { creature, edict }
    }
}

/// The creature a player who played the sabotage edict guesses the opponent
/// to have played; `None` for a player who did not play that edict.
pub type SabotagePhaseChoice = Option<Creature>;

} // verus!
