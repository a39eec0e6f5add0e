//! The publicly known parts of the game and the rules that resolve a battle.

pub mod types;
pub mod battlefield;
pub mod choice;
pub mod creature;
pub mod edict;
pub mod known_state;
pub mod simulate;
pub mod status_effect;
