//! Small building blocks shared by the game rules and the index codecs.

pub mod binomial;
pub mod bitfield;
pub mod counting;
pub mod ranged;
pub mod upair;
