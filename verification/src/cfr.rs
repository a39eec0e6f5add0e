//! Dense indices for the choices and revelations of a turn, so that the
//! tables of the solver have one slot for each and no slot to spare.

pub mod decision;
pub mod hidden_index;
pub mod reveal_index;
