//! The verified core of a solver for a two-player card game with hidden
//! hands and simultaneous moves.
//!
//! * [`helpers`] holds the arithmetic everything else is built from: sets
//!   packed into bits with rank and select, positional mixing of bounded
//!   numbers, the numbering of unordered pairs, and binomial coefficients.
//! * [`game`] holds what both players know of a game and the rules that
//!   resolve a battle and move the game on by a turn.
//! * [`cfr`] holds the dense indices that address the tables of the solver:
//!   one for each choice a player has, for each thing a phase can reveal and
//!   for each hand a player can hold, with nothing left over.
//!
//! Every encoder comes with a decoder and a count, and with the proofs that
//! the two are inverses of each other and that the count is exact.

pub mod helpers;
pub mod game;
pub mod cfr;
