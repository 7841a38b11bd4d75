//! The mechanical state of a 5x5x5 cube and the engine that turns its faces.
//!
//! A state keeps the corners, the midges (the middle pieces of the edges), the
//! wings and the two kinds of face centres in seven fixed arrays. A move names a
//! face, how deep the turn reaches and how far it goes; it exists as a packed
//! byte, as a triple and as text such as `Rw2` or `D'`.
//!
//! - [`error`]: the two errors of the library.
//! - [`moves`]: the three forms of a move and the conversions between them.
//! - [`notation`]: what the text of a move, and of a line of moves, means.
//! - [`orbit`]: the turn of four slots of a sequence, and what undoes it.
//! - [`counting`]: permutations, sums and counts, and that a turn keeps them.
//! - [`utils`]: the turn of four slots of an array, plain and bit-packed.
//! - [`lanes`]: a packed word as a sequence of lanes.
//! - [`tables`]: the slots that each face carries round.
//! - [`model`]: the state as sequences, and a move as a function on them.
//! - [`state`]: the state, its validity and the application of a move.
//! - [`laws`]: what holds of turns and of every state that turns can reach.

pub mod counting;
pub mod error;
pub mod lanes;
pub mod laws;
pub mod model;
pub mod moves;
pub mod notation;
pub mod orbit;
pub mod state;
pub mod tables;
pub mod utils;
