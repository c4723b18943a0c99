//! A deterministic single-tape Turing machine on a tape of fixed length.
//!
//! A machine is a table of transition functions, one per state. The engine
//! in [`tape`] owns the cells, the cursor and the current state, and drives
//! the table one transition at a time until a transition halts or a move
//! would leave the tape. What the engine does is stated against the
//! mathematical machine in [`model`].

pub mod action;
pub mod bits;
pub mod laws;
pub mod model;
pub mod tape;

pub use crate::action::{MachineState, Move, Transition};
pub use crate::bits::to_bits;
pub use crate::tape::{MachineError, Tape};
