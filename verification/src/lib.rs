//! Conway's Game of Life on a toroidal grid, verified with Verus.
//!
//! The mathematical model of a board lives in [`grid`]; the executable board,
//! packed into a bit set, lives in [`game`]; [`laws`] proves properties that
//! relate several operations; [`control`] holds the decisions of an
//! interactive session; [`foreign`] gives contracts to the outside code that
//! the board is built on.

pub mod foreign;
pub mod control;
pub mod game;
pub mod grid;
pub mod laws;
