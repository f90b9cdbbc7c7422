//! Core engine of a terminal falling-block puzzle game: piece geometry,
//! falling-block physics (gravity, collision, locking, line clearing,
//! scoring) and the event-driven game-state machine. Rendering and raw
//! input decoding are left to the surrounding program.

use vstd::prelude::*;

pub mod block;
pub mod board;
pub mod coords;
pub mod game;
pub mod pieces;
mod rng;
pub mod square;

verus! {

/// Number of columns of the board.
pub const COLS: usize = 10;

/// Number of rows of the board, the top four being the hidden spawn buffer.
pub const ROWS: usize = 23;

} // verus!
