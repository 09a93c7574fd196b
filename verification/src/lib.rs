//! Simulation core of a falling-block puzzle game.
//!
//! The crate models the seven four-cell pieces and their rotations, the board
//! grid with its collision and boundary rules, the clearing of full rows, and
//! the state machine that applies player commands and gravity ticks.  Every
//! transition consumes a game state and returns the next one; its contract
//! pins the result down over a mathematical model of the state.

pub mod board;
pub mod command;
pub mod piece;
pub mod random;
pub mod tetris;

pub use board::Output;
pub use command::Command;
pub use piece::{Angle, Block, Position};
pub use tetris::{Tetris, User};
