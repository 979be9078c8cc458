//! A minimal Tetris engine.
//!
//! The engine is split into four layers, leaf first:
//! - [`matrix`]: the mathematical model of small 2D cell grids and the
//!   rotation lemmas that hold of them;
//! - [`actions`]: pure transforms on shape matrices (clockwise rotation);
//! - [`board`]: the persistent grid of locked cells, with collision
//!   testing, merging and row clearing;
//! - [`piece`]: a falling tetromino (shape matrix plus board offset);
//! - [`game`]: the tick/command state machine that orchestrates a piece
//!   over a board and keeps score.
//!
//! The engine is synchronous and does no I/O; timing and shape selection
//! are the caller's responsibility.

pub mod matrix;
pub mod actions;
pub mod board;
pub mod piece;
pub mod game;
