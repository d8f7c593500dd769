//! Conway's Game of Life on a torus: a grid of fixed size whose edges wrap
//! around, stored one bit per cell, with every operation carrying a contract
//! over a mathematical model of the grid.
//!
//! - [`universe`] holds the [`Universe`] and its operations.
//! - [`grid`] holds its model, the [`Grid`], and the rule of the game.
//! - [`torus`] wraps coordinates onto the axes of the grid.
//! - [`patterns`] holds the bitmaps of the glider and the pulsar, and
//!   [`stamping`] says what a stamp of them leaves behind.
//! - [`shapes`] proves what a tick does to a block and to a blinker.
//! - [`counting`] counts the entries of a sequence.
//! - [`bitset`], [`random`] and [`text`] state what is taken on trust about
//!   the code that this crate calls and does not verify.

pub mod bitset;
pub mod counting;
pub mod grid;
pub mod patterns;
pub mod random;
pub mod shapes;
pub mod stamping;
pub mod text;
pub mod torus;
pub mod universe;

pub use grid::Grid;
pub use universe::{SizeMismatch, Universe};
