//! The rules of a board game for two players, played with checkers on the
//! cells of a grid and with stones on its intersections.
//!
//! `board` holds the two grids and every change that the rules allow on
//! them; `game` holds the players, their candidate moves, and the three ways
//! to win.

pub mod board;
pub mod dice;
pub mod game;
pub mod grid;
mod list;
pub mod piece;
pub mod text;
pub mod vec;
