//! A small Battleship-style grid game: ships with per-segment damage, a board
//! that holds non-overlapping ships, and a fixed-width text rendering.

pub mod board;
pub mod game;
pub mod layout;
pub mod player;
pub mod ship;
