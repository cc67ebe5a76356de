//! An unbounded minesweeper board: cells are generated lazily and
//! deterministically from a seed, kept in a quadtree that grows where the
//! player goes, and revealed by a flood fill with a hard depth ceiling.

pub mod fatal;
pub mod grid;
pub mod helper;
pub mod game;
pub mod view;
