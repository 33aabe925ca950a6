//! A nonogram: a hidden grid of filled cells, the run-length hints of its rows
//! and columns, the player's marks with auto-fill of explained lines, and the
//! menu / play / win / game-over session that drives a game.
pub mod puzzle;
pub mod game;
