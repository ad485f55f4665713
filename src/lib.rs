//! A nonogram puzzle player: clue tables, the grid of cell marks, a bounded
//! cursor, the puzzle-file grammar and the geometry and content of a frame.

pub mod board;
pub mod cursor;
pub mod constraints;
pub mod error;
pub mod parsing;
pub mod render;
pub mod game;
