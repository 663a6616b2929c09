//! A minesweeper board: a grid of cells with hidden mines, the rules for
//! revealing and flagging cells, and the count of mines around a cell.

pub mod board;
pub mod cell;
pub mod chance;
pub mod cursor;
pub mod game;
pub mod grid;
pub mod layout;
pub mod outcome;
