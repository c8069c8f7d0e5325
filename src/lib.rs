//! A sliding-robot puzzle board: per-cell wall state, the moves allowed out
//! of each cell, and where a robot sliding in a direction comes to rest.

pub mod geometry;
pub mod moves;
pub mod wall;
pub mod board;
pub mod individual_cells;
pub mod builder;
