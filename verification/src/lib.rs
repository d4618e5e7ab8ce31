//! Conway's Game of Life on a fixed-size grid.
//!
//! Any live cell with two or three live neighbours survives. Any dead cell
//! with exactly three live neighbours becomes a live cell. Every other live
//! cell dies in the next generation, and every other dead cell stays dead.

pub mod board;
pub mod cell;
pub mod input;
pub mod laws;
pub mod life;
pub mod storage;
pub mod text;
pub mod utils;

pub use cell::Cell;
pub use input::{parse_time, parse_to_tuple, time_of_args};
pub use life::LifeGrid;
