//! Conway's Game of Life on a fixed-size grid.
//!
//! The grid is a dense two-dimensional boolean matrix; the simulation engine
//! advances it one generation at a time, counting neighbors with wraparound
//! addressing while forcing every border cell dead. A textual loader turns a
//! row-per-line description of `'0'` and `'1'` characters into an initial
//! world.

pub mod load;
pub mod matrix;
pub mod world;
