//! A verified simulator for Conway's Game of Life on a bounded grid.
//!
//! A [`world::World`] holds a fixed-size two-dimensional grid of cells and
//! advances it one generation at a time under the standard B3/S23 rule:
//! a dead cell with exactly three live neighbours is born, a live cell with
//! two or three live neighbours survives, and every other cell is dead in
//! the next generation. Cells outside the grid are permanently dead; a
//! cell's neighbourhood is clipped at the grid boundary.

pub mod cell;
pub mod coord;
pub mod laws;
pub mod parse;
pub mod world;
