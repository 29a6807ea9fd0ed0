//! Conway's Game of Life on a toroidal grid, with every generation step proved
//! against a mathematical model of the grid.
pub mod cell;
pub mod grid;
pub mod universe;
pub mod seed;
pub mod render;
pub mod laws;
