//! Conway's Game of Life on a torus: a fixed-size grid of cells, packed one
//! bit per cell, with verified indexing, neighbour counting and stepping.

pub mod bitset;
pub mod block;
pub mod chance;
pub mod fill;
pub mod grid;
pub mod text;
pub mod torus;
pub mod universe;

pub use fill::FillOptions;
pub use universe::Universe;
