//! Conway's Game of Life on a torus: a fixed-size grid of two-state cells
//! that evolves in synchronous generations under the B3/S23 rule.

pub mod cell;
pub mod grid;
pub mod laws;
pub mod universe;

pub use cell::Cell;
pub use grid::Grid;
pub use universe::Universe;
