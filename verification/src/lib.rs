//! Conway's Game of Life on a fixed-size toroidal grid.
//!
//! The grid wraps at its edges, so every cell has exactly eight neighbors.
//! The engine offers construction with a deterministic seed, resizing,
//! single-cell toggling, stamping of predefined patterns, randomization from
//! injected draws, a one-generation step (`tick`), and a text rendering.

pub mod cell;
pub mod laws;
pub mod patterns;
pub mod universe;

pub use cell::Cell;
pub use universe::Universe;
