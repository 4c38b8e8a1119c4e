//! Zero-knowledge Sudoku circuit construction.
//!
//! The crate encodes the Sudoku rules (row, column and box uniqueness,
//! cell-range bounds and puzzle/solution consistency) as a rank-1 constraint
//! system over a prime field, suitable for a succinct proving backend.

pub mod rules;
pub mod gadgets;
pub mod comparator;
pub mod builder;

pub use builder::{check_helper, grid_well_formed, Grid, Puzzle, Role, Solution, Sudoku};
pub use gadgets::{CircuitBuilder, CircuitError};
