//! A three-dimensional fluid grid: cell indexing, open and solid cells, and
//! the cell values that the fluid solver reads and writes.
use vstd::prelude::*;

pub mod fluid_grid;
pub mod grid_index;
pub mod laws;

pub use fluid_grid::FluidGrid;

verus! {

} // verus!
