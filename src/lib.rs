//! Periodic gradient-noise lattices over row-major grids, and the RGBA framing
//! of the rendered field.

pub mod array;
pub mod lattice;
pub mod raster;

pub use array::TwoDArray;
pub use lattice::{ConfigError, GradientLattice};
