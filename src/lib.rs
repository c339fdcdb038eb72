//! A particle simulation's integer core: the uniform spatial grid used as the
//! collision broad-phase, the band schedule that makes the collision pass safe
//! to run in parallel, the population and palette rules of the solver, and the
//! mapping of an image onto the particles that occupy the grid.

pub mod bands;
pub mod colors;
pub mod grid;
pub mod solver;

pub use bands::{collision_bands, BAND_ROWS};
pub use colors::{map_colors, Rgba};
pub use grid::{Cell, Grid, CELL_CAPACITY, MAX_DIM};
pub use solver::{Solver, SPAWN_BATCH, SUBSTEPS};
