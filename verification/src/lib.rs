//! Conway's Game of Life on a fixed-size toroidal grid.
//!
//! The crate holds the simulation core: the cell states and the transition
//! rule, the wrap-around neighbourhood, the grid with its `advance` step,
//! random seeding and the text of a frame. Every contract is stated over
//! [`GridView`], the mathematical model of a grid, and the module `laws`
//! proves what holds of every grid.

pub mod cell;
pub mod grid;
pub mod laws;
pub mod model;
pub mod render;
pub mod seed;

pub use cell::{next_state, CellState};
pub use grid::{Grid, HEIGHT, WIDTH};
pub use model::GridView;
pub use render::{frame, FOOTER, TICK_MILLIS};
pub use seed::{cell_from_draw, seed_cells};
