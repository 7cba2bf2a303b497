//! Conway's Game of Life on a toroidal grid, with its rules and rendering
//! stated as specifications and proved of the executable code.

pub mod grid;
pub mod laws;
pub mod rules;
pub mod seed;
pub mod text;
pub mod universe;

pub use grid::Grid;
pub use rules::{next_state, ALIVE, DEAD};
pub use seed::cells_from_draws;
pub use text::{ALIVE_GLYPH, DEAD_GLYPH};
pub use universe::{D2caUniverse, Universe};
