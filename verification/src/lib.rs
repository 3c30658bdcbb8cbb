//! Conway's Game of Life on a finite rectangular grid with hard edges.
//!
//! A seed text is read into a grid, the grid is taken from one generation
//! to the next, and each generation is drawn as a frame of text. Every
//! function is verified against a mathematical model of the grid: a
//! sequence of rows, each a sequence of cells.

pub mod animation;
pub mod grammar;
pub mod grammar_proofs;
pub mod grid;
pub mod life;
pub mod render;
pub mod round_trip;
pub mod seed;

pub use animation::{Animation, FRAME_INTERVAL_MS};
pub use grammar::ParseError;
pub use grid::{is_well_formed, Cell, Grid};
pub use life::{is_alive, next_generation, sum_neighbors};
pub use render::{clear_screen, render_frame, render_grid, to_decimal};
pub use seed::{grid_to_text, is_whitespace, text_to_grid};
