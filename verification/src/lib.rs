//! A forest-fire cellular automaton on a square grid.
//!
//! A field is a `Vec<Cell>` in linear index order. Every tick ages each cell,
//! puts out fire that has burnt long enough, and lets flora and fire spread
//! into one orthogonal neighbour that a seeded random stream picks.

pub mod cell;
pub mod census;
pub mod generator;
pub mod grid;
pub mod palette;
pub mod propagation;
pub mod rng;
pub mod tick;

pub use crate::cell::{Cell, CellType};
pub use crate::census::{get_stats, Stats};
pub use crate::generator::{get_empty_field, get_random_field, rnd_fill_empty};
pub use crate::grid::{cartesian_to_linear, linear_to_cartesian};
pub use crate::propagation::{propagate, propagate_along, Direction};
pub use crate::tick::get_field_step;
