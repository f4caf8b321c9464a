//! Conway's Game of Life on a toroidal grid.
//!
//! A [`Universe`] owns a flat, row-major buffer of [`Cell`]s together with its
//! width and height; `cells.len() == width * height` holds in every reachable
//! state. The grid wraps around at the edges: the neighbors of a border cell
//! come from the opposite border. `tick` advances the whole grid by one
//! generation, evaluating every cell against the same pre-tick snapshot.
//! Rendering is left to the caller, which reads the exposed cell buffer.

pub mod cell;
pub mod laws;
pub mod rules;
pub mod universe;

pub use cell::Cell;
pub use universe::Universe;
pub use universe::greet;
