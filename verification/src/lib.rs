//! A toroidal Conway's Game of Life core: a fixed-size, bit-packed grid of
//! cells advanced generation by generation under the B3/S23 rule, with
//! editing operations (clearing, stamping, toggling, reseeding, resizing).

pub mod bits;
pub mod rules;
pub mod laws;
pub mod universe;

pub use crate::universe::{GliderKind, GridError, Universe};
