//! A toroidal predator/prey cellular automaton.
//!
//! Each cell of a `width` by `height` torus is empty, holds a prey or holds a
//! predator with an energy level. One step visits the cells in row-major order
//! and lets each creature move, feed, breed or starve, so that no cell takes
//! part in more than one interaction per step.

pub mod cell;
pub mod draw;
pub mod grid;
pub mod laws;
pub mod step;
