//! A cellular-automaton simulation engine on a fixed-size 2-D grid.
//!
//! Each cell of a [`world::World`] holds a finite-state value; on every
//! [`world::World::tick`] each cell's next state is derived from its own state
//! and the states of its eight Moore neighbors, following the rules of the
//! chosen automaton. The grid has closed (non-wrapping) edges.

pub mod brain;
pub mod cell;
pub mod common;
pub mod life;
pub mod world;
pub mod worlds;
