//! A configurable life-like cellular automaton on a toroidal grid.

pub mod bits;
pub mod rules;
pub mod universe;

pub use universe::Universe;
