//! A sand hourglass simulated as a cellular automaton on a character grid.

pub mod grid;
pub mod layout;
pub mod sums;
pub mod hourglass;
pub mod flow;
pub mod random;
pub mod interior;
pub mod text;
pub mod laws;
pub mod timing;
