//! Choosing a move: the evaluation of a position and the search that uses it.

pub mod clock;
pub mod heuristic;
pub mod laws;
pub mod minimax;
pub mod search;

pub use search::{deepen, max_value, min_value, predict_move};
