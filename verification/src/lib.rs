//! A checkers engine: the board and its move rules, a heuristic evaluator,
//! a time-boxed alpha-beta search and the rules of self-play tuning.

pub mod board;
pub mod ai;
pub mod tuner;
