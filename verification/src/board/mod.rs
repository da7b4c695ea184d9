//! The board, its pieces and the rules that enumerate and apply moves.

pub mod err;
pub mod laws;
pub mod legal;
pub mod material;
pub mod moves;
pub mod piece;
pub mod rules;
pub mod state;
pub mod text;

pub use err::MoveError;
pub use moves::Moves;
pub use piece::{BoardPiece, Cord, Move, Player};
pub use state::{Board, PlayerInfo, Players};
pub use text::{OutputFileBoard, ParseError};
