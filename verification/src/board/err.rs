use vstd::prelude::*;

verus! {

/// The reasons for which a requested step can be refused.
#[derive(Debug, Copy, Clone, PartialEq, Eq, Structural)]
pub enum MoveError {
    PlayerCantJump,
    PlayerMustJump,
    InvalidJump,
    OffBoardError,
    BackwardsNotKing,
    NotPlayerTurn,
    TriedToMoveEmpty,
    SpaceOccupied,
}

} // verus!
