use vstd::prelude::*;

verus! {

/// A square of the board, as (row, column).
pub type Cord = (usize, usize);

/// What a square of the board holds.
#[derive(Debug, Copy, Clone, PartialEq, Eq, Structural)]
pub enum BoardPiece {
    Red,
    KingRed,
    Black,
    KingBlack,
    Empty,
}

impl BoardPiece {
    /// Whether the piece is Red's.
    pub open spec fn spec_is_red(&self) -> bool {
        *self == BoardPiece::Red || *self == BoardPiece::KingRed
    }

    /// Whether the piece is Black's.
    pub open spec fn spec_is_black(&self) -> bool {
        *self == BoardPiece::Black || *self == BoardPiece::KingBlack
    }

    /// Whether the piece is a king.
    pub open spec fn spec_is_king(&self) -> bool {
        *self == BoardPiece::KingRed || *self == BoardPiece::KingBlack
    }

    /// The piece that stands on the square after a promotion: the king of the
    /// same colour, and nothing where nothing stood.
    pub open spec fn spec_promote(&self) -> BoardPiece {
        if self.spec_is_red() {
            BoardPiece::KingRed
        } else if self.spec_is_black() {
            BoardPiece::KingBlack
        } else {
            BoardPiece::Empty
        }
    }

    #[verifier::when_used_as_spec(spec_is_red)]
    pub fn is_red(&self) -> (r: bool)
        ensures
            r == self.spec_is_red(),
    {
        match self {
            BoardPiece::Red => true,
            BoardPiece::KingRed => true,
            _ => false,
        }
    }

    #[verifier::when_used_as_spec(spec_is_black)]
    pub fn is_black(&self) -> (r: bool)
        ensures
            r == self.spec_is_black(),
    {
        match self {
            BoardPiece::Black => true,
            BoardPiece::KingBlack => true,
            _ => false,
        }
    }

    #[verifier::when_used_as_spec(spec_is_king)]
    pub fn is_king(&self) -> (r: bool)
        ensures
            r == self.spec_is_king(),
    {
        match self {
            BoardPiece::KingRed => true,
            BoardPiece::KingBlack => true,
            _ => false,
        }
    }

    /// The piece after a promotion.
    #[verifier::when_used_as_spec(spec_promote)]
    pub fn promote(&self) -> (r: BoardPiece)
        ensures
            r == self.spec_promote(),
    {
        if self.is_red() {
            BoardPiece::KingRed
        } else if self.is_black() {
            BoardPiece::KingBlack
        } else {
            BoardPiece::Empty
        }
    }
}

/// One of the two sides. Black moves towards higher rows, Red towards lower.
#[derive(Debug, Copy, Clone, PartialEq, Eq, Structural)]
pub enum Player {
    Black,
    Red,
}

impl Player {
    /// The other side.
    pub open spec fn spec_get_other(&self) -> Player {
        match *self {
            Player::Black => Player::Red,
            Player::Red => Player::Black,
        }
    }

    /// The row step of a forward move: +1 for Black, -1 for Red.
    pub open spec fn spec_forward(&self) -> int {
        match *self {
            Player::Black => 1,
            Player::Red => -1,
        }
    }

    /// Whether `piece` is a piece of this side.
    pub open spec fn spec_does_piece_match(&self, piece: BoardPiece) -> bool {
        match *self {
            Player::Black => piece.spec_is_black(),
            Player::Red => piece.spec_is_red(),
        }
    }

    /// The row on which this side's pawns are crowned.
    pub open spec fn spec_promotion_row(&self) -> int {
        match *self {
            Player::Black => 7,
            Player::Red => 0,
        }
    }

    /// The row from which this side starts, which its defenders guard.
    pub open spec fn spec_home_row(&self) -> int {
        match *self {
            Player::Black => 0,
            Player::Red => 7,
        }
    }

    #[verifier::when_used_as_spec(spec_get_other)]
    pub fn get_other(&self) -> (r: Player)
        ensures
            r == self.spec_get_other(),
    {
        match self {
            Player::Black => Player::Red,
            Player::Red => Player::Black,
        }
    }

    /// The row step of a forward move of this side.
    pub fn forward(&self) -> (r: i32)
        ensures
            r == self.spec_forward(),
    {
        match self {
            Player::Black => 1,
            Player::Red => -1,
        }
    }

    /// The row on which this side's pawns are crowned.
    pub fn promotion_row(&self) -> (r: usize)
        ensures
            r == self.spec_promotion_row(),
    {
        match self {
            Player::Black => 7,
            Player::Red => 0,
        }
    }

    /// The row from which this side starts, which its defenders guard.
    pub fn home_row(&self) -> (r: usize)
        ensures
            r == self.spec_home_row(),
    {
        match self {
            Player::Black => 0,
            Player::Red => 7,
        }
    }

    #[verifier::when_used_as_spec(spec_does_piece_match)]
    pub fn does_piece_match(&self, piece: BoardPiece) -> (r: bool)
        ensures
            r == self.spec_does_piece_match(piece),
    {
        match self {
            Player::Black => piece.is_black(),
            Player::Red => piece.is_red(),
        }
    }
}

/// The kinds of step that a piece can be asked to make.
#[derive(Debug, Copy, Clone, PartialEq, Eq, Structural)]
pub enum Move {
    ForwardRight,
    ForwardLeft,
    Jump,
    BackwardRight,
    BackwardLeft,
}

impl Move {
    /// Whether only a king may make this kind of step.
    pub open spec fn spec_must_be_king(&self) -> bool {
        *self == Move::BackwardRight || *self == Move::BackwardLeft
    }

    /// The row step of this kind of move for `player`; a jump names no direction.
    pub open spec fn row_step(&self, player: Player) -> int {
        match *self {
            Move::ForwardRight => player.spec_forward(),
            Move::ForwardLeft => player.spec_forward(),
            Move::BackwardRight => -player.spec_forward(),
            Move::BackwardLeft => -player.spec_forward(),
            Move::Jump => 0,
        }
    }

    /// The column step of this kind of move.
    pub open spec fn col_step(&self) -> int {
        match *self {
            Move::ForwardRight => 1,
            Move::BackwardRight => 1,
            Move::ForwardLeft => -1,
            Move::BackwardLeft => -1,
            Move::Jump => 0,
        }
    }

    /// The row and column steps of this kind of move for `player`.
    pub fn steps(&self, player: Player) -> (r: (i32, i32))
        ensures
            r.0 == self.row_step(player),
            r.1 == self.col_step(),
    {
        let f = player.forward();
        match self {
            Move::ForwardRight => (f, 1),
            Move::ForwardLeft => (f, -1),
            Move::BackwardRight => (-f, 1),
            Move::BackwardLeft => (-f, -1),
            Move::Jump => (0, 0),
        }
    }

    #[verifier::when_used_as_spec(spec_must_be_king)]
    pub fn must_be_king(&self) -> (r: bool)
        ensures
            r == self.spec_must_be_king(),
    {
        match self {
            Move::BackwardRight => true,
            Move::BackwardLeft => true,
            _ => false,
        }
    }
}

impl From<BoardPiece> for char {
    /// The character that stands for the piece in a board's text form.
    fn from(value: BoardPiece) -> (r: char)
        ensures
            r == piece_code(value),
    {
        match value {
            BoardPiece::Black => '1',
            BoardPiece::Red => '2',
            BoardPiece::KingBlack => '3',
            BoardPiece::KingRed => '4',
            BoardPiece::Empty => '0',
        }
    }
}

impl vstd::std_specs::convert::FromSpecImpl<BoardPiece> for char {
    open spec fn obeys_from_spec() -> bool {
        true
    }

    open spec fn from_spec(value: BoardPiece) -> char {
        piece_code(value)
    }
}

impl From<Player> for u8 {
    /// The number that stands for the side in a board's text form.
    fn from(value: Player) -> (r: u8)
        ensures
            r == player_number(value),
    {
        match value {
            Player::Black => 1,
            Player::Red => 2,
        }
    }
}

impl vstd::std_specs::convert::FromSpecImpl<Player> for u8 {
    open spec fn obeys_from_spec() -> bool {
        true
    }

    open spec fn from_spec(value: Player) -> u8 {
        player_number(value)
    }
}

/// The character that stands for `p` in a board's text form.
pub open spec fn piece_code(p: BoardPiece) -> char {
    match p {
        BoardPiece::Black => '1',
        BoardPiece::Red => '2',
        BoardPiece::KingBlack => '3',
        BoardPiece::KingRed => '4',
        BoardPiece::Empty => '0',
    }
}

/// The number that stands for `p` in a board's text form.
pub open spec fn player_number(p: Player) -> u8 {
    match p {
        Player::Black => 1,
        Player::Red => 2,
    }
}

} // verus!
