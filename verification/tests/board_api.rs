use checkers::board::{
    Board, BoardPiece, Cord, Move, MoveError, Moves, ParseError, Player, Players,
};

#[test]
fn pieces_know_their_colour_and_rank() {
    assert!(BoardPiece::Red.is_red() && BoardPiece::KingRed.is_red());
    assert!(!BoardPiece::Black.is_red() && !BoardPiece::Empty.is_red());
    assert!(BoardPiece::Black.is_black() && BoardPiece::KingBlack.is_black());
    assert!(!BoardPiece::KingRed.is_black() && !BoardPiece::Empty.is_black());
    assert!(BoardPiece::KingRed.is_king() && BoardPiece::KingBlack.is_king());
    assert!(!BoardPiece::Red.is_king() && !BoardPiece::Black.is_king());
    assert!(!BoardPiece::Empty.is_king());
    assert_eq!(BoardPiece::Red.promote(), BoardPiece::KingRed);
    assert_eq!(BoardPiece::KingBlack.promote(), BoardPiece::KingBlack);
    assert_eq!(BoardPiece::Empty.promote(), BoardPiece::Empty);
}

#[test]
fn the_two_sides_face_each_other() {
    assert_eq!(Player::Black.get_other(), Player::Red);
    assert_eq!(Player::Red.get_other(), Player::Black);
    assert_eq!(Player::Black.forward(), 1);
    assert_eq!(Player::Red.forward(), -1);
    assert_eq!((Player::Black.home_row(), Player::Black.promotion_row()), (0, 7));
    assert_eq!((Player::Red.home_row(), Player::Red.promotion_row()), (7, 0));
    assert!(Player::Red.does_piece_match(BoardPiece::KingRed));
    assert!(!Player::Red.does_piece_match(BoardPiece::Black));
    assert!(!Player::Black.does_piece_match(BoardPiece::Empty));
}

#[test]
fn pieces_and_sides_have_their_codes() {
    assert_eq!(char::from(BoardPiece::Black), '1');
    assert_eq!(char::from(BoardPiece::Red), '2');
    assert_eq!(char::from(BoardPiece::KingBlack), '3');
    assert_eq!(char::from(BoardPiece::KingRed), '4');
    assert_eq!(char::from(BoardPiece::Empty), '0');
    assert_eq!(u8::from(Player::Black), 1);
    assert_eq!(u8::from(Player::Red), 2);
    for piece in [
        BoardPiece::Black,
        BoardPiece::Red,
        BoardPiece::KingBlack,
        BoardPiece::KingRed,
        BoardPiece::Empty,
    ] {
        assert_eq!(BoardPiece::try_from(char::from(piece)), Ok(piece));
    }
    assert_eq!(BoardPiece::try_from('5'), Err(ParseError::InvalidPiece('5')));
    assert_eq!(BoardPiece::try_from(' '), Err(ParseError::InvalidPiece(' ')));
}

#[test]
fn only_backward_steps_are_for_kings() {
    assert!(Move::BackwardRight.must_be_king());
    assert!(Move::BackwardLeft.must_be_king());
    assert!(!Move::ForwardRight.must_be_king());
    assert!(!Move::ForwardLeft.must_be_king());
    assert!(!Move::Jump.must_be_king());
    assert_eq!(Move::ForwardLeft.steps(Player::Red), (-1, -1));
    assert_eq!(Move::BackwardRight.steps(Player::Red), (1, 1));
    assert_eq!(Move::ForwardRight.steps(Player::Black), (1, 1));
}

#[test]
fn an_empty_move_names_no_square() {
    let m = Moves::new_empty();
    assert_eq!((m.start_loc(), m.end_loc()), ((9, 9), (9, 9)));
    assert!(!m.is_jump());
    assert!(m.jump_path().is_empty());
    let longer = m.with_capture((3, 3)).ending_on((4, 4));
    assert!(longer.is_jump());
    assert!(longer.captures((3, 3)));
    assert!(!longer.captures((4, 4)));
    assert_eq!(longer.end_loc(), (4, 4));
    assert_eq!(longer.clone().jump_path(), &vec![(3, 3)]);
    assert_ne!(MoveError::PlayerMustJump, MoveError::SpaceOccupied);
}

#[test]
fn the_records_of_the_two_sides_change_places() {
    let mut players = Players::default();
    assert_eq!(players.get_current_player().get_player(), Player::Black);
    assert_eq!(players.get_other_player().get_player(), Player::Red);
    assert_eq!(players.get_red().get_player(), Player::Red);
    assert_eq!(players.get_black().get_player(), Player::Black);
    players.swap();
    let (current, waiting) = players.get_current_players();
    assert_eq!((current.get_player(), waiting.get_player()), (Player::Red, Player::Black));
    assert_eq!(players.get_red().get_player(), Player::Red);
    assert_eq!(players.get_black().get_player(), Player::Black);
    assert!(current.get_moves().is_empty() && !current.get_can_jump());
}

#[test]
fn passing_the_move_gives_the_other_side_its_moves() {
    let mut board = Board::default();
    board.swap_current_player();
    assert_eq!(board.get_current_player(), Player::Red);
    let got: Vec<(Cord, Cord)> = board
        .get_player_info()
        .get_moves()
        .iter()
        .map(|m| (m.start_loc(), m.end_loc()))
        .collect();
    assert_eq!(
        got,
        vec![
            ((5, 1), (4, 2)),
            ((5, 1), (4, 0)),
            ((5, 3), (4, 4)),
            ((5, 3), (4, 2)),
            ((5, 5), (4, 6)),
            ((5, 5), (4, 4)),
            ((5, 7), (4, 6)),
        ]
    );
}

#[test]
fn the_pieces_of_both_sides_are_listed_row_by_row() {
    let mut grid = [[BoardPiece::Empty; 8]; 8];
    grid[4][4] = BoardPiece::KingBlack;
    grid[0][2] = BoardPiece::Black;
    grid[7][1] = BoardPiece::Red;
    let board = Board::new(grid, Players::default());
    let (mine, other) = board.get_pieces();
    assert_eq!(mine, vec![(BoardPiece::Black, (0, 2)), (BoardPiece::KingBlack, (4, 4))]);
    assert_eq!(other, vec![(BoardPiece::Red, (7, 1))]);
    let copy = board.clone();
    assert_eq!(copy.get_board(), grid);
    assert_eq!(copy.get_player_info().get_moves().len(), board.get_player_info().get_moves().len());
}

#[test]
fn a_capture_is_forced_on_every_piece_once_one_piece_has_it() {
    let mut grid = [[BoardPiece::Empty; 8]; 8];
    grid[2][2] = BoardPiece::Black;
    grid[3][3] = BoardPiece::Red;
    grid[0][6] = BoardPiece::Black;
    let board = Board::new(grid, Players::default());
    let info = board.get_player_info();
    assert!(info.get_can_jump());
    assert_eq!(info.get_moves().len(), 1);
    for m in info.get_moves().iter() {
        assert!(m.is_jump());
    }
    assert_eq!(info.get_moves()[0].start_loc(), (2, 2));
    assert_eq!(info.get_moves()[0].end_loc(), (4, 4));
    // A capture found on a later piece discards the quiet moves listed before it.
    let mut grid = [[BoardPiece::Empty; 8]; 8];
    grid[0][0] = BoardPiece::Black;
    grid[4][4] = BoardPiece::Black;
    grid[5][5] = BoardPiece::Red;
    let board = Board::new(grid, Players::default());
    let info = board.get_player_info();
    assert_eq!(info.get_moves().len(), 1);
    assert_eq!(info.get_moves()[0].jump_path(), &vec![(5, 5)]);
}

#[test]
fn a_pawn_does_not_capture_backwards_and_a_chain_branches() {
    let mut grid = [[BoardPiece::Empty; 8]; 8];
    grid[4][4] = BoardPiece::Black;
    grid[3][3] = BoardPiece::Red;
    grid[3][5] = BoardPiece::Red;
    let board = Board::new(grid, Players::default());
    assert!(!board.get_player_info().get_can_jump());
    // Two ways on from the first landing square: each is a move of its own.
    let mut grid = [[BoardPiece::Empty; 8]; 8];
    grid[0][2] = BoardPiece::Black;
    grid[1][3] = BoardPiece::Red;
    grid[3][5] = BoardPiece::Red;
    grid[3][3] = BoardPiece::Red;
    let board = Board::new(grid, Players::default());
    let got: Vec<(Cord, Vec<Cord>)> = board
        .get_player_info()
        .get_moves()
        .iter()
        .map(|m| (m.end_loc(), m.jump_path().clone()))
        .collect();
    assert_eq!(
        got,
        vec![((4, 6), vec![(1, 3), (3, 5)]), ((4, 2), vec![(1, 3), (3, 3)])]
    );
}
