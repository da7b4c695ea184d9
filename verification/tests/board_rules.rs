use checkers::board::{Board, BoardPiece, Cord, Moves, Player, Players};

fn empty_grid() -> [[BoardPiece; 8]; 8] {
    [[BoardPiece::Empty; 8]; 8]
}

fn black_to_move(grid: [[BoardPiece; 8]; 8]) -> Board {
    Board::new(grid, Players::default())
}

fn red_to_move(grid: [[BoardPiece; 8]; 8]) -> Board {
    let mut players = Players::default();
    players.swap();
    Board::new(grid, players)
}

fn triples(moves: &Vec<Moves>) -> Vec<(Cord, Cord, Vec<Cord>)> {
    moves
        .iter()
        .map(|m| (m.start_loc(), m.end_loc(), m.jump_path().clone()))
        .collect()
}

#[test]
fn start_position_has_the_seven_forward_advances() {
    let board = Board::default();
    assert_eq!(board.get_current_player(), Player::Black);
    let info = board.get_player_info();
    assert!(!info.get_can_jump());
    let got = triples(info.get_moves());
    let want: Vec<(Cord, Cord, Vec<Cord>)> = vec![
        ((2, 0), (3, 1), vec![]),
        ((2, 2), (3, 3), vec![]),
        ((2, 2), (3, 1), vec![]),
        ((2, 4), (3, 5), vec![]),
        ((2, 4), (3, 3), vec![]),
        ((2, 6), (3, 7), vec![]),
        ((2, 6), (3, 5), vec![]),
    ];
    assert_eq!(got, want);
    assert_eq!(board.is_game_over(), None);
}

#[test]
fn king_takes_a_double_chain_and_nothing_less() {
    let mut grid = empty_grid();
    grid[0][0] = BoardPiece::KingBlack;
    grid[1][1] = BoardPiece::Red;
    grid[3][3] = BoardPiece::Red;
    let board = black_to_move(grid);
    let info = board.get_player_info();
    assert!(info.get_can_jump());
    let got = triples(info.get_moves());
    assert_eq!(got, vec![((0, 0), (4, 4), vec![(1, 1), (3, 3)])]);
    assert!(info.get_moves()[0].is_jump());
}

#[test]
fn a_king_may_jump_back_to_the_square_it_started_from() {
    let mut grid = empty_grid();
    grid[2][2] = BoardPiece::KingBlack;
    grid[3][3] = BoardPiece::Red;
    grid[5][3] = BoardPiece::Red;
    grid[5][1] = BoardPiece::Red;
    grid[3][1] = BoardPiece::Red;
    let mut board = black_to_move(grid);
    let got = triples(board.get_player_info().get_moves());
    assert_eq!(
        got,
        vec![
            ((2, 2), (2, 2), vec![(3, 3), (5, 3), (5, 1), (3, 1)]),
            ((2, 2), (2, 2), vec![(3, 1), (5, 1), (5, 3), (3, 3)]),
        ]
    );
    assert!(board.do_move(0));
    let after = board.get_board();
    assert_eq!(after[2][2], BoardPiece::KingBlack);
    assert_eq!(after[3][3], BoardPiece::Empty);
    assert_eq!(after[5][3], BoardPiece::Empty);
    assert_eq!(after[5][1], BoardPiece::Empty);
    assert_eq!(after[3][1], BoardPiece::Empty);
    assert_eq!(board.get_current_player(), Player::Red);
    assert_eq!(board.is_game_over(), Some(Player::Black));
}

#[test]
fn a_move_out_of_range_changes_nothing() {
    let mut board = Board::default();
    let before = board.get_board();
    let n = board.get_player_info().get_moves().len();
    assert_eq!(n, 7);
    assert!(!board.do_move(n));
    assert!(!board.do_move(usize::MAX));
    assert_eq!(board.get_board(), before);
    assert_eq!(board.get_current_player(), Player::Black);
    assert_eq!(board.get_player_info().get_moves().len(), 7);
}

#[test]
fn a_pawn_is_crowned_on_the_far_row() {
    let mut grid = empty_grid();
    grid[1][1] = BoardPiece::Red;
    grid[6][6] = BoardPiece::Black;
    let mut board = red_to_move(grid);
    let got = triples(board.get_player_info().get_moves());
    assert_eq!(got, vec![((1, 1), (0, 2), vec![]), ((1, 1), (0, 0), vec![])]);
    assert!(board.do_move(0));
    assert_eq!(board.get_board()[0][2], BoardPiece::KingRed);
    assert_eq!(board.get_board()[1][1], BoardPiece::Empty);
    assert!(board.do_move(0));
    assert_eq!(board.get_board()[7][7], BoardPiece::KingBlack);
}
