use checkers::board::{Board, BoardPiece, ParseError, Player};

#[test]
fn test_display() {
    let board1 = Board::default();
    println!("{}", board1.display_file().to_text());
    let board2: Board = board1.display_file().to_text().parse().unwrap();

    let grid1 = board1.get_board();
    let grid2 = board2.get_board();
    for (row1, row2) in grid1.iter().zip(grid2.iter()) {
        for (col1, col2) in row1.iter().zip(row2.iter()) {
            assert_eq!(*col1, *col2)
        }
    }
}

#[test]
fn the_start_position_is_written_highest_row_first() {
    let text = Board::default().display_file().to_text();
    let want = "0 2 0 2 0 2 0 2 \n\
                2 0 2 0 2 0 2 0 \n\
                0 2 0 2 0 2 0 2 \n\
                0 0 0 0 0 0 0 0 \n\
                0 0 0 0 0 0 0 0 \n\
                1 0 1 0 1 0 1 0 \n\
                0 1 0 1 0 1 0 1 \n\
                1 0 1 0 1 0 1 0 \n\
                1";
    assert_eq!(text, want);
}

#[test]
fn the_ninth_line_names_the_side_to_move() {
    let rows = "\n\n\n\n\n\n\n\n";
    assert_eq!(Board::parse(&format!("{}1", rows)).unwrap().get_current_player(), Player::Black);
    assert_eq!(Board::parse(&format!("{}2", rows)).unwrap().get_current_player(), Player::Red);
    assert_eq!(Board::parse(&format!("{}+2", rows)).unwrap().get_current_player(), Player::Red);
    assert_eq!(Board::parse(&format!("{}002", rows)).unwrap().get_current_player(), Player::Red);
    assert_eq!(Board::parse(&format!("{}2\n30", rows)).unwrap().get_current_player(), Player::Red);
    assert_eq!(Board::parse("").unwrap().get_current_player(), Player::Black);
}

#[test]
fn each_kind_of_bad_text_has_its_error() {
    let rows = "\n\n\n\n\n\n\n\n";
    assert_eq!(Board::parse(&format!("{}x", rows)).unwrap_err(), ParseError::PlayerNotNumber);
    assert_eq!(Board::parse(&format!("{}", rows)).unwrap_err(), ParseError::PlayerNotNumber);
    assert_eq!(Board::parse(&format!("{}+", rows)).unwrap_err(), ParseError::PlayerNotNumber);
    assert_eq!(Board::parse(&format!("{}-1", rows)).unwrap_err(), ParseError::PlayerNotNumber);
    assert_eq!(Board::parse(&format!("{}1 ", rows)).unwrap_err(), ParseError::PlayerNotNumber);
    assert_eq!(
        Board::parse(&format!("{}4294967296", rows)).unwrap_err(),
        ParseError::PlayerNotNumber
    );
    assert_eq!(Board::parse(&format!("{}0", rows)).unwrap_err(), ParseError::PlayerOutOfRange);
    assert_eq!(Board::parse(&format!("{}3", rows)).unwrap_err(), ParseError::PlayerOutOfRange);
    assert_eq!(
        Board::parse(&format!("{}4294967295", rows)).unwrap_err(),
        ParseError::PlayerOutOfRange
    );
    assert_eq!(Board::parse("1 1 1 1 1").unwrap_err(), ParseError::TooManyPieces);
    assert_eq!(Board::parse("1 5").unwrap_err(), ParseError::InvalidPiece('5'));
    assert_eq!(Board::parse("1 1 1 1 x").unwrap_err(), ParseError::TooManyPieces);
    assert_eq!(Board::parse("\n7\nx").unwrap_err(), ParseError::InvalidPiece('7'));
}

#[test]
fn pieces_go_on_every_other_column_and_empty_codes_are_passed_over() {
    let board = Board::parse("0 0 0 4\n3 0 2").unwrap();
    let grid = board.get_board();
    assert_eq!(grid[7][1], BoardPiece::KingRed);
    assert_eq!(grid[6][0], BoardPiece::KingBlack);
    assert_eq!(grid[6][2], BoardPiece::Red);
    let mut count = 0;
    for row in grid.iter() {
        for piece in row.iter() {
            if *piece != BoardPiece::Empty {
                count += 1;
            }
        }
    }
    assert_eq!(count, 3);
    assert_eq!(board.get_current_player(), Player::Black);
}
