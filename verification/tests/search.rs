use checkers::ai::clock::{check_time_limit, used_up, Deadline};
use checkers::ai::heuristic::Heuristic;
use checkers::ai::minimax::{ABResult, MAX, MIN};
use checkers::ai::search::{budget_of, is_terminal, settle, Step};
use checkers::ai::{deepen, max_value, min_value, predict_move};
use checkers::board::{Board, BoardPiece, Players};
use std::time::{Instant, SystemTime};

fn empty_grid() -> [[BoardPiece; 8]; 8] {
    [[BoardPiece::Empty; 8]; 8]
}

fn black_to_move(grid: [[BoardPiece; 8]; 8]) -> Board {
    Board::new(grid, Players::default())
}

/// Minimax without a window: every move of every node is looked at.
fn plain_minimax(board: &Board, depth: u32, is_max: bool, h: &Heuristic) -> i32 {
    let n = board.get_player_info().get_moves().len();
    if n == 0 {
        return if is_max { MIN + depth as i32 } else { MAX - depth as i32 };
    }
    if depth == 0 {
        return h.h(board, is_max);
    }
    let mut best = if is_max { MIN } else { MAX };
    for i in 0..n {
        let mut next = board.clone();
        assert!(next.do_move(i));
        let v = plain_minimax(&next, depth - 1, !is_max, h);
        if (is_max && v > best) || (!is_max && v < best) {
            best = v;
        }
    }
    best
}

fn midgame() -> Board {
    let mut board = Board::default();
    for step in [0usize, 1, 2, 0, 3, 1] {
        let n = board.get_player_info().get_moves().len();
        assert!(board.do_move(step % n));
    }
    board
}

#[test]
fn alpha_beta_returns_the_value_of_plain_minimax() {
    let h = Heuristic::default_new();
    for board in [Board::default(), midgame()] {
        for depth in 0..5 {
            let (v, how) = max_value(&board, depth, MIN, MAX, &Deadline::Never, &h).unwrap();
            assert_eq!(v, plain_minimax(&board, depth, true, &h));
            assert_ne!(how, ABResult::TimeLimitExpired);
            let (v, _) = min_value(&board, depth, MIN, MAX, &Deadline::Never, &h).unwrap();
            assert_eq!(v, plain_minimax(&board, depth, false, &h));
        }
    }
}

#[test]
fn among_equal_moves_the_first_is_chosen() {
    // Every weight is zero, so every line of play that the depth cuts is worth 0.
    let h = Heuristic::new(0, 0, 0, 0, 0, 0, 0, 0, 0, 0, 0);
    let board = Board::default();
    let (v, how) = max_value(&board, 2, MIN, MAX, &Deadline::Never, &h).unwrap();
    assert_eq!((v, how), (0, ABResult::DepthReached(Some(0))));
}

#[test]
fn a_win_one_move_away_is_found_and_ends_the_search() {
    let mut grid = empty_grid();
    grid[2][2] = BoardPiece::Black;
    grid[0][0] = BoardPiece::Black;
    grid[3][3] = BoardPiece::Red;
    let board = black_to_move(grid);
    let h = Heuristic::default_new();
    // the only move captures the last red piece, and Red cannot move.
    assert_eq!(board.get_player_info().get_moves().len(), 1);
    let (v, how) = max_value(&board, 3, MIN, MAX, &Deadline::Never, &h).unwrap();
    assert_eq!((v, how), (MAX - 2, ABResult::Finished(Some(0))));
    assert_eq!(deepen(&board, &Deadline::Never, &h), Ok(0));
    assert_eq!(predict_move(board, 1, None), Ok(0));
}

#[test]
fn the_quicker_win_is_preferred() {
    let mut grid = empty_grid();
    grid[0][0] = BoardPiece::KingBlack;
    grid[4][4] = BoardPiece::KingBlack;
    grid[5][5] = BoardPiece::Red;
    let board = black_to_move(grid);
    let h = Heuristic::default_new();
    let moves = board.get_player_info().get_moves();
    assert_eq!(moves.len(), 1);
    assert!(moves[0].is_jump());
    let (v, how) = max_value(&board, 4, MIN, MAX, &Deadline::Never, &h).unwrap();
    assert_eq!((v, how), (MAX - 3, ABResult::Finished(Some(0))));
}

#[test]
fn a_lost_position_is_worth_less_the_sooner_it_is_lost() {
    let mut grid = empty_grid();
    grid[7][7] = BoardPiece::Red;
    let board = black_to_move(grid);
    let h = Heuristic::default_new();
    assert_eq!(board.get_player_info().get_moves().len(), 0);
    assert_eq!(
        max_value(&board, 5, MIN, MAX, &Deadline::Never, &h),
        Ok((MIN + 5, ABResult::Finished(None)))
    );
    assert_eq!(
        min_value(&board, 5, MIN, MAX, &Deadline::Never, &h),
        Ok((MAX - 5, ABResult::Finished(None)))
    );
    assert_eq!(is_terminal(&board, 5, true, true, &h), Ok((0, ABResult::TimeLimitExpired)));
    assert_eq!(is_terminal(&board, 0, false, true, &h), Ok((MIN, ABResult::Finished(None))));
    let start = Board::default();
    assert_eq!(is_terminal(&start, 3, false, true, &h), Err(()));
    assert_eq!(
        is_terminal(&start, 0, false, false, &h),
        Ok((h.h(&start, false), ABResult::DepthReached(None)))
    );
}

#[test]
fn a_deadline_that_has_passed_stops_the_search_at_once() {
    let h = Heuristic::default_new();
    let board = Board::default();
    let passed = Deadline::after(0);
    let (_, how) = max_value(&board, 6, MIN, MAX, &passed, &h).unwrap();
    assert_eq!(how, ABResult::TimeLimitExpired);
    assert_eq!(deepen(&board, &passed, &h), Ok(0));
    assert_eq!(predict_move(board, 0, Some(h)), Ok(0));
}

#[test]
fn each_outcome_of_a_depth_settles_what_comes_next() {
    assert_eq!(settle(ABResult::Finished(Some(3)), false, 1), Step::Stop(3));
    assert_eq!(settle(ABResult::DepthReached(Some(3)), false, 1), Step::Deepen(3));
    assert_eq!(settle(ABResult::TimeLimitExpired, false, 1), Step::Stop(1));
    assert_eq!(settle(ABResult::Initial, true, 1), Step::Stop(1));
    assert_eq!(settle(ABResult::Initial, false, 1), Step::Deepen(0));
    assert_eq!(ABResult::DepthReached(None).set(4), ABResult::DepthReached(Some(4)));
    assert_eq!(ABResult::Finished(Some(1)).set(4), ABResult::Finished(Some(4)));
    assert_eq!(ABResult::Initial.set(4), ABResult::Initial);
    assert_eq!(ABResult::TimeLimitExpired.set(4), ABResult::TimeLimitExpired);
    assert_eq!(ABResult::Finished(Some(4)).choice(), Some(4));
    assert_eq!(ABResult::Initial.choice(), None);
}

#[test]
fn a_tenth_of_a_second_is_kept_back_from_the_budget() {
    assert_eq!(budget_of(0), 0);
    assert_eq!(budget_of(1), 900);
    assert_eq!(budget_of(20), 19900);
    assert_eq!(budget_of(u32::MAX), 4294967295u128 * 1000 - 100);
}

#[test]
fn the_move_in_time_is_that_of_a_search_that_was_completed() {
    let board = midgame();
    let h = Heuristic::default_new();
    let begun = Instant::now();
    let chosen = predict_move(board.clone(), 1, Some(h.clone())).unwrap();
    let taken = begun.elapsed();
    assert!(taken.as_millis() < 1500, "took {:?}", taken);
    assert!(chosen < board.get_player_info().get_moves().len());
    // The same searches once more, each to its end: one of them chose this move.
    let again = Instant::now();
    let mut depth = 1;
    loop {
        let (_, how) = max_value(&board, depth, MIN, MAX, &Deadline::Never, &h).unwrap();
        if how.choice() == Some(chosen) {
            break;
        }
        assert!(again.elapsed().as_secs() < 10, "no completed search chose move {}", chosen);
        depth += 1;
    }
}

#[test]
fn the_clock_is_held_against_the_limit() {
    assert!(used_up(5, 5));
    assert!(used_up(6, 5));
    assert!(!used_up(4, 5));
    assert!(used_up(0, 0));
    let now = SystemTime::now();
    assert_eq!(check_time_limit(0, &now), Ok(true));
    assert_eq!(check_time_limit(u128::MAX, &now), Ok(false));
    assert_eq!(Deadline::Never.expired(), Ok(false));
    assert_eq!(Deadline::after(0).expired(), Ok(true));
    assert_eq!(Deadline::after(u128::MAX).expired(), Ok(false));
}
