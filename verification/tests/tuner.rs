use checkers::ai::heuristic::Heuristic;
use checkers::board::{Board, BoardPiece, Player, Players};
use checkers::tuner::{beats, game_loop, game_result, select_best, GameResult, Progress, WORST};
use std::sync::{Arc, RwLock};

fn weights(n: i32) -> Heuristic {
    Heuristic::new(n, 0, 0, 0, 0, 0, 0, 0, 0, 0, 0)
}

fn first(h: &Heuristic) -> i32 {
    h.weights()[0]
}

#[test]
fn a_tie_at_the_worst_fitness_keeps_the_baseline() {
    let results: Vec<GameResult> = vec![(WORST, weights(1)), (WORST, weights(2))];
    let (fitness, chosen) = select_best(weights(0), &results);
    assert_eq!(fitness, u32::MAX);
    assert_eq!(first(&chosen), 0);
    let (fitness, chosen) = select_best(weights(0), &vec![]);
    assert_eq!((fitness, first(&chosen)), (u32::MAX, 0));
}

#[test]
fn the_lowest_fitness_wins_and_the_first_of_equals() {
    let results: Vec<GameResult> =
        vec![(40, weights(1)), (31, weights(2)), (77, weights(3)), (31, weights(4))];
    let (fitness, chosen) = select_best(weights(0), &results);
    assert_eq!((fitness, first(&chosen)), (31, 2));
}

#[test]
fn a_game_is_cut_off_after_fifty_quiet_moves_or_when_it_cannot_win() {
    let at = |quiet: u32, red: u32, black: u32| Progress {
        red_counter: red,
        black_counter: black,
        time_since_last_jump: quiet,
    };
    assert!(!at(50, 10, 10).cut_off(u32::MAX));
    assert!(at(51, 10, 10).cut_off(u32::MAX));
    assert!(!at(0, 10, 9).cut_off(10));
    assert!(at(0, 11, 9).cut_off(10));
    assert!(at(0, 9, 11).cut_off(10));
    assert!(beats(3, 4));
    assert!(!beats(4, 4));
}

#[test]
fn each_move_is_counted_for_its_side_and_a_capture_starts_the_quiet_count_anew() {
    let start = Progress::new();
    assert_eq!((start.red_counter, start.black_counter, start.time_since_last_jump), (0, 0, 0));
    let one = start.count_move(Player::Black, false);
    assert_eq!((one.red_counter, one.black_counter, one.time_since_last_jump), (0, 1, 1));
    let two = one.count_move(Player::Red, false);
    assert_eq!((two.red_counter, two.black_counter, two.time_since_last_jump), (1, 1, 2));
    let three = two.count_move(Player::Black, true);
    assert_eq!((three.red_counter, three.black_counter, three.time_since_last_jump), (1, 2, 0));
}

#[test]
fn a_game_that_was_won_counts_the_moves_of_the_winner() {
    let mut grid = [[BoardPiece::Empty; 8]; 8];
    grid[7][7] = BoardPiece::Red;
    // Black is to move and has no piece: Red has won.
    let lost = Board::new(grid, Players::default());
    let (fitness, h) = game_result(&lost, 17, 16, weights(1), weights(2));
    assert_eq!((fitness, first(&h)), (17, 1));
}

#[test]
fn a_game_that_was_cut_off_goes_to_the_side_with_more_pieces() {
    let mut grid = [[BoardPiece::Empty; 8]; 8];
    grid[0][0] = BoardPiece::Black;
    grid[0][2] = BoardPiece::Black;
    grid[7][7] = BoardPiece::Red;
    let ahead = Board::new(grid, Players::default());
    let (fitness, h) = game_result(&ahead, 17, 16, weights(1), weights(2));
    assert_eq!((fitness, first(&h)), (u32::MAX, 2));
    // Level material goes to the side that is not to move.
    grid[7][5] = BoardPiece::Red;
    let level = Board::new(grid, Players::default());
    let (fitness, h) = game_result(&level, 17, 16, weights(1), weights(2));
    assert_eq!((fitness, first(&h)), (u32::MAX, 1));
}

#[test]
fn a_game_that_cannot_beat_the_best_is_cut_off_after_its_first_move() {
    let best = Arc::new(RwLock::new(0u32));
    let h = Heuristic::default_new();
    let (fitness, winner) = game_loop(h.clone(), weights(5), 1, &best).unwrap();
    // Black moved first and was cut off; material is level, so the game goes to Red.
    assert_eq!(fitness, u32::MAX);
    assert_eq!(winner.weights(), h.weights());
    assert_eq!(*best.read().unwrap(), 0);
}
