use checkers::ai::clock::Deadline;
use checkers::ai::heuristic::{ceil_root, perturb, spread_of, Heuristic};
use checkers::ai::max_value;
use checkers::ai::minimax::{ABResult, MAX, MIN};
use checkers::board::{Board, BoardPiece, Players};

fn empty_grid() -> [[BoardPiece; 8]; 8] {
    [[BoardPiece::Empty; 8]; 8]
}

fn black_to_move(grid: [[BoardPiece; 8]; 8]) -> Board {
    Board::new(grid, Players::default())
}

fn red_to_move(grid: [[BoardPiece; 8]; 8]) -> Board {
    let mut players = Players::default();
    players.swap();
    Board::new(grid, players)
}

#[test]
fn a_centre_pawn_against_an_edge_pawn_by_hand() {
    let mut grid = empty_grid();
    grid[3][3] = BoardPiece::Black;
    grid[6][0] = BoardPiece::Red;
    let board = black_to_move(grid);
    let h = Heuristic::default_new();
    // own pawn, four rows from its crowning row and on a middle square:
    // 10000 + (7 - 4) * 500 + 500; the other pawn, six rows from its own:
    // 10000 + (7 - 6) * 500; two quiet moves at 400; material is level.
    assert_eq!(h.h(&board, true), 12000 - 10500 + 800);
    assert_eq!(h.h(&board, false), -2300);
    let at_depth_0 = max_value(&board, 0, MIN, MAX, &Deadline::Never, &h).unwrap();
    assert_eq!(at_depth_0, (2300, ABResult::DepthReached(None)));
}

#[test]
fn the_score_changes_sign_with_the_point_of_view() {
    let h = Heuristic::default_new();
    let mut board = Board::default();
    for step in 0..12 {
        assert_eq!(h.h(&board, true), -h.h(&board, false));
        let n = board.get_player_info().get_moves().len();
        assert!(board.do_move(step % n));
    }
    let odd = Heuristic::new(7, -3, 11, 0, 5, -8, 2, 1, 9, -4, 6);
    assert_eq!(odd.h(&board, true), -odd.h(&board, false));
}

#[test]
fn the_start_position_is_worth_its_mobility() {
    // The two sides mirror each other: each has four pawns on each of its
    // first three rows, and two defenders in the middle columns of its home
    // row and two on the outside.
    let h = Heuristic::default_new();
    let board = Board::default();
    let side = 12 * 10000 + 4 * (0 + 1 + 2) * 500 + 2 * 800 + 2 * 400;
    assert_eq!(h.h(&board, true), side - side + 7 * 400);
    // A defender in the middle of the home row, and a pawn one row on.
    let only_pieces = Heuristic::new(10000, 15000, 500, 500, 300, 800, 400, 0, 0, 0, 0);
    let mut grid = empty_grid();
    grid[0][2] = BoardPiece::Black;
    grid[1][1] = BoardPiece::Black;
    assert_eq!(only_pieces.h(&black_to_move(grid), true), (10000 + 800) + (10000 + 500));
    // The same two pieces seen from the other side, which has none of its own.
    assert_eq!(only_pieces.h(&red_to_move(grid), true), -21300);
    // A red pawn on the same squares is far from home and close to its crown.
    grid[0][2] = BoardPiece::Empty;
    grid[1][1] = BoardPiece::Red;
    assert_eq!(only_pieces.h(&red_to_move(grid), true), 10000 + 6 * 500);
    // A king earns nothing for its row, and more for a square of the middle rows.
    grid[1][1] = BoardPiece::Empty;
    grid[3][1] = BoardPiece::KingRed;
    assert_eq!(only_pieces.h(&red_to_move(grid), true), 15000 + 300);
    grid[3][1] = BoardPiece::Empty;
    grid[4][4] = BoardPiece::KingRed;
    assert_eq!(only_pieces.h(&red_to_move(grid), true), 15000 + 500);
}

#[test]
fn a_lead_in_material_is_rounded_up_and_a_deficit_towards_zero() {
    let h = Heuristic::new(0, 0, 0, 0, 0, 0, 0, 0, 0, 500, 0);
    let mut grid = empty_grid();
    grid[0][0] = BoardPiece::Black;
    grid[0][2] = BoardPiece::Black;
    grid[0][4] = BoardPiece::Black;
    grid[0][6] = BoardPiece::Black;
    grid[7][1] = BoardPiece::Red;
    grid[7][3] = BoardPiece::Red;
    grid[7][5] = BoardPiece::Red;
    // four against three: 4 * 500 / 3 = 666.67
    assert_eq!(h.h(&black_to_move(grid), true), 667);
    assert_eq!(h.h(&red_to_move(grid), true), -666);
    grid[7][7] = BoardPiece::Red;
    assert_eq!(h.h(&black_to_move(grid), true), 0);
}

#[test]
fn a_side_without_pieces_makes_the_lead_as_large_as_a_score_can_be() {
    let h = Heuristic::default_new();
    let mut grid = empty_grid();
    grid[3][3] = BoardPiece::Black;
    let board = black_to_move(grid);
    assert_eq!(h.h(&board, true), MAX);
    assert_eq!(h.h(&board, false), MIN);
}

#[test]
fn late_in_the_game_a_king_pays_for_its_farthest_enemy() {
    let h = Heuristic::new(0, 0, 0, 0, 0, 0, 0, 0, 0, 0, 200);
    let mut grid = empty_grid();
    grid[1][1] = BoardPiece::KingBlack;
    grid[5][5] = BoardPiece::Red;
    grid[2][6] = BoardPiece::Red;
    // from (1, 1): to (5, 5) is sqrt(32), 6 rounded up; to (2, 6) is sqrt(26), also 6.
    assert_eq!(h.h(&black_to_move(grid), true), -6 * 200);
    // with Red to move the king is the other side's, and its distance is a gain.
    assert_eq!(h.h(&red_to_move(grid), true), 6 * 200);
    grid[7][7] = BoardPiece::KingRed;
    grid[7][1] = BoardPiece::Red;
    grid[7][3] = BoardPiece::Red;
    grid[7][5] = BoardPiece::Red;
    // six pieces or more: no king is charged.
    assert_eq!(h.h(&black_to_move(grid), true), 0);
}

#[test]
fn roots_are_rounded_up() {
    assert_eq!(ceil_root(0), 0);
    assert_eq!(ceil_root(1), 1);
    assert_eq!(ceil_root(2), 2);
    assert_eq!(ceil_root(4), 2);
    assert_eq!(ceil_root(5), 3);
    assert_eq!(ceil_root(49), 7);
    assert_eq!(ceil_root(50), 8);
    assert_eq!(ceil_root(98), 10);
    assert_eq!(ceil_root(65535), 256);
}

#[test]
fn a_weight_moves_by_a_tenth_and_stays_above_zero() {
    assert_eq!(spread_of(10000), 1000);
    assert_eq!(spread_of(19), 1);
    assert_eq!(spread_of(9), 1);
    assert_eq!(spread_of(0), 1);
    assert_eq!(spread_of(-500), 1);
    assert_eq!(perturb(500, -50), 450);
    assert_eq!(perturb(500, 49), 549);
    assert_eq!(perturb(0, -1), 0);
    assert_eq!(perturb(-7, 3), 0);
    assert_eq!(perturb(i32::MAX, 5), i32::MAX);
}

#[test]
fn a_mutation_is_a_neighbour_of_the_weights() {
    let base = Heuristic::default_new();
    let before = base.weights();
    assert_eq!(before, [10000, 15000, 500, 500, 300, 800, 400, 400, 800, 500, 200]);
    let mut moved = false;
    for _ in 0..20 {
        let after = base.mutate().weights();
        for k in 0..11 {
            let d = spread_of(before[k]);
            assert!(before[k] - d <= after[k] && after[k] < before[k] + d);
            assert!(after[k] >= 0);
            if after[k] != before[k] {
                moved = true;
            }
        }
    }
    assert!(moved);
    assert_eq!(base.weights(), before);
}
