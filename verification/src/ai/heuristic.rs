//! The evaluation of a position: a weighted sum of what each piece is worth
//! where it stands, of how many moves the side to move has, and of who leads
//! in material.

use crate::board::laws::{lemma_owned_len, lemma_owned_valid};
use crate::board::moves::sq;
use crate::board::rules::{at, must_jump, on_board, pieces, Grid, Position, Sq};
use crate::board::state::{stands, Board};
use crate::board::{BoardPiece, Cord, Player};
use rand::Rng;
use vstd::arithmetic::div_mod::{
    lemma_div_basics, lemma_div_is_ordered_by_denominator, lemma_div_pos_is_pos,
    lemma_fundamental_div_mod, lemma_fundamental_div_mod_converse, lemma_mod_bound,
};
use vstd::prelude::*;

verus! {

/// The weights of an evaluation, as numbers.
pub struct Weights {
    /// What a pawn is worth.
    pub n_piece_val: int,
    /// What a king is worth.
    pub k_piece_val: int,
    /// What each row of advance towards the crowning row is worth to a pawn.
    pub d_hr_mul: int,
    /// The bonus for one of the four squares in the middle of the board.
    pub true_center: int,
    /// The bonus for another square of the two middle rows.
    pub off_center: int,
    /// The bonus for a defender on the four middle columns of the home row.
    pub goalies_center: int,
    /// The bonus for a defender on the outer columns of the home row.
    pub goalies_side: int,
    /// What each legal move is worth when the moves are quiet.
    pub per_move_val: int,
    /// What each legal move is worth when the moves are captures.
    pub per_jump_move_val: int,
    /// What the lead in material is multiplied by.
    pub aggression_multiplier: int,
    /// What a king pays, late in the game, for each step to its farthest enemy.
    pub distance_penalty: int,
}

/// The greatest score; the least is its negative.
pub open spec fn score_max() -> int {
    0x7fff_ffff
}

/// The larger of two numbers.
pub open spec fn larger(a: int, b: int) -> int {
    if a >= b {
        a
    } else {
        b
    }
}

/// A number without its sign.
pub open spec fn magnitude(a: int) -> int {
    if a >= 0 {
        a
    } else {
        -a
    }
}

/// `v`, held to the range of scores.
pub open spec fn clamp_score(v: int) -> int {
    if v > score_max() {
        score_max()
    } else if v < -score_max() {
        -score_max()
    } else {
        v
    }
}

/// What the piece `p` is worth by its kind.
pub open spec fn piece_type_value(w: Weights, p: BoardPiece) -> int {
    if p.spec_is_king() {
        w.k_piece_val
    } else {
        w.n_piece_val
    }
}

/// What a pawn on row `row` earns for its advance towards row `goal`: the
/// more the nearer, seven rows' worth on the row itself.
pub open spec fn depth_distance(w: Weights, row: int, goal: int) -> int {
    (7 - magnitude(row - goal)) * w.d_hr_mul
}

/// The bonus for standing on one of the two middle rows.
pub open spec fn in_center(w: Weights, s: Sq) -> int {
    if s.0 == 3 || s.0 == 4 {
        if s.1 == 3 || s.1 == 4 {
            w.true_center
        } else {
            w.off_center
        }
    } else {
        0
    }
}

/// The bonus for standing on the row `home_row`.
pub open spec fn in_goal(w: Weights, s: Sq, home_row: int) -> int {
    if s.0 == home_row {
        if 1 < s.1 < 6 {
            w.goalies_center
        } else {
            w.goalies_side
        }
    } else {
        0
    }
}

/// What the piece of `side` on `s` is worth where it stands: its kind, its
/// advance towards the row where its side is crowned if it is a pawn, its
/// place in the middle of the board, and its place on the row that its side
/// starts from.
pub open spec fn piece_score(w: Weights, g: Grid, side: Player, s: Sq) -> int {
    piece_type_value(w, at(g, s)) + (if at(g, s).spec_is_king() {
        0
    } else {
        depth_distance(w, s.0, side.spec_promotion_row())
    }) + in_center(w, s) + in_goal(w, s, side.spec_home_row())
}

/// What the first `k` of the pieces of `side`, which stand on `locs`, are
/// worth together.
pub open spec fn side_sum(w: Weights, g: Grid, side: Player, locs: Seq<Sq>, k: nat) -> int
    decreases k,
{
    if k == 0 {
        0
    } else {
        side_sum(w, g, side, locs, (k - 1) as nat) + piece_score(w, g, side, locs[k - 1])
    }
}

/// The least `r >= k` whose square is at least `n`.
pub open spec fn root_from(n: int, k: nat) -> nat
    decreases n - k,
{
    if k * k >= n {
        k
    } else {
        proof {
            assert(k < n) by (nonlinear_arith)
                requires
                    k * k < n,
                    k >= 0,
            ;
        }
        root_from(n, k + 1)
    }
}

/// The square root of `n`, rounded up.
pub open spec fn ceil_sqrt(n: int) -> nat {
    root_from(n, 0)
}

/// The distance between two squares as the crow flies, rounded up.
pub open spec fn square_gap(a: Sq, b: Sq) -> int {
    ceil_sqrt((a.0 - b.0) * (a.0 - b.0) + (a.1 - b.1) * (a.1 - b.1)) as int
}

/// The distance from `from` to the farthest of the first `k` of `others`.
pub open spec fn square_distance(from: Sq, others: Seq<Sq>, k: nat) -> int
    decreases k,
{
    if k == 0 {
        0
    } else {
        larger(square_distance(from, others, (k - 1) as nat), square_gap(from, others[k - 1]))
    }
}

/// The longest way that a king among the first `k` of `locs` has to its
/// farthest enemy; 0 where there is no king among them.
pub open spec fn longest_pursuit(g: Grid, locs: Seq<Sq>, others: Seq<Sq>, k: nat) -> int
    decreases k,
{
    if k == 0 {
        0
    } else {
        larger(
            longest_pursuit(g, locs, others, (k - 1) as nat),
            if at(g, locs[k - 1]).spec_is_king() {
                square_distance(locs[k - 1], others, others.len())
            } else {
                0
            },
        )
    }
}

/// Whether few enough pieces are left for kings to be asked to close in.
pub open spec fn is_end_game(mine: nat, theirs: nat) -> bool {
    mine + theirs < 6
}

/// What the kings on `locs` are charged steps for: late in the game, the
/// longest way any of them has to its farthest enemy.
pub open spec fn pursuit(g: Grid, locs: Seq<Sq>, others: Seq<Sq>) -> int {
    if is_end_game(locs.len(), others.len()) {
        longest_pursuit(g, locs, others, locs.len())
    } else {
        0
    }
}

/// What the moves of the side to move are worth: each the same, and more
/// when they are captures.
pub open spec fn mobility(w: Weights, pos: Position) -> int {
    pos.moves().len() * (if must_jump(pos.grid, pos.mover) {
        w.per_jump_move_val
    } else {
        w.per_move_val
    })
}

/// `x / d`, rounded up.
pub open spec fn ceil_div(x: int, d: int) -> int {
    -((-x) / d)
}

/// What the lead in material is worth to the side to move, which has `mine`
/// pieces against `theirs`: nothing where the two are level; otherwise the
/// multiplier times the larger count over the smaller, rounded up, for the
/// side that leads and against the side that trails. A side without pieces
/// makes the ratio unbounded, and the term as large as a score can be.
pub open spec fn aggression_value(w: Weights, mine: nat, theirs: nat) -> int {
    if mine == theirs {
        0
    } else {
        let sign: int = if mine > theirs {
            1
        } else {
            -1
        };
        let big = larger(mine as int, theirs as int);
        let little = if mine > theirs {
            theirs
        } else {
            mine
        };
        if little == 0 {
            if w.aggression_multiplier > 0 {
                sign * score_max()
            } else if w.aggression_multiplier < 0 {
                -sign * score_max()
            } else {
                0
            }
        } else {
            ceil_div(sign * big * w.aggression_multiplier, little as int)
        }
    }
}

/// The score of `pos` as the side to move sees it, before it is held to the
/// range of scores: its own pieces less the other side's, less what its
/// kings are charged for their distance and plus what the other side's are,
/// plus mobility and material.
pub open spec fn raw_score(w: Weights, pos: Position) -> int {
    let other = pos.mover.spec_get_other();
    let mine = pieces(pos.grid, pos.mover);
    let theirs = pieces(pos.grid, other);
    side_sum(w, pos.grid, pos.mover, mine, mine.len()) - pursuit(pos.grid, mine, theirs)
        * w.distance_penalty - side_sum(w, pos.grid, other, theirs, theirs.len()) + pursuit(
        pos.grid,
        theirs,
        mine,
    ) * w.distance_penalty + mobility(w, pos) + aggression_value(w, mine.len(), theirs.len())
}

/// The score of `pos`: as the side to move sees it where `is_max` holds,
/// and the negative of that where it does not.
pub open spec fn score(w: Weights, pos: Position, is_max: bool) -> int {
    clamp_score(
        if is_max {
            raw_score(w, pos)
        } else {
            -raw_score(w, pos)
        },
    )
}

/// Anti-symmetry: seen from the other side, every position is worth the
/// negative of what it is worth from this one.
pub proof fn lemma_score_anti_symmetric(w: Weights, pos: Position)
    ensures
        score(w, pos, true) == -score(w, pos, false),
{
}

/// A score is never beyond the greatest score or below its negative.
pub proof fn lemma_score_in_range(w: Weights, pos: Position, is_max: bool)
    ensures
        -score_max() <= score(w, pos, is_max) <= score_max(),
{
}

/// Rounding a quotient of a non-negative number up: one less than the
/// divisor is added before the division.
proof fn lemma_ceil_div(x: int, d: int)
    requires
        0 <= x,
        0 < d,
    ensures
        ceil_div(x, d) == (x + d - 1) / d,
        ceil_div(-x, d) == -(x / d),
{
    let q = (-x) / d;
    let r = (-x) % d;
    lemma_fundamental_div_mod(-x, d);
    lemma_mod_bound(-x, d);
    if r == 0 {
        assert(x + d - 1 == (-q) * d + (d - 1)) by (nonlinear_arith)
            requires
                -x == d * q + r,
                r == 0,
        ;
        lemma_fundamental_div_mod_converse(x + d - 1, d, -q, d - 1);
    } else {
        assert(x + d - 1 == (-q) * d + (d - r - 1)) by (nonlinear_arith)
            requires
                -x == d * q + r,
        ;
        lemma_fundamental_div_mod_converse(x + d - 1, d, -q, d - r - 1);
    }
}

/// `a` times the weight `w`, for a small count `a`.
fn scale(a: i64, w: i32) -> (r: i64)
    requires
        0 <= a <= 64,
    ensures
        r == a * w,
{
    assert(-64 * 0x8000_0000 <= a * w <= 64 * 0x8000_0000) by (nonlinear_arith)
        requires
            0 <= a <= 64,
            -0x8000_0000 <= w < 0x8000_0000,
    ;
    a * (w as i64)
}

/// The square root of `n`, rounded up.
pub fn ceil_root(n: u32) -> (r: u32)
    ensures
        r == ceil_sqrt(n as int),
{
    let mut k: u64 = 0;
    let mut square: u64 = 0;
    while square < n as u64
        invariant
            k <= 0x1_0000,
            square == k * k,
            root_from(n as int, k as nat) == ceil_sqrt(n as int),
        decreases 0x1_0000 - k,
    {
        assert(k < 0x1_0000) by (nonlinear_arith)
            requires
                k * k < n,
                n < 0x1_0000_0000,
        ;
        assert((k + 1) * (k + 1) == k * k + 2 * k + 1) by (nonlinear_arith);
        square = square + 2 * k + 1;
        k += 1;
    }
    k as u32
}

/// The weights of an evaluation.
#[derive(Debug)]
pub struct Heuristic {
    n_piece_val: i32,
    k_piece_val: i32,
    d_hr_mul: i32,
    true_center: i32,
    off_center: i32,
    goalies_center: i32,
    goalies_side: i32,
    per_move_val: i32,
    per_jump_move_val: i32,
    aggression_multiplier: i32,
    distance_penalty: i32,
}

impl View for Heuristic {
    type V = Weights;

    closed spec fn view(&self) -> Weights {
        Weights {
            n_piece_val: self.n_piece_val as int,
            k_piece_val: self.k_piece_val as int,
            d_hr_mul: self.d_hr_mul as int,
            true_center: self.true_center as int,
            off_center: self.off_center as int,
            goalies_center: self.goalies_center as int,
            goalies_side: self.goalies_side as int,
            per_move_val: self.per_move_val as int,
            per_jump_move_val: self.per_jump_move_val as int,
            aggression_multiplier: self.aggression_multiplier as int,
            distance_penalty: self.distance_penalty as int,
        }
    }
}

impl Clone for Heuristic {
    fn clone(&self) -> (r: Self)
        ensures
            r@ == self@,
    {
        Heuristic {
            n_piece_val: self.n_piece_val,
            k_piece_val: self.k_piece_val,
            d_hr_mul: self.d_hr_mul,
            true_center: self.true_center,
            off_center: self.off_center,
            goalies_center: self.goalies_center,
            goalies_side: self.goalies_side,
            per_move_val: self.per_move_val,
            per_jump_move_val: self.per_jump_move_val,
            aggression_multiplier: self.aggression_multiplier,
            distance_penalty: self.distance_penalty,
        }
    }
}

/// The weights that an evaluation starts from.
pub open spec fn default_weights() -> Weights {
    Weights {
        n_piece_val: 10000,
        k_piece_val: 15000,
        d_hr_mul: 500,
        true_center: 500,
        off_center: 300,
        goalies_center: 800,
        goalies_side: 400,
        per_move_val: 400,
        per_jump_move_val: 800,
        aggression_multiplier: 500,
        distance_penalty: 200,
    }
}

impl Heuristic {
    /// The evaluation with the weights given.
    pub fn new(
        n_piece_val: i32,
        k_piece_val: i32,
        d_hr_mul: i32,
        true_center: i32,
        off_center: i32,
        goalies_center: i32,
        goalies_side: i32,
        per_move_val: i32,
        per_jump_move_val: i32,
        aggression_multiplier: i32,
        distance_penalty: i32,
    ) -> (r: Self)
        ensures
            r@ == (Weights {
                n_piece_val: n_piece_val as int,
                k_piece_val: k_piece_val as int,
                d_hr_mul: d_hr_mul as int,
                true_center: true_center as int,
                off_center: off_center as int,
                goalies_center: goalies_center as int,
                goalies_side: goalies_side as int,
                per_move_val: per_move_val as int,
                per_jump_move_val: per_jump_move_val as int,
                aggression_multiplier: aggression_multiplier as int,
                distance_penalty: distance_penalty as int,
            }),
    {
        Self {
            n_piece_val,
            k_piece_val,
            d_hr_mul,
            true_center,
            off_center,
            goalies_center,
            goalies_side,
            per_move_val,
            per_jump_move_val,
            aggression_multiplier,
            distance_penalty,
        }
    }

    /// The evaluation with the weights that tuning starts from.
    pub fn default_new() -> (r: Self)
        ensures
            r@ == default_weights(),
    {
        Self {
            n_piece_val: 10000,
            k_piece_val: 15000,
            d_hr_mul: 500,
            true_center: 500,
            off_center: 300,
            goalies_center: 800,
            goalies_side: 400,
            per_move_val: 400,
            per_jump_move_val: 800,
            aggression_multiplier: 500,
            distance_penalty: 200,
        }
    }

    /// The weights, in the order in which `new` takes them.
    pub fn weights(&self) -> (r: [i32; 11])
        ensures
            self@ == (Weights {
                n_piece_val: r[0] as int,
                k_piece_val: r[1] as int,
                d_hr_mul: r[2] as int,
                true_center: r[3] as int,
                off_center: r[4] as int,
                goalies_center: r[5] as int,
                goalies_side: r[6] as int,
                per_move_val: r[7] as int,
                per_jump_move_val: r[8] as int,
                aggression_multiplier: r[9] as int,
                distance_penalty: r[10] as int,
            }),
    {
        [
            self.n_piece_val,
            self.k_piece_val,
            self.d_hr_mul,
            self.true_center,
            self.off_center,
            self.goalies_center,
            self.goalies_side,
            self.per_move_val,
            self.per_jump_move_val,
            self.aggression_multiplier,
            self.distance_penalty,
        ]
    }

    /// The score of `state`: as the side to move sees it where `is_max`
    /// holds, and the negative of that where it does not.
    pub fn h(&self, state: &Board, is_max: bool) -> (r: i32)
        requires
            state.wf(),
        ensures
            r == score(self@, state@, is_max),
    {
        let (my_pieces, other_pieces) = state.get_pieces();
        let mover = state.get_current_player();
        let ghost g = state@.grid;
        let ghost mine = pieces(g, mover);
        let ghost theirs = pieces(g, mover.spec_get_other());
        proof {
            lemma_owned_len(g, mover, 64);
            lemma_owned_len(g, mover.spec_get_other(), 64);
            lemma_owned_valid(g, mover, 64);
            lemma_owned_valid(g, mover.spec_get_other(), 64);
        }
        let end_game = my_pieces.len() + other_pieces.len() < 6;
        let (my_sum, my_far) = self.side_score(
            &my_pieces,
            &other_pieces,
            mover,
            end_game,
            Ghost(g),
            Ghost(mine),
            Ghost(theirs),
        );
        let (other_sum, other_far) = self.side_score(
            &other_pieces,
            &my_pieces,
            mover.get_other(),
            end_game,
            Ghost(g),
            Ghost(theirs),
            Ghost(mine),
        );
        let my_charge = scale(my_far, self.distance_penalty);
        let other_charge = scale(other_far, self.distance_penalty);
        let moves = self.mobility(state);
        let lead = self.aggression_value(my_pieces.len(), other_pieces.len());
        let mut total: i128 = (my_sum as i128) - (my_charge as i128) - (other_sum as i128) + (
        other_charge as i128) + moves + (lead as i128);
        if !is_max {
            total = -total;
        }
        if total > 0x7fff_ffff {
            0x7fff_ffff
        } else if total < -0x7fff_ffff {
            -0x7fff_ffff
        } else {
            total as i32
        }
    }

    /// What the pieces of `owner` are worth together, and the longest way
    /// that one of its kings has to its farthest enemy where `end_game` holds.
    fn side_score(
        &self,
        side: &Vec<(BoardPiece, Cord)>,
        others: &Vec<(BoardPiece, Cord)>,
        owner: Player,
        end_game: bool,
        Ghost(g): Ghost<Grid>,
        Ghost(locs): Ghost<Seq<Sq>>,
        Ghost(other_locs): Ghost<Seq<Sq>>,
    ) -> (r: (i64, i64))
        requires
            stands(g, locs, side@),
            stands(g, other_locs, others@),
            locs.len() <= 64,
            forall|i: int| 0 <= i < locs.len() ==> on_board(#[trigger] locs[i]),
            forall|i: int| 0 <= i < other_locs.len() ==> on_board(#[trigger] other_locs[i]),
        ensures
            r.0 == side_sum(self@, g, owner, locs, locs.len()),
            r.1 == (if end_game {
                longest_pursuit(g, locs, other_locs, locs.len())
            } else {
                0
            }),
            0 <= r.1 <= 64,
            -64 * 0x5_0000_0000 <= r.0 <= 64 * 0x5_0000_0000,
    {
        let mut sum: i64 = 0;
        let mut far: i64 = 0;
        let mut i: usize = 0;
        while i < side.len()
            invariant
                i <= side.len(),
                stands(g, locs, side@),
                stands(g, other_locs, others@),
                locs.len() <= 64,
                forall|k: int| 0 <= k < locs.len() ==> on_board(#[trigger] locs[k]),
                forall|k: int| 0 <= k < other_locs.len() ==> on_board(#[trigger] other_locs[k]),
                sum == side_sum(self@, g, owner, locs, i as nat),
                far == (if end_game {
                    longest_pursuit(g, locs, other_locs, i as nat)
                } else {
                    0
                }),
                0 <= far <= 64,
                -i * 0x5_0000_0000 <= sum <= i * 0x5_0000_0000,
            decreases side.len() - i,
        {
            let piece = side[i].0;
            let cords = side[i].1;
            let mut current: i64 = self.piece_type_value(&piece) as i64;
            if !piece.is_king() {
                current += self.depth_distance(&cords, owner.promotion_row());
            } else if end_game {
                let d = self.square_distance(&cords, others, Ghost(other_locs));
                if d > far {
                    far = d;
                }
            }
            current += self.in_center(&cords) as i64;
            current += self.in_goal(&cords, owner.home_row()) as i64;
            sum += current;
            i += 1;
        }
        (sum, far)
    }

    /// What the moves of the side to move are worth.
    fn mobility(&self, state: &Board) -> (r: i128)
        requires
            state.wf(),
        ensures
            r == mobility(self@, state@),
            -0x1_0000_0000_0000_0000 * 0x8000_0000 <= r <= 0x1_0000_0000_0000_0000 * 0x8000_0000,
    {
        let info = state.get_player_info();
        let n = info.get_moves().len() as u64;
        let w = if info.get_can_jump() {
            self.per_jump_move_val
        } else {
            self.per_move_val
        };
        assert(-0x1_0000_0000_0000_0000 * 0x8000_0000 <= n * w <= 0x1_0000_0000_0000_0000
            * 0x8000_0000) by (nonlinear_arith)
            requires
                0 <= n < 0x1_0000_0000_0000_0000,
                -0x8000_0000 <= w < 0x8000_0000,
        ;
        (n as i128) * (w as i128)
    }

    /// The bonus for standing on the row `home_row`.
    fn in_goal(&self, cords: &Cord, home_row: usize) -> (r: i32)
        ensures
            r == in_goal(self@, sq(*cords), home_row as int),
    {
        let (row, col) = *cords;
        if row == home_row {
            if col > 1 && col < 6 {
                return self.goalies_center;
            }
            return self.goalies_side;
        }
        0
    }

    /// The bonus for standing on one of the two middle rows.
    fn in_center(&self, cords: &Cord) -> (r: i32)
        ensures
            r == in_center(self@, sq(*cords)),
    {
        let (row, col) = *cords;
        if row == 3 || row == 4 {
            if col == 3 || col == 4 {
                return self.true_center;
            }
            return self.off_center;
        }
        0
    }

    /// What a pawn on `cords` earns for its advance towards row `goal`.
    fn depth_distance(&self, cords: &Cord, goal: usize) -> (r: i64)
        requires
            cords.0 < 8,
            goal < 8,
        ensures
            r == depth_distance(self@, cords.0 as int, goal as int),
            -7 * 0x8000_0000 <= r <= 7 * 0x8000_0000,
    {
        let row = cords.0;
        let gap: i64 = if row >= goal {
            (row - goal) as i64
        } else {
            (goal - row) as i64
        };
        assert(-7 * 0x8000_0000 <= (7 - gap) * self.d_hr_mul <= 7 * 0x8000_0000) by (nonlinear_arith)
            requires
                0 <= 7 - gap <= 7,
                -0x8000_0000 <= self.d_hr_mul < 0x8000_0000,
        ;
        scale(7 - gap, self.d_hr_mul)
    }

    /// What the piece is worth by its kind.
    fn piece_type_value(&self, piece: &BoardPiece) -> (r: i32)
        ensures
            r == piece_type_value(self@, *piece),
    {
        if piece.is_king() {
            self.k_piece_val
        } else {
            self.n_piece_val
        }
    }

    /// The distance from `cords` to the farthest of `op_pieces`.
    fn square_distance(
        &self,
        cords: &Cord,
        op_pieces: &Vec<(BoardPiece, Cord)>,
        Ghost(locs): Ghost<Seq<Sq>>,
    ) -> (r: i64)
        requires
            cords.0 < 8,
            cords.1 < 8,
            locs.len() == op_pieces@.len(),
            forall|i: int| 0 <= i < locs.len() ==> sq((#[trigger] op_pieces@[i]).1) == locs[i],
            forall|i: int| 0 <= i < locs.len() ==> on_board(#[trigger] locs[i]),
        ensures
            r == square_distance(sq(*cords), locs, locs.len()),
            0 <= r <= 64,
    {
        let (row, col) = *cords;
        let mut far: i64 = 0;
        let mut i: usize = 0;
        while i < op_pieces.len()
            invariant
                i <= op_pieces.len(),
                row < 8,
                col < 8,
                (row, col) == *cords,
                locs.len() == op_pieces@.len(),
                forall|k: int| 0 <= k < locs.len() ==> sq((#[trigger] op_pieces@[k]).1) == locs[k],
                forall|k: int| 0 <= k < locs.len() ==> on_board(#[trigger] locs[k]),
                far == square_distance(sq(*cords), locs, i as nat),
                0 <= far <= 64,
            decreases op_pieces.len() - i,
        {
            let (e_row, e_col) = op_pieces[i].1;
            let dr: u32 = if e_row >= row {
                (e_row - row) as u32
            } else {
                (row - e_row) as u32
            };
            let dc: u32 = if e_col >= col {
                (e_col - col) as u32
            } else {
                (col - e_col) as u32
            };
            assert(dr * dr + dc * dc <= 98 && dr * dr == (row - e_row) * (row - e_row) && dc * dc
                == (col - e_col) * (col - e_col)) by (nonlinear_arith)
                requires
                    0 <= dr <= 7,
                    0 <= dc <= 7,
                    dr == row - e_row || dr == e_row - row,
                    dc == col - e_col || dc == e_col - col,
            ;
            let d = ceil_root(dr * dr + dc * dc);
            proof {
                lemma_root_bounded((dr * dr + dc * dc) as int, 0, 10);
            }
            if d as i64 > far {
                far = d as i64;
            }
            i += 1;
        }
        far
    }

    /// What the lead in material is worth to the side to move, which has
    /// `mine` pieces against `theirs`.
    fn aggression_value(&self, mine: usize, theirs: usize) -> (r: i64)
        requires
            mine <= 64,
            theirs <= 64,
        ensures
            r == aggression_value(self@, mine as nat, theirs as nat),
            -0x40_0000_0000 <= r <= 0x40_0000_0000,
    {
        if mine == theirs {
            return 0;
        }
        let leading = mine > theirs;
        let big: u64 = if leading {
            mine as u64
        } else {
            theirs as u64
        };
        let little: u64 = if leading {
            theirs as u64
        } else {
            mine as u64
        };
        let m = self.aggression_multiplier;
        // Whether the term itself is above zero: the lead and the multiplier agree in sign.
        let up = (leading && m > 0) || (!leading && m < 0);
        if little == 0 {
            return if m == 0 {
                0
            } else if up {
                0x7fff_ffff
            } else {
                -0x7fff_ffff
            };
        }
        let size: u64 = if m >= 0 {
            m as u64
        } else {
            (-(m as i64)) as u64
        };
        assert(big * size <= 64 * 0x8000_0000) by (nonlinear_arith)
            requires
                0 <= big <= 64,
                0 <= size <= 0x8000_0000,
        ;
        let prod: u64 = big * size;
        let ghost sign: int = if leading {
            1
        } else {
            -1
        };
        proof {
            lemma_ceil_div(prod as int, little as int);
            assert(sign * (big as int) * (m as int) == (if up {
                prod as int
            } else {
                -(prod as int)
            })) by (nonlinear_arith)
                requires
                    sign == 1 || sign == -1,
                    up == ((sign == 1 && m > 0) || (sign == -1 && m < 0)),
                    prod == big * size,
                    size == m || size == -m,
                    size >= 0,
            ;
            assert(prod / little <= prod) by {
                lemma_div_is_ordered_by_denominator(prod as int, 1, little as int);
                lemma_div_basics(prod as int);
            }
            assert((prod + little - 1) / (little as int) <= prod + little - 1) by {
                lemma_div_is_ordered_by_denominator((prod + little - 1) as int, 1, little as int);
                lemma_div_basics((prod + little - 1) as int);
            }
            lemma_div_pos_is_pos(prod as int, little as int);
            lemma_div_pos_is_pos((prod + little - 1) as int, little as int);
        }
        if up {
            ((prod + little - 1) / little) as i64
        } else {
            -((prod / little) as i64)
        }
    }
}

/// The search for a root stops at the first number whose square suffices.
proof fn lemma_root_bounded(n: int, k: nat, top: nat)
    requires
        k <= top,
        top * top >= n,
    ensures
        k <= root_from(n, k) <= top,
    decreases top - k,
{
    if k * k < n {
        assert(k < top) by (nonlinear_arith)
            requires
                k * k < n,
                top * top >= n,
                k <= top,
        ;
        lemma_root_bounded(n, k + 1, top);
    }
}

/// How far one mutation may move the weight `w`: a tenth of it, and at
/// least 1.
pub open spec fn spread(w: int) -> int {
    if w >= 10 {
        w / 10
    } else {
        1
    }
}

/// The weight `w` moved by `offset`, and held at 0 where it would fall below
/// and at the greatest weight where it would rise above.
pub open spec fn perturbed(w: int, offset: int) -> int {
    if w + offset < 0 {
        0
    } else if w + offset > 0x7fff_ffff {
        0x7fff_ffff
    } else {
        w + offset
    }
}

/// `b` is `a` moved by less than its spread up, or by no more than it down.
pub open spec fn is_neighbor(a: int, b: int) -> bool {
    exists|offset: int| -spread(a) <= offset < spread(a) && b == perturbed(a, offset)
}

/// `b` is a mutation of `a`: each of its weights is a neighbor of the weight
/// it was made from.
pub open spec fn is_mutation(a: Weights, b: Weights) -> bool {
    &&& is_neighbor(a.n_piece_val, b.n_piece_val)
    &&& is_neighbor(a.k_piece_val, b.k_piece_val)
    &&& is_neighbor(a.d_hr_mul, b.d_hr_mul)
    &&& is_neighbor(a.true_center, b.true_center)
    &&& is_neighbor(a.off_center, b.off_center)
    &&& is_neighbor(a.goalies_center, b.goalies_center)
    &&& is_neighbor(a.goalies_side, b.goalies_side)
    &&& is_neighbor(a.per_move_val, b.per_move_val)
    &&& is_neighbor(a.per_jump_move_val, b.per_jump_move_val)
    &&& is_neighbor(a.aggression_multiplier, b.aggression_multiplier)
    &&& is_neighbor(a.distance_penalty, b.distance_penalty)
}

/// How far one mutation may move the weight `w`.
pub fn spread_of(w: i32) -> (r: i32)
    ensures
        r == spread(w as int),
        1 <= r,
{
    if w >= 10 {
        w / 10
    } else {
        1
    }
}

/// The weight `w` moved by `offset`, and held in the range of weights.
pub fn perturb(w: i32, offset: i32) -> (r: i32)
    ensures
        r == perturbed(w as int, offset as int),
{
    let moved: i64 = w as i64 + offset as i64;
    if moved < 0 {
        0
    } else if moved > 0x7fff_ffff {
        0x7fff_ffff
    } else {
        moved as i32
    }
}

/// `rand::rngs::ThreadRng`, the handle to a thread's random number
/// generator: nothing of what it holds is seen here.
#[verifier::external_type_specification]
#[verifier::external_body]
pub struct ExThreadRng(rand::rngs::ThreadRng);

/// `rand::thread_rng` hands out the random number generator of the calling
/// thread. Nothing is claimed of it.
pub assume_specification[ rand::thread_rng ]() -> (r: rand::rngs::ThreadRng);

/// `Rng::gen_range` of rand, called on the generator of the thread with a
/// half-open range of `i32`: the range must not be empty, or the call
/// panics, and the number drawn lies in it. Which number it is depends on
/// chance.
#[verifier::external_body]
fn gen_range(rng: &mut rand::rngs::ThreadRng, low: i32, high: i32) -> (r: i32)
    requires
        low < high,
    ensures
        low <= r < high,
{
    rng.gen_range(low..high)
}

/// The weight `w` moved by chance, by less than its spread up or by no more
/// than it down.
fn mutate_weight(rng: &mut rand::rngs::ThreadRng, w: i32) -> (r: i32)
    ensures
        is_neighbor(w as int, r as int),
{
    let d = spread_of(w);
    let offset = gen_range(rng, -d, d);
    perturb(w, offset)
}

impl Heuristic {
    /// A neighbor of these weights: each of them moved by chance by up to a
    /// tenth of itself (by 1 where that is less), and none below 0.
    pub fn mutate(&self) -> (r: Self)
        ensures
            is_neighbor(self@.n_piece_val, r@.n_piece_val),
            is_neighbor(self@.k_piece_val, r@.k_piece_val),
            is_neighbor(self@.d_hr_mul, r@.d_hr_mul),
            is_neighbor(self@.true_center, r@.true_center),
            is_neighbor(self@.off_center, r@.off_center),
            is_neighbor(self@.goalies_center, r@.goalies_center),
            is_neighbor(self@.goalies_side, r@.goalies_side),
            is_neighbor(self@.per_move_val, r@.per_move_val),
            is_neighbor(self@.per_jump_move_val, r@.per_jump_move_val),
            is_neighbor(self@.aggression_multiplier, r@.aggression_multiplier),
            is_neighbor(self@.distance_penalty, r@.distance_penalty),
    {
        let mut rng = rand::thread_rng();
        let n_piece_val = mutate_weight(&mut rng, self.n_piece_val);
        let k_piece_val = mutate_weight(&mut rng, self.k_piece_val);
        let d_hr_mul = mutate_weight(&mut rng, self.d_hr_mul);
        let true_center = mutate_weight(&mut rng, self.true_center);
        let off_center = mutate_weight(&mut rng, self.off_center);
        let goalies_center = mutate_weight(&mut rng, self.goalies_center);
        let goalies_side = mutate_weight(&mut rng, self.goalies_side);
        let per_move_val = mutate_weight(&mut rng, self.per_move_val);
        let per_jump_move_val = mutate_weight(&mut rng, self.per_jump_move_val);
        let aggression_multiplier = mutate_weight(&mut rng, self.aggression_multiplier);
        let distance_penalty = mutate_weight(&mut rng, self.distance_penalty);
        Self::new(
            n_piece_val,
            k_piece_val,
            d_hr_mul,
            true_center,
            off_center,
            goalies_center,
            goalies_side,
            per_move_val,
            per_jump_move_val,
            aggression_multiplier,
            distance_penalty,
        )
    }
}

} // verus!
