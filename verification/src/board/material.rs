//! How many pieces stand on a grid, and what a move does to that number.

use super::laws::{lemma_legal_moves, move_on_board};
use super::piece::{BoardPiece, Player};
use super::rules::{
    apply_move, at, clear_all, grid_wf, landed, legal_moves, on_board, put, sq_of, Grid,
    MovesView, Sq,
};
use vstd::prelude::*;

verus! {

/// How many of the first `k` squares hold a piece.
pub open spec fn occupied(g: Grid, k: nat) -> nat
    decreases k,
{
    if k == 0 {
        0
    } else {
        occupied(g, (k - 1) as nat) + if at(g, sq_of(k - 1)) != BoardPiece::Empty {
            1nat
        } else {
            0nat
        }
    }
}

/// How many pieces stand on `g`.
pub open spec fn material(g: Grid) -> nat {
    occupied(g, 64)
}

/// No more squares hold a piece than were looked at.
pub proof fn lemma_occupied_at_most(g: Grid, k: nat)
    ensures
        occupied(g, k) <= k,
    decreases k,
{
    if k > 0 {
        lemma_occupied_at_most(g, (k - 1) as nat);
    }
}

/// Putting a piece on a square changes that square and no other.
pub proof fn lemma_put(g: Grid, s: Sq, piece: BoardPiece, t: Sq)
    requires
        grid_wf(g),
        on_board(s),
        on_board(t),
    ensures
        grid_wf(put(g, s, piece)),
        at(put(g, s, piece), t) == (if t == s {
            piece
        } else {
            at(g, t)
        }),
{
    let h = put(g, s, piece);
    assert forall|r: int| 0 <= r < 8 implies (#[trigger] h[r]).len() == 8 by {
        assert(g[r].len() == 8);
    }
}

/// Clearing squares empties them and leaves the others as they were.
pub proof fn lemma_clear_all(g: Grid, path: Seq<Sq>, k: nat, t: Sq)
    requires
        grid_wf(g),
        k <= path.len(),
        forall|i: int| 0 <= i < path.len() ==> on_board(#[trigger] path[i]),
        on_board(t),
    ensures
        grid_wf(clear_all(g, path, k)),
        at(clear_all(g, path, k), t) == (if path.take(k as int).contains(t) {
            BoardPiece::Empty
        } else {
            at(g, t)
        }),
    decreases k,
{
    if k > 0 {
        lemma_clear_all(g, path, (k - 1) as nat, t);
        let before = clear_all(g, path, (k - 1) as nat);
        lemma_put(before, path[k - 1], BoardPiece::Empty, t);
        let longer = path.take(k as int);
        assert(longer[k - 1] == path[k - 1]);
    }
}

/// What stands on each square after a move: the piece that moved on the
/// square where it ends; nothing on the square it left and on the squares of
/// the pieces it captured; and what stood there before everywhere else.
pub proof fn lemma_apply_move(g: Grid, m: MovesView, t: Sq)
    requires
        grid_wf(g),
        move_on_board(m),
        on_board(t),
    ensures
        grid_wf(apply_move(g, m)),
        at(apply_move(g, m), t) == (if t == m.end {
            landed(at(g, m.start), m.end.0)
        } else if t == m.start || m.path.contains(t) {
            BoardPiece::Empty
        } else {
            at(g, t)
        }),
{
    let left = put(g, m.start, BoardPiece::Empty);
    lemma_put(g, m.start, BoardPiece::Empty, t);
    lemma_clear_all(left, m.path, m.path.len(), t);
    let cleared = clear_all(left, m.path, m.path.len());
    lemma_put(cleared, m.end, landed(at(g, m.start), m.end.0), t);
    assert(m.path.take(m.path.len() as int) =~= m.path);
}

/// Where no square has gained a piece, the grid holds no more than before.
proof fn lemma_no_gain(g: Grid, h: Grid, k: nat)
    requires
        forall|j: int|
            0 <= j < k && at(h, #[trigger] sq_of(j)) != BoardPiece::Empty ==> at(g, sq_of(j))
                != BoardPiece::Empty,
    ensures
        occupied(h, k) <= occupied(g, k),
    decreases k,
{
    if k > 0 {
        lemma_no_gain(g, h, (k - 1) as nat);
    }
}

/// Where no square has gained a piece and square `a` has lost one, the grid
/// holds fewer than before.
proof fn lemma_one_lost(g: Grid, h: Grid, k: nat, a: int)
    requires
        forall|j: int|
            0 <= j < k && at(h, #[trigger] sq_of(j)) != BoardPiece::Empty ==> at(g, sq_of(j))
                != BoardPiece::Empty,
        0 <= a < k,
        at(g, sq_of(a)) != BoardPiece::Empty,
        at(h, sq_of(a)) == BoardPiece::Empty,
    ensures
        occupied(h, k) + 1 <= occupied(g, k),
    decreases k,
{
    if k - 1 == a {
        lemma_no_gain(g, h, (k - 1) as nat);
    } else {
        lemma_one_lost(g, h, (k - 1) as nat, a);
    }
}

/// The same with two squares that have lost their pieces.
proof fn lemma_two_lost(g: Grid, h: Grid, k: nat, a: int, b: int)
    requires
        forall|j: int|
            0 <= j < k && at(h, #[trigger] sq_of(j)) != BoardPiece::Empty ==> at(g, sq_of(j))
                != BoardPiece::Empty,
        0 <= a < k,
        0 <= b < k,
        a != b,
        at(g, sq_of(a)) != BoardPiece::Empty,
        at(h, sq_of(a)) == BoardPiece::Empty,
        at(g, sq_of(b)) != BoardPiece::Empty,
        at(h, sq_of(b)) == BoardPiece::Empty,
    ensures
        occupied(h, k) + 2 <= occupied(g, k),
    decreases k,
{
    if k - 1 == a {
        lemma_one_lost(g, h, (k - 1) as nat, b);
    } else if k - 1 == b {
        lemma_one_lost(g, h, (k - 1) as nat, a);
    } else {
        lemma_two_lost(g, h, (k - 1) as nat, a, b);
    }
}

/// A piece put on one square adds at most one to the count.
proof fn lemma_put_adds_one(g: Grid, s: Sq, piece: BoardPiece, k: nat)
    requires
        grid_wf(g),
        on_board(s),
        k <= 64,
    ensures
        occupied(put(g, s, piece), k) <= occupied(put(g, s, BoardPiece::Empty), k) + 1,
        k <= s.0 * 8 + s.1 ==> occupied(put(g, s, piece), k) == occupied(
            put(g, s, BoardPiece::Empty),
            k,
        ),
    decreases k,
{
    if k > 0 {
        lemma_put_adds_one(g, s, piece, (k - 1) as nat);
        let t = sq_of(k - 1);
        lemma_put(g, s, piece, t);
        lemma_put(g, s, BoardPiece::Empty, t);
    }
}

/// A quiet move keeps the number of pieces, and a capture lowers it.
pub proof fn lemma_move_and_material(g: Grid, player: Player, i: int)
    requires
        grid_wf(g),
        0 <= i < legal_moves(g, player).len(),
    ensures
        material(apply_move(g, legal_moves(g, player)[i])) <= material(g),
        legal_moves(g, player)[i].path.len() > 0 ==> material(
            apply_move(g, legal_moves(g, player)[i]),
        ) < material(g),
{
    let m = legal_moves(g, player)[i];
    lemma_legal_moves(g, player);
    let after = apply_move(g, m);
    // The grid after the move, with the piece that moved taken off again.
    let bare = put(after, m.end, BoardPiece::Empty);
    let a = m.start.0 * 8 + m.start.1;
    assert forall|t: Sq| on_board(t) implies (at(bare, t) != BoardPiece::Empty ==> at(g, t)
        != BoardPiece::Empty) && (t == m.start || t == m.end || m.path.contains(t) ==> at(bare, t)
        == BoardPiece::Empty) by {
        lemma_apply_move(g, m, t);
        lemma_put(after, m.end, BoardPiece::Empty, t);
    }
    assert forall|j: int| 0 <= j < 64 && at(bare, #[trigger] sq_of(j)) != BoardPiece::Empty implies at(
        g,
        sq_of(j),
    ) != BoardPiece::Empty by {
        assert(on_board(sq_of(j)));
    }
    lemma_apply_move(g, m, m.end);
    lemma_put_adds_one(after, m.end, at(after, m.end), 64);
    assert(put(after, m.end, at(after, m.end)) =~~= after);
    if m.path.len() > 0 {
        let e = m.path[0];
        let b = e.0 * 8 + e.1;
        lemma_two_lost(g, bare, 64, a, b);
    } else {
        lemma_one_lost(g, bare, 64, a);
    }
}

} // verus!
