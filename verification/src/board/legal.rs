//! Which moves are legal, said without the order in which they are
//! generated; and the proof that the list of legal moves holds those moves
//! and no others.

use super::laws::lemma_owned_valid;
use super::piece::{Move, Player};
use super::rules::{
    all_jumps, all_quiet, any_capture, at, branch, capture_ok, chains, jump_available, jumps_from,
    landing, legal_moves, lemma_targets_shrink, must_jump, neighbor, on_board, owned, pieces,
    quiet_moves, quiet_ok, quiet_step, sq_of, targets_left, Grid, MovesView, Sq,
};
use vstd::prelude::*;

verus! {

/// The captured squares and the square reached when the captures in the
/// directions `dirs` are made one after another, by a chain that has
/// captured `path` and stands on `from`.
pub open spec fn walk(player: Player, path: Seq<Sq>, from: Sq, dirs: Seq<Move>) -> (Seq<Sq>, Sq)
    decreases dirs.len(),
{
    if dirs.len() == 0 {
        (path, from)
    } else {
        walk(
            player,
            path.push(neighbor(from, dirs[0], player)),
            landing(from, dirs[0], player),
            dirs.drop_first(),
        )
    }
}

/// Whether each of those captures may be made when its turn comes.
pub open spec fn walk_ok(
    g: Grid,
    player: Player,
    start: Sq,
    path: Seq<Sq>,
    from: Sq,
    dirs: Seq<Move>,
) -> bool
    decreases dirs.len(),
{
    dirs.len() == 0 || (capture_ok(g, player, start, path, from, dirs[0]) && walk_ok(
        g,
        player,
        start,
        path.push(neighbor(from, dirs[0], player)),
        landing(from, dirs[0], player),
        dirs.drop_first(),
    ))
}

/// `m` finishes the chain that began on `start`, has captured `path` and
/// stands on `from` by the captures `dirs`: each of them may be made in its
/// turn, they lead to where `m` ends with what `m` has captured, and from
/// there nothing more can be captured.
pub open spec fn finishes_by(
    g: Grid,
    player: Player,
    start: Sq,
    path: Seq<Sq>,
    from: Sq,
    dirs: Seq<Move>,
    m: MovesView,
) -> bool {
    &&& walk_ok(g, player, start, path, from, dirs)
    &&& m.start == start
    &&& m.path == walk(player, path, from, dirs).0
    &&& m.end == walk(player, path, from, dirs).1
    &&& !any_capture(g, player, start, m.path, m.end)
}

/// `m` finishes that chain by some captures.
pub open spec fn finishes(g: Grid, player: Player, start: Sq, path: Seq<Sq>, from: Sq, m: MovesView) -> bool {
    exists|dirs: Seq<Move>| finishes_by(g, player, start, path, from, dirs, m)
}

/// Whether some piece of `player` has a capture to open a chain with.
pub open spec fn can_capture(g: Grid, player: Player) -> bool {
    exists|s: Sq|
        on_board(s) && player.spec_does_piece_match(#[trigger] at(g, s)) && jump_available(
            g,
            player,
            s,
        )
}

/// `m` is the quiet step of the piece on `m.start` in some direction.
pub open spec fn is_quiet_step(g: Grid, player: Player, m: MovesView) -> bool {
    exists|d: Move|
        quiet_ok(g, player, m.start, d) && m.end == #[trigger] neighbor(m.start, d, player)
            && m.path == Seq::<Sq>::empty()
}

/// Whether `m` is a legal move of `player` on `g`. It moves a piece of
/// `player`. Where some piece of `player` can capture, `m` is a chain of
/// captures of one or more pieces, each allowed when it is made, that ends
/// where nothing more can be captured. Where none can, `m` is a quiet step.
pub open spec fn is_legal(g: Grid, player: Player, m: MovesView) -> bool {
    &&& on_board(m.start)
    &&& player.spec_does_piece_match(at(g, m.start))
    &&& if can_capture(g, player) {
        jump_available(g, player, m.start) && finishes(g, player, m.start, Seq::empty(), m.start, m)
    } else {
        is_quiet_step(g, player, m)
    }
}

/// Two sequences joined hold what either of them holds.
pub proof fn lemma_concat_contains<A>(a: Seq<A>, b: Seq<A>, x: A)
    ensures
        (a + b).contains(x) <==> (a.contains(x) || b.contains(x)),
{
    if a.contains(x) {
        let i = choose|i: int| 0 <= i < a.len() && a[i] == x;
        assert((a + b)[i] == x);
    }
    if b.contains(x) {
        let i = choose|i: int| 0 <= i < b.len() && b[i] == x;
        assert((a + b)[a.len() + i] == x);
    }
}

/// The completions of a chain are the moves that finish it: every one of
/// them does.
pub proof fn lemma_chains_finish(
    g: Grid,
    player: Player,
    start: Sq,
    path: Seq<Sq>,
    from: Sq,
    m: MovesView,
)
    requires
        chains(g, player, start, path, from).contains(m),
    ensures
        finishes(g, player, start, path, from, m),
    decreases targets_left(g, player, path, 64),
{
    if !any_capture(g, player, start, path, from) {
        let none = Seq::<Move>::empty();
        assert(finishes_by(g, player, start, path, from, none, m));
    } else {
        let fr = branch(g, player, start, path, from, Move::ForwardRight);
        let fl = branch(g, player, start, path, from, Move::ForwardLeft);
        let br = branch(g, player, start, path, from, Move::BackwardRight);
        let bl = branch(g, player, start, path, from, Move::BackwardLeft);
        lemma_concat_contains(fr + fl + br, bl, m);
        lemma_concat_contains(fr + fl, br, m);
        lemma_concat_contains(fr, fl, m);
        let d = if fr.contains(m) {
            Move::ForwardRight
        } else if fl.contains(m) {
            Move::ForwardLeft
        } else if br.contains(m) {
            Move::BackwardRight
        } else {
            Move::BackwardLeft
        };
        let e = neighbor(from, d, player);
        let land = landing(from, d, player);
        lemma_targets_shrink(g, player, path, e, 64);
        lemma_chains_finish(g, player, start, path.push(e), land, m);
        let rest = choose|dirs: Seq<Move>|
            finishes_by(g, player, start, path.push(e), land, dirs, m);
        let dirs = seq![d] + rest;
        assert(dirs.drop_first() =~= rest);
        assert(finishes_by(g, player, start, path, from, dirs, m));
    }
}

/// And every move that finishes the chain is among its completions.
pub proof fn lemma_finish_in_chains(
    g: Grid,
    player: Player,
    start: Sq,
    path: Seq<Sq>,
    from: Sq,
    dirs: Seq<Move>,
    m: MovesView,
)
    requires
        finishes_by(g, player, start, path, from, dirs, m),
    ensures
        chains(g, player, start, path, from).contains(m),
    decreases dirs.len(),
{
    if dirs.len() == 0 {
        assert(seq![m][0] == m);
    } else {
        let d = dirs[0];
        let e = neighbor(from, d, player);
        let land = landing(from, d, player);
        lemma_finish_in_chains(g, player, start, path.push(e), land, dirs.drop_first(), m);
        let fr = branch(g, player, start, path, from, Move::ForwardRight);
        let fl = branch(g, player, start, path, from, Move::ForwardLeft);
        let br = branch(g, player, start, path, from, Move::BackwardRight);
        let bl = branch(g, player, start, path, from, Move::BackwardLeft);
        lemma_concat_contains(fr + fl + br, bl, m);
        lemma_concat_contains(fr + fl, br, m);
        lemma_concat_contains(fr, fl, m);
    }
}

/// The squares that `owned` lists are those on the board, among the first
/// `k`, that hold a piece of `player`.
pub proof fn lemma_owned_contains(g: Grid, player: Player, k: nat, s: Sq)
    requires
        k <= 64,
    ensures
        owned(g, player, k).contains(s) <==> (on_board(s) && s.0 * 8 + s.1 < k
            && player.spec_does_piece_match(at(g, s))),
    decreases k,
{
    if k > 0 {
        lemma_owned_contains(g, player, (k - 1) as nat, s);
        let before = owned(g, player, (k - 1) as nat);
        let t = sq_of(k - 1);
        if player.spec_does_piece_match(at(g, t)) {
            super::rules::lemma_push_contains(before, t, s);
        }
    }
}

/// A side must capture exactly where one of its pieces can.
pub proof fn lemma_must_jump(g: Grid, player: Player)
    ensures
        must_jump(g, player) <==> can_capture(g, player),
{
    if must_jump(g, player) {
        lemma_owned_valid(g, player, 64);
    }
    if can_capture(g, player) {
        let s = choose|s: Sq|
            on_board(s) && player.spec_does_piece_match(#[trigger] at(g, s)) && jump_available(
                g,
                player,
                s,
            );
        lemma_owned_contains(g, player, 64, s);
    }
}

/// The chains listed for the first `k` pieces are those listed for one of them.
proof fn lemma_all_jumps_contains(g: Grid, player: Player, locs: Seq<Sq>, k: nat, m: MovesView)
    requires
        k <= locs.len(),
    ensures
        all_jumps(g, player, locs, k).contains(m) <==> exists|i: int|
            0 <= i < k && (#[trigger] jumps_from(g, player, locs[i])).contains(m),
    decreases k,
{
    if k > 0 {
        lemma_all_jumps_contains(g, player, locs, (k - 1) as nat, m);
        let before = all_jumps(g, player, locs, (k - 1) as nat);
        let last = jumps_from(g, player, locs[k - 1]);
        lemma_concat_contains(before, last, m);
    }
}

/// The quiet moves listed for the first `k` pieces are those listed for one
/// of them.
proof fn lemma_all_quiet_contains(g: Grid, player: Player, locs: Seq<Sq>, k: nat, m: MovesView)
    requires
        k <= locs.len(),
    ensures
        all_quiet(g, player, locs, k).contains(m) <==> exists|i: int|
            0 <= i < k && (#[trigger] quiet_moves(g, player, locs[i])).contains(m),
    decreases k,
{
    if k > 0 {
        lemma_all_quiet_contains(g, player, locs, (k - 1) as nat, m);
        let before = all_quiet(g, player, locs, (k - 1) as nat);
        let last = quiet_moves(g, player, locs[k - 1]);
        lemma_concat_contains(before, last, m);
    }
}

/// The quiet moves of a piece are its quiet steps.
proof fn lemma_quiet_moves_contains(g: Grid, player: Player, from: Sq, m: MovesView)
    ensures
        quiet_moves(g, player, from).contains(m) <==> (m.start == from && is_quiet_step(
            g,
            player,
            m,
        )),
{
    let fr = quiet_step(g, player, from, Move::ForwardRight);
    let fl = quiet_step(g, player, from, Move::ForwardLeft);
    let br = quiet_step(g, player, from, Move::BackwardRight);
    let bl = quiet_step(g, player, from, Move::BackwardLeft);
    lemma_concat_contains(fr + fl + br, bl, m);
    lemma_concat_contains(fr + fl, br, m);
    lemma_concat_contains(fr, fl, m);
    lemma_quiet_step_contains(g, player, from, Move::ForwardRight, m);
    lemma_quiet_step_contains(g, player, from, Move::ForwardLeft, m);
    lemma_quiet_step_contains(g, player, from, Move::BackwardRight, m);
    lemma_quiet_step_contains(g, player, from, Move::BackwardLeft, m);
    if m.start == from && is_quiet_step(g, player, m) {
        let d = choose|d: Move|
            quiet_ok(g, player, m.start, d) && m.end == #[trigger] neighbor(m.start, d, player)
                && m.path == Seq::<Sq>::empty();
    }
}

/// A quiet step is listed exactly where it may be made.
proof fn lemma_quiet_step_contains(g: Grid, player: Player, from: Sq, d: Move, m: MovesView)
    ensures
        quiet_step(g, player, from, d).contains(m) <==> (quiet_ok(g, player, from, d) && m
            == MovesView { start: from, end: neighbor(from, d, player), path: Seq::empty() }),
{
    let q = quiet_step(g, player, from, d);
    if quiet_ok(g, player, from, d) {
        assert(q[0] == MovesView { start: from, end: neighbor(from, d, player), path: Seq::empty() });
    }
}

/// The list of legal moves holds the legal moves, and no others.
pub proof fn lemma_legal_moves_are(g: Grid, player: Player, m: MovesView)
    ensures
        legal_moves(g, player).contains(m) <==> is_legal(g, player, m),
{
    let locs = pieces(g, player);
    lemma_must_jump(g, player);
    lemma_owned_valid(g, player, 64);
    lemma_owned_contains(g, player, 64, m.start);
    lemma_all_jumps_contains(g, player, locs, locs.len(), m);
    lemma_all_quiet_contains(g, player, locs, locs.len(), m);
    if legal_moves(g, player).contains(m) {
        if must_jump(g, player) {
            let i = choose|i: int|
                0 <= i < locs.len() && (#[trigger] jumps_from(g, player, locs[i])).contains(m);
            lemma_chains_finish(g, player, locs[i], Seq::empty(), locs[i], m);
        } else {
            let i = choose|i: int|
                0 <= i < locs.len() && (#[trigger] quiet_moves(g, player, locs[i])).contains(m);
            lemma_quiet_moves_contains(g, player, locs[i], m);
        }
    }
    if is_legal(g, player, m) {
        let i = choose|i: int| 0 <= i < locs.len() && locs[i] == m.start;
        if must_jump(g, player) {
            let dirs = choose|dirs: Seq<Move>|
                finishes_by(g, player, m.start, Seq::empty(), m.start, dirs, m);
            lemma_finish_in_chains(g, player, m.start, Seq::empty(), m.start, dirs, m);
            assert(jumps_from(g, player, locs[i]).contains(m));
        } else {
            lemma_quiet_moves_contains(g, player, m.start, m);
        }
    }
}

/// A chain of a pawn goes forward by two rows with each capture.
proof fn lemma_pawn_walk(
    g: Grid,
    player: Player,
    start: Sq,
    path: Seq<Sq>,
    from: Sq,
    dirs: Seq<Move>,
)
    requires
        walk_ok(g, player, start, path, from, dirs),
        !at(g, start).spec_is_king(),
    ensures
        walk(player, path, from, dirs).1.0 == from.0 + 2 * dirs.len() * player.spec_forward(),
    decreases dirs.len(),
{
    if dirs.len() > 0 {
        let d = dirs[0];
        lemma_pawn_walk(
            g,
            player,
            start,
            path.push(neighbor(from, d, player)),
            landing(from, d, player),
            dirs.drop_first(),
        );
        assert(2 * (dirs.len() - 1) * player.spec_forward() + 2 * player.spec_forward() == 2
            * dirs.len() * player.spec_forward()) by (nonlinear_arith);
    }
}

/// A pawn never ends a move on the row that its side starts from. So the
/// piece that a legal move lands is crowned exactly when it reaches the row
/// on which its side is crowned; a king stays the king it is.
pub proof fn lemma_crowned_on_far_row(g: Grid, player: Player, m: MovesView)
    requires
        is_legal(g, player, m),
    ensures
        !at(g, m.start).spec_is_king() ==> m.end.0 != player.spec_home_row(),
        super::rules::landed(at(g, m.start), m.end.0) == (if m.end.0
            == player.spec_promotion_row() {
            at(g, m.start).spec_promote()
        } else {
            at(g, m.start)
        }),
{
    if !at(g, m.start).spec_is_king() {
        if can_capture(g, player) {
            let dirs = choose|dirs: Seq<Move>|
                finishes_by(g, player, m.start, Seq::empty(), m.start, dirs, m);
            lemma_pawn_walk(g, player, m.start, Seq::empty(), m.start, dirs);
            if dirs.len() > 0 {
                assert(2 * dirs.len() * player.spec_forward() == 2 * dirs.len() || 2 * dirs.len()
                    * player.spec_forward() == -2 * dirs.len()) by (nonlinear_arith)
                    requires
                        player.spec_forward() == 1 || player.spec_forward() == -1,
                ;
            }
        }
    }
}

} // verus!
