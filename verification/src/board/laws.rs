//! What holds of every move that the rules generate.

use super::piece::{Move, Player};
use super::rules::{
    all_jumps, all_quiet, any_capture, at, branch, capture_ok, chains, jump_among, jump_available,
    jumps_from, landing, legal_moves, lemma_targets_shrink, must_jump, neighbor, on_board, owned,
    pieces, quiet_moves, targets_left, Grid, MovesView, Sq,
};
use vstd::prelude::*;

verus! {

/// Start, end and every captured square of `m` lie on the board.
pub open spec fn move_on_board(m: MovesView) -> bool {
    &&& on_board(m.start)
    &&& on_board(m.end)
    &&& forall|k: int| 0 <= k < m.path.len() ==> on_board(#[trigger] m.path[k])
}

/// `m` is a finished chain of the piece on `start` with at least `least` and
/// at most `most` captures: it lies on the board, nothing more can be
/// captured from where it ends, and it captures pieces of the other side,
/// none of them twice.
pub open spec fn completes(
    g: Grid,
    player: Player,
    start: Sq,
    least: int,
    most: int,
    m: MovesView,
) -> bool {
    &&& m.start == start
    &&& move_on_board(m)
    &&& least <= m.path.len() <= most
    &&& !any_capture(g, player, start, m.path, m.end)
    &&& takes_enemies(g, player, m.path)
}

/// The squares of `path` differ from one another, and each holds a piece of
/// the other side.
pub open spec fn takes_enemies(g: Grid, player: Player, path: Seq<Sq>) -> bool {
    &&& path.no_duplicates()
    &&& forall|k: int|
        0 <= k < path.len() ==> player.spec_get_other().spec_does_piece_match(
            at(g, #[trigger] path[k]),
        )
}

/// Every move of `s` is such a finished chain.
pub open spec fn all_complete(
    g: Grid,
    player: Player,
    start: Sq,
    least: int,
    most: int,
    s: Seq<MovesView>,
) -> bool {
    forall|i: int| 0 <= i < s.len() ==> completes(g, player, start, least, most, #[trigger] s[i])
}

/// Every move of a chain's completions starts where the chain started, lies
/// on the board, captures no less than the chain has so far (and more where
/// the chain can go on), no more than there are enemies left to take, and
/// ends where nothing more can be captured.
pub proof fn lemma_chains_complete(g: Grid, player: Player, start: Sq, path: Seq<Sq>, from: Sq)
    requires
        on_board(start),
        on_board(from),
        forall|k: int| 0 <= k < path.len() ==> on_board(#[trigger] path[k]),
        takes_enemies(g, player, path),
    ensures
        all_complete(
            g,
            player,
            start,
            path.len() + if any_capture(g, player, start, path, from) {
                1int
            } else {
                0int
            },
            (path.len() + targets_left(g, player, path, 64)) as int,
            chains(g, player, start, path, from),
        ),
    decreases targets_left(g, player, path, 64), 1nat,
{
    if any_capture(g, player, start, path, from) {
        lemma_branch_complete(g, player, start, path, from, Move::ForwardRight);
        lemma_branch_complete(g, player, start, path, from, Move::ForwardLeft);
        lemma_branch_complete(g, player, start, path, from, Move::BackwardRight);
        lemma_branch_complete(g, player, start, path, from, Move::BackwardLeft);
    }
}

/// The same of the completions that begin with the capture in direction `d`.
pub proof fn lemma_branch_complete(
    g: Grid,
    player: Player,
    start: Sq,
    path: Seq<Sq>,
    from: Sq,
    d: Move,
)
    requires
        on_board(start),
        on_board(from),
        forall|k: int| 0 <= k < path.len() ==> on_board(#[trigger] path[k]),
        takes_enemies(g, player, path),
    ensures
        all_complete(
            g,
            player,
            start,
            (path.len() + 1) as int,
            (path.len() + targets_left(g, player, path, 64)) as int,
            branch(g, player, start, path, from, d),
        ),
    decreases targets_left(g, player, path, 64), 0nat,
{
    if capture_ok(g, player, start, path, from, d) {
        let e = neighbor(from, d, player);
        lemma_targets_shrink(g, player, path, e, 64);
        let longer = path.push(e);
        assert(longer.no_duplicates()) by {
            assert forall|i: int, j: int|
                0 <= i < longer.len() && 0 <= j < longer.len() && i != j implies longer[i]
                != longer[j] by {
                if i < path.len() && j < path.len() {
                    assert(path[i] != path[j]);
                } else if i < path.len() {
                    assert(path[i] != e);
                } else {
                    assert(path[j] != e);
                }
            }
        }
        lemma_chains_complete(g, player, start, longer, landing(from, d, player));
    }
}

/// The squares that `owned` lists lie on the board and hold the player's pieces.
pub proof fn lemma_owned_valid(g: Grid, player: Player, k: nat)
    requires
        k <= 64,
    ensures
        forall|i: int|
            0 <= i < owned(g, player, k).len() ==> {
                &&& on_board(#[trigger] owned(g, player, k)[i])
                &&& player.spec_does_piece_match(at(g, owned(g, player, k)[i]))
            },
    decreases k,
{
    if k > 0 {
        lemma_owned_valid(g, player, (k - 1) as nat);
    }
}

/// While none of the first `k` pieces can capture, they have no chains.
pub proof fn lemma_no_jumps_yet(g: Grid, player: Player, locs: Seq<Sq>, k: nat)
    requires
        k <= locs.len(),
        !jump_among(g, player, locs, k as int),
    ensures
        all_jumps(g, player, locs, k) == Seq::<MovesView>::empty(),
    decreases k,
{
    if k > 0 {
        assert(!jump_among(g, player, locs, k - 1));
        lemma_no_jumps_yet(g, player, locs, (k - 1) as nat);
    }
}

/// One more piece is looked at: a capture is known among them if one was
/// known before or this piece has one.
pub proof fn lemma_jump_among_step(g: Grid, player: Player, locs: Seq<Sq>, k: int)
    requires
        0 <= k < locs.len(),
    ensures
        jump_among(g, player, locs, k + 1) <==> (jump_among(g, player, locs, k) || jump_available(
            g,
            player,
            locs[k],
        )),
{
}

/// What holds of a legal move of `player` on `g`: it lies on the board, it
/// moves a piece of `player`, it captures if and only if `player` must
/// capture, it captures pieces of the other side, none of them twice and no
/// more than there are, and nothing more can be captured from where it ends.
pub open spec fn legal_move_ok(g: Grid, player: Player, m: MovesView) -> bool {
    &&& move_on_board(m)
    &&& player.spec_does_piece_match(at(g, m.start))
    &&& (m.path.len() > 0) == must_jump(g, player)
    &&& m.path.len() <= targets_left(g, player, Seq::empty(), 64)
    &&& must_jump(g, player) ==> !any_capture(g, player, m.start, m.path, m.end)
    &&& takes_enemies(g, player, m.path)
}

/// `m` moves a piece of `player` within the board and captures nothing.
spec fn quiet_shape(g: Grid, player: Player, m: MovesView) -> bool {
    &&& move_on_board(m)
    &&& player.spec_does_piece_match(at(g, m.start))
    &&& m.path.len() == 0
}

/// `m` is a finished chain of a piece of `player` with at least one capture.
spec fn jump_shape(g: Grid, player: Player, m: MovesView) -> bool {
    &&& move_on_board(m)
    &&& player.spec_does_piece_match(at(g, m.start))
    &&& 1 <= m.path.len() <= targets_left(g, player, Seq::empty(), 64)
    &&& !any_capture(g, player, m.start, m.path, m.end)
    &&& takes_enemies(g, player, m.path)
}

/// Every quiet move that is listed has the shape of one.
proof fn lemma_all_quiet_shape(g: Grid, player: Player, locs: Seq<Sq>, k: nat)
    requires
        k <= locs.len(),
        forall|i: int|
            0 <= i < locs.len() ==> on_board(#[trigger] locs[i]) && player.spec_does_piece_match(
                at(g, locs[i]),
            ),
    ensures
        forall|i: int|
            0 <= i < all_quiet(g, player, locs, k).len() ==> quiet_shape(
                g,
                player,
                #[trigger] all_quiet(g, player, locs, k)[i],
            ),
    decreases k,
{
    if k > 0 {
        lemma_all_quiet_shape(g, player, locs, (k - 1) as nat);
        let from = locs[k - 1];
        let q = quiet_moves(g, player, from);
        assert forall|i: int| 0 <= i < q.len() implies quiet_shape(g, player, #[trigger] q[i]) by {
            assert(q[i].path =~= Seq::<Sq>::empty());
        }
        let a = all_quiet(g, player, locs, (k - 1) as nat);
        assert forall|i: int| 0 <= i < (a + q).len() implies quiet_shape(
            g,
            player,
            #[trigger] (a + q)[i],
        ) by {
            if i < a.len() {
                assert(quiet_shape(g, player, a[i]));
            } else {
                assert(quiet_shape(g, player, q[i - a.len()]));
            }
        }
    }
}

/// Every chain that is listed has the shape of one.
proof fn lemma_all_jumps_shape(g: Grid, player: Player, locs: Seq<Sq>, k: nat)
    requires
        k <= locs.len(),
        forall|i: int|
            0 <= i < locs.len() ==> on_board(#[trigger] locs[i]) && player.spec_does_piece_match(
                at(g, locs[i]),
            ),
    ensures
        forall|i: int|
            0 <= i < all_jumps(g, player, locs, k).len() ==> jump_shape(
                g,
                player,
                #[trigger] all_jumps(g, player, locs, k)[i],
            ),
    decreases k,
{
    if k > 0 {
        lemma_all_jumps_shape(g, player, locs, (k - 1) as nat);
        let from = locs[k - 1];
        let j = jumps_from(g, player, from);
        if jump_available(g, player, from) {
            lemma_chains_complete(g, player, from, Seq::empty(), from);
            let most = (0 + targets_left(g, player, Seq::empty(), 64)) as int;
            assert forall|i: int| 0 <= i < j.len() implies jump_shape(g, player, #[trigger] j[i]) by {
                assert(completes(g, player, from, 1, most, j[i]));
            }
        }
        let a = all_jumps(g, player, locs, (k - 1) as nat);
        assert forall|i: int| 0 <= i < (a + j).len() implies jump_shape(
            g,
            player,
            #[trigger] (a + j)[i],
        ) by {
            if i < a.len() {
                assert(jump_shape(g, player, a[i]));
            } else {
                assert(jump_shape(g, player, j[i - a.len()]));
            }
        }
    }
}

/// Every legal move lies on the board, moves a piece of the side to move,
/// captures exactly where that side must capture, and is then a chain that
/// cannot go on.
pub proof fn lemma_legal_moves(g: Grid, player: Player)
    ensures
        forall|i: int|
            0 <= i < legal_moves(g, player).len() ==> legal_move_ok(
                g,
                player,
                #[trigger] legal_moves(g, player)[i],
            ),
{
    let locs = pieces(g, player);
    lemma_owned_valid(g, player, 64);
    lemma_all_quiet_shape(g, player, locs, locs.len());
    lemma_all_jumps_shape(g, player, locs, locs.len());
    assert forall|i: int| 0 <= i < legal_moves(g, player).len() implies legal_move_ok(
        g,
        player,
        #[trigger] legal_moves(g, player)[i],
    ) by {
        if must_jump(g, player) {
            assert(jump_shape(g, player, all_jumps(g, player, locs, locs.len())[i]));
        } else {
            assert(quiet_shape(g, player, all_quiet(g, player, locs, locs.len())[i]));
        }
    }
}

/// Forced capture: where one legal move of a position captures, every legal
/// move of that position captures.
pub proof fn lemma_forced_capture(g: Grid, player: Player, i: int, j: int)
    requires
        0 <= i < legal_moves(g, player).len(),
        0 <= j < legal_moves(g, player).len(),
        legal_moves(g, player)[i].path.len() > 0,
    ensures
        legal_moves(g, player)[j].path.len() > 0,
{
    lemma_legal_moves(g, player);
}

/// A capture chain is bounded: no legal move captures more pieces than the
/// other side has on the board, and there are at most 64 squares.
pub proof fn lemma_chain_bounded(g: Grid, player: Player, i: int)
    requires
        0 <= i < legal_moves(g, player).len(),
    ensures
        legal_moves(g, player)[i].path.len() <= targets_left(g, player, Seq::empty(), 64) <= 64,
{
    lemma_legal_moves(g, player);
    lemma_targets_at_most(g, player, Seq::empty(), 64);
}

/// No more enemies are left to take than squares were looked at.
pub proof fn lemma_targets_at_most(g: Grid, player: Player, path: Seq<Sq>, k: nat)
    ensures
        targets_left(g, player, path, k) <= k,
    decreases k,
{
    if k > 0 {
        lemma_targets_at_most(g, player, path, (k - 1) as nat);
    }
}

/// No more squares hold a piece than were looked at.
pub proof fn lemma_owned_len(g: Grid, player: Player, k: nat)
    ensures
        owned(g, player, k).len() <= k,
    decreases k,
{
    if k > 0 {
        lemma_owned_len(g, player, (k - 1) as nat);
    }
}

} // verus!
