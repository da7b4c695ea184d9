//! The rules of the game as mathematics: which steps and captures a grid
//! allows, the capture chains that follow from them, the list of legal moves
//! of a position and the grid that a move leaves behind.

use super::piece::{BoardPiece, Move, Player};
use vstd::prelude::*;

verus! {

/// The eight rows of the board, each of eight squares.
pub type Grid = Seq<Seq<BoardPiece>>;

/// A square as (row, column); unlike a `Cord` it may lie off the board.
pub type Sq = (int, int);

/// A move: where the piece starts, where it lands, and the squares of the
/// pieces it captures on the way, in the order of capture.
pub struct MovesView {
    pub start: Sq,
    pub end: Sq,
    pub path: Seq<Sq>,
}

/// A state of the game: the grid and the side to move.
pub struct Position {
    pub grid: Grid,
    pub mover: Player,
}

/// A grid has eight rows of eight squares.
pub open spec fn grid_wf(g: Grid) -> bool {
    &&& g.len() == 8
    &&& forall|r: int| 0 <= r < 8 ==> (#[trigger] g[r]).len() == 8
}

/// Whether `sq` is a square of the board.
pub open spec fn on_board(sq: Sq) -> bool {
    0 <= sq.0 < 8 && 0 <= sq.1 < 8
}

/// What stands on `sq`.
pub open spec fn at(g: Grid, sq: Sq) -> BoardPiece {
    g[sq.0][sq.1]
}

/// The grid with `piece` on `sq` and every other square as it was.
pub open spec fn put(g: Grid, sq: Sq, piece: BoardPiece) -> Grid {
    g.update(sq.0, g[sq.0].update(sq.1, piece))
}

/// The square next to `from` in direction `d`, as `player` sees it.
pub open spec fn neighbor(from: Sq, d: Move, player: Player) -> Sq {
    (from.0 + d.row_step(player), from.1 + d.col_step())
}

/// The square two steps from `from` in direction `d`.
pub open spec fn landing(from: Sq, d: Move, player: Player) -> Sq {
    (from.0 + 2 * d.row_step(player), from.1 + 2 * d.col_step())
}

/// Whether the piece on `from` may make the quiet step `d`: backward steps are
/// for kings, and the target must be an empty square of the board.
pub open spec fn quiet_ok(g: Grid, player: Player, from: Sq, d: Move) -> bool {
    &&& d != Move::Jump
    &&& d.spec_must_be_king() ==> at(g, from).spec_is_king()
    &&& on_board(neighbor(from, d, player))
    &&& at(g, neighbor(from, d, player)) == BoardPiece::Empty
}

/// The quiet step of the piece on `from` in direction `d`, where it may be
/// made.
pub open spec fn quiet_step(g: Grid, player: Player, from: Sq, d: Move) -> Seq<MovesView> {
    if quiet_ok(g, player, from, d) {
        seq![MovesView { start: from, end: neighbor(from, d, player), path: Seq::empty() }]
    } else {
        Seq::empty()
    }
}

/// The quiet moves of the piece on `from`, forward before backward and right
/// before left.
pub open spec fn quiet_moves(g: Grid, player: Player, from: Sq) -> Seq<MovesView> {
    quiet_step(g, player, from, Move::ForwardRight) + quiet_step(
        g,
        player,
        from,
        Move::ForwardLeft,
    ) + quiet_step(g, player, from, Move::BackwardRight) + quiet_step(
        g,
        player,
        from,
        Move::BackwardLeft,
    )
}

/// Whether a chain that began on `start` and has captured `path` so far may
/// jump the piece on `enemy` and land on `land`. The piece jumped must be an
/// enemy not yet captured in this chain. The landing square must be empty,
/// or hold a piece captured earlier in the chain, or be the square the chain
/// began on.
pub open spec fn capture_allowed(
    g: Grid,
    player: Player,
    start: Sq,
    path: Seq<Sq>,
    enemy: Sq,
    land: Sq,
) -> bool {
    &&& on_board(enemy)
    &&& on_board(land)
    &&& !path.contains(enemy)
    &&& player.spec_get_other().spec_does_piece_match(at(g, enemy))
    &&& (at(g, land) == BoardPiece::Empty || path.contains(land) || land == start)
}

/// Whether the chain may go on from `from` in direction `d`: backward
/// captures are for a piece that started the chain as a king.
pub open spec fn capture_ok(
    g: Grid,
    player: Player,
    start: Sq,
    path: Seq<Sq>,
    from: Sq,
    d: Move,
) -> bool {
    &&& d != Move::Jump
    &&& d.spec_must_be_king() ==> at(g, start).spec_is_king()
    &&& capture_allowed(
        g,
        player,
        start,
        path,
        neighbor(from, d, player),
        landing(from, d, player),
    )
}

/// Whether the chain may go on from `from` in some direction.
pub open spec fn any_capture(g: Grid, player: Player, start: Sq, path: Seq<Sq>, from: Sq) -> bool {
    ||| capture_ok(g, player, start, path, from, Move::ForwardRight)
    ||| capture_ok(g, player, start, path, from, Move::ForwardLeft)
    ||| capture_ok(g, player, start, path, from, Move::BackwardRight)
    ||| capture_ok(g, player, start, path, from, Move::BackwardLeft)
}

/// Whether the piece on `from` has a capture to open a chain with.
pub open spec fn jump_available(g: Grid, player: Player, from: Sq) -> bool {
    any_capture(g, player, from, Seq::empty(), from)
}

/// Whether the piece on `from` may make a step of kind `mv` while the side
/// to move is, or is not, known to have a capture (`jumping`): once a capture
/// is known only jumps are legal, backward steps are for kings, a quiet step
/// needs an empty target on the board, and a jump needs a capture to open a
/// chain with.
pub open spec fn move_legal(
    g: Grid,
    player: Player,
    jumping: bool,
    from: Sq,
    mv: Move,
) -> bool {
    &&& !(jumping && mv != Move::Jump)
    &&& if mv == Move::Jump {
        jump_available(g, player, from)
    } else {
        quiet_ok(g, player, from, mv)
    }
}

/// The square with number `k`, counting row by row.
pub open spec fn sq_of(k: int) -> Sq {
    (k / 8, k % 8)
}

/// Whether `sq` holds an enemy of `player` that `path` has not captured.
pub open spec fn is_target(g: Grid, player: Player, path: Seq<Sq>, sq: Sq) -> bool {
    player.spec_get_other().spec_does_piece_match(at(g, sq)) && !path.contains(sq)
}

/// How many of the first `k` squares hold an enemy not yet captured: what a
/// chain has left to take, and so the bound on its length.
pub open spec fn targets_left(g: Grid, player: Player, path: Seq<Sq>, k: nat) -> nat
    decreases k,
{
    if k == 0 {
        0
    } else {
        targets_left(g, player, path, (k - 1) as nat) + if is_target(
            g,
            player,
            path,
            sq_of(k - 1),
        ) {
            1nat
        } else {
            0nat
        }
    }
}

/// A sequence with one more element holds what it held, and that element.
pub proof fn lemma_push_contains<A>(s: Seq<A>, e: A, x: A)
    ensures
        s.push(e).contains(x) <==> (s.contains(x) || x == e),
{
    if s.contains(x) {
        let i = choose|i: int| 0 <= i < s.len() && s[i] == x;
        assert(s.push(e)[i] == x);
    }
    if x == e {
        assert(s.push(e)[s.len() as int] == x);
    }
}

/// Capturing one more enemy leaves fewer to take.
pub proof fn lemma_targets_shrink(g: Grid, player: Player, path: Seq<Sq>, e: Sq, k: nat)
    requires
        on_board(e),
        is_target(g, player, path, e),
        k <= 64,
    ensures
        targets_left(g, player, path.push(e), k) <= targets_left(g, player, path, k),
        k > e.0 * 8 + e.1 ==> targets_left(g, player, path.push(e), k) < targets_left(
            g,
            player,
            path,
            k,
        ),
    decreases k,
{
    if k > 0 {
        lemma_targets_shrink(g, player, path, e, (k - 1) as nat);
        lemma_push_contains(path, e, sq_of(k - 1));
    }
}

/// The moves that complete a chain which began on `start`, has captured
/// `path` and now stands on `from`: the chain itself where nothing more can
/// be captured, and otherwise the completions of each capture that can be
/// made, forward before backward and right before left.
pub open spec fn chains(g: Grid, player: Player, start: Sq, path: Seq<Sq>, from: Sq) -> Seq<
    MovesView,
>
    decreases targets_left(g, player, path, 64), 1nat,
{
    if !any_capture(g, player, start, path, from) {
        seq![MovesView { start: start, end: from, path: path }]
    } else {
        branch(g, player, start, path, from, Move::ForwardRight) + branch(
            g,
            player,
            start,
            path,
            from,
            Move::ForwardLeft,
        ) + branch(g, player, start, path, from, Move::BackwardRight) + branch(
            g,
            player,
            start,
            path,
            from,
            Move::BackwardLeft,
        )
    }
}

/// The completions of the chain that take the capture in direction `d` next;
/// none where that capture cannot be made.
pub open spec fn branch(
    g: Grid,
    player: Player,
    start: Sq,
    path: Seq<Sq>,
    from: Sq,
    d: Move,
) -> Seq<MovesView>
    decreases targets_left(g, player, path, 64), 0nat,
{
    if capture_ok(g, player, start, path, from, d) {
        proof {
            lemma_targets_shrink(g, player, path, neighbor(from, d, player), 64);
        }
        chains(g, player, start, path.push(neighbor(from, d, player)), landing(from, d, player))
    } else {
        Seq::empty()
    }
}

/// The squares among the first `k`, row by row, that hold a piece of `player`.
pub open spec fn owned(g: Grid, player: Player, k: nat) -> Seq<Sq>
    decreases k,
{
    if k == 0 {
        Seq::empty()
    } else if player.spec_does_piece_match(at(g, sq_of(k - 1))) {
        owned(g, player, (k - 1) as nat).push(sq_of(k - 1))
    } else {
        owned(g, player, (k - 1) as nat)
    }
}

/// The squares of the pieces of `player`, row by row.
pub open spec fn pieces(g: Grid, player: Player) -> Seq<Sq> {
    owned(g, player, 64)
}

/// Whether one of the first `k` of `locs` has a capture to open a chain with.
pub open spec fn jump_among(g: Grid, player: Player, locs: Seq<Sq>, k: int) -> bool {
    exists|i: int| 0 <= i < k && jump_available(g, player, #[trigger] locs[i])
}

/// Whether `player` must capture: one of its pieces can.
pub open spec fn must_jump(g: Grid, player: Player) -> bool {
    jump_among(g, player, pieces(g, player), pieces(g, player).len() as int)
}

/// The quiet moves of the first `k` of `locs`, piece by piece.
pub open spec fn all_quiet(g: Grid, player: Player, locs: Seq<Sq>, k: nat) -> Seq<MovesView>
    decreases k,
{
    if k == 0 {
        Seq::empty()
    } else {
        all_quiet(g, player, locs, (k - 1) as nat) + quiet_moves(g, player, locs[k - 1])
    }
}

/// The capture chains of the piece on `from`; none where it cannot capture.
pub open spec fn jumps_from(g: Grid, player: Player, from: Sq) -> Seq<MovesView> {
    if jump_available(g, player, from) {
        chains(g, player, from, Seq::empty(), from)
    } else {
        Seq::empty()
    }
}

/// The capture chains of the first `k` of `locs`, piece by piece.
pub open spec fn all_jumps(g: Grid, player: Player, locs: Seq<Sq>, k: nat) -> Seq<MovesView>
    decreases k,
{
    if k == 0 {
        Seq::empty()
    } else {
        all_jumps(g, player, locs, (k - 1) as nat) + jumps_from(g, player, locs[k - 1])
    }
}

/// The legal moves of `player` on `g`, in the order in which they are
/// generated: every capture chain where a capture is available, and the
/// quiet moves only where none is.
pub open spec fn legal_moves(g: Grid, player: Player) -> Seq<MovesView> {
    let locs = pieces(g, player);
    if must_jump(g, player) {
        all_jumps(g, player, locs, locs.len())
    } else {
        all_quiet(g, player, locs, locs.len())
    }
}

/// The grid with the first `k` squares of `path` emptied.
pub open spec fn clear_all(g: Grid, path: Seq<Sq>, k: nat) -> Grid
    decreases k,
{
    if k == 0 {
        g
    } else {
        put(clear_all(g, path, (k - 1) as nat), path[k - 1], BoardPiece::Empty)
    }
}

/// The piece as it stands after landing on row `row`: crowned on either edge
/// row, unchanged elsewhere.
pub open spec fn landed(piece: BoardPiece, row: int) -> BoardPiece {
    if row == 7 || row == 0 {
        piece.spec_promote()
    } else {
        piece
    }
}

/// The grid after move `m`: the piece leaves its square, the captured pieces
/// are taken off, and the piece stands on the end square.
pub open spec fn apply_move(g: Grid, m: MovesView) -> Grid {
    put(
        clear_all(put(g, m.start, BoardPiece::Empty), m.path, m.path.len()),
        m.end,
        landed(at(g, m.start), m.end.0),
    )
}

/// What stands on row `r`, column `c` when a game starts: twelve pieces a
/// side on the squares whose row and column sum to an even number, Black on
/// the three lowest rows and Red on the three highest.
pub open spec fn start_piece(r: int, c: int) -> BoardPiece {
    if (r + c) % 2 != 0 {
        BoardPiece::Empty
    } else if r < 3 {
        BoardPiece::Black
    } else if r > 4 {
        BoardPiece::Red
    } else {
        BoardPiece::Empty
    }
}

/// The grid on which a game starts.
pub open spec fn start_grid() -> Grid {
    Seq::new(8, |r: int| Seq::new(8, |c: int| start_piece(r, c)))
}

impl Position {
    /// The position from which a game starts: Black is to move.
    pub open spec fn start() -> Position {
        Position { grid: start_grid(), mover: Player::Black }
    }

    /// The grid has eight rows of eight squares.
    pub open spec fn wf(self) -> bool {
        grid_wf(self.grid)
    }

    /// The legal moves of the side to move.
    pub open spec fn moves(self) -> Seq<MovesView> {
        legal_moves(self.grid, self.mover)
    }

    /// The position after the side to move has played its move number `i`.
    pub open spec fn play(self, i: int) -> Position {
        Position {
            grid: apply_move(self.grid, self.moves()[i]),
            mover: self.mover.spec_get_other(),
        }
    }

    /// The position with the other side to move.
    pub open spec fn pass(self) -> Position {
        Position { grid: self.grid, mover: self.mover.spec_get_other() }
    }

    /// The winner, where the game is over: the side that is not to move, when
    /// the side to move has no legal move.
    pub open spec fn winner(self) -> Option<Player> {
        if self.moves().len() == 0 {
            Some(self.mover.spec_get_other())
        } else {
            None
        }
    }
}

} // verus!
