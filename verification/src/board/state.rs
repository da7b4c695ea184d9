//! The board of a game in progress: the grid, the two sides and the cached
//! list of legal moves of the side to move.

use super::laws::{
    legal_move_ok, lemma_jump_among_step, lemma_legal_moves, lemma_no_jumps_yet,
    lemma_owned_valid,
};
use super::moves::{copy_cords, moves_view, sq, sqs, Moves};
use super::piece::{BoardPiece, Cord, Move, Player};
use super::rules::{
    all_jumps, all_quiet, at, branch, capture_allowed, capture_ok, chains, clear_all, jump_among,
    landing, lemma_targets_shrink, move_legal, must_jump, neighbor, on_board, owned, pieces, put,
    quiet_step, sq_of, start_grid, targets_left, Grid, MovesView, Position, Sq,
};
use vstd::prelude::*;

verus! {

/// The rows of `b` as a grid.
pub open spec fn grid_view(b: [[BoardPiece; 8]; 8]) -> Grid {
    Seq::new(8, |r: int| b@[r]@)
}

/// What the board keeps for one side: its legal moves as last computed,
/// whether they are captures, and where its pieces stand.
#[derive(Debug)]
pub struct PlayerInfo {
    moves: Vec<Moves>,
    can_jump: bool,
    piece_locs: Vec<Cord>,
    player: Player,
}

impl PlayerInfo {
    /// The moves kept for this side.
    pub closed spec fn spec_moves(&self) -> Seq<MovesView> {
        moves_view(self.moves@)
    }

    /// Whether those moves are captures.
    pub closed spec fn spec_can_jump(&self) -> bool {
        self.can_jump
    }

    /// The side that the record is kept for.
    pub closed spec fn spec_player(&self) -> Player {
        self.player
    }

    /// The squares on which the pieces of this side stand.
    pub closed spec fn spec_locs(&self) -> Seq<Sq> {
        sqs(self.piece_locs@)
    }

    /// The moves of this side, as last computed.
    pub fn get_moves(&self) -> (r: &Vec<Moves>)
        ensures
            moves_view(r@) == self.spec_moves(),
    {
        &self.moves
    }

    /// Whether the moves of this side are captures.
    pub fn get_can_jump(&self) -> (r: bool)
        ensures
            r == self.spec_can_jump(),
    {
        self.can_jump
    }

    /// The side that this record is kept for.
    pub fn get_player(&self) -> (r: Player)
        ensures
            r == self.spec_player(),
    {
        self.player
    }
}

impl Clone for PlayerInfo {
    fn clone(&self) -> (r: Self)
        ensures
            r.spec_moves() == self.spec_moves(),
            r.spec_can_jump() == self.spec_can_jump(),
            r.spec_player() == self.spec_player(),
            r.spec_locs() == self.spec_locs(),
    {
        let mut moves: Vec<Moves> = Vec::new();
        let mut i: usize = 0;
        while i < self.moves.len()
            invariant
                i <= self.moves.len(),
                moves@.len() == i,
                moves_view(moves@) == moves_view(self.moves@).take(i as int),
            decreases self.moves.len() - i,
        {
            let ghost before = moves@;
            moves.push(self.moves[i].clone());
            assert forall|k: int| 0 <= k < i + 1 implies moves_view(moves@)[k] == moves_view(
                self.moves@,
            ).take(i + 1)[k] by {
                if k < i {
                    assert(moves_view(before)[k] == moves_view(self.moves@).take(i as int)[k]);
                }
            }
            assert(moves_view(moves@) =~= moves_view(self.moves@).take(i + 1));
            i += 1;
        }
        assert(moves_view(self.moves@).take(self.moves.len() as int) =~= moves_view(self.moves@));
        PlayerInfo {
            moves,
            can_jump: self.can_jump,
            piece_locs: copy_cords(&self.piece_locs),
            player: self.player,
        }
    }
}

/// The two sides of a game: the one to move and the one that waits.
#[derive(Debug)]
pub struct Players {
    current: PlayerInfo,
    waiting: PlayerInfo,
}

impl Players {
    /// The two records are kept for opposite sides.
    pub closed spec fn wf(&self) -> bool {
        self.waiting.player == self.current.player.spec_get_other()
    }

    /// The record of the side to move.
    pub closed spec fn spec_current(&self) -> PlayerInfo {
        self.current
    }

    /// The record of the side that waits.
    pub closed spec fn spec_waiting(&self) -> PlayerInfo {
        self.waiting
    }

    /// The side to move.
    pub open spec fn mover(&self) -> Player {
        self.spec_current().spec_player()
    }

    /// The two sides change places.
    pub fn swap(&mut self)
        ensures
            final(self).spec_current() == old(self).spec_waiting(),
            final(self).spec_waiting() == old(self).spec_current(),
            old(self).wf() ==> final(self).wf(),
            old(self).wf() ==> final(self).mover() == old(self).mover().spec_get_other(),
    {
        std::mem::swap(&mut self.current, &mut self.waiting);
    }

    /// The side to move, then the side that waits.
    pub fn get_current_players(&self) -> (r: (&PlayerInfo, &PlayerInfo))
        ensures
            *r.0 == self.spec_current(),
            *r.1 == self.spec_waiting(),
    {
        (&self.current, &self.waiting)
    }

    /// The record of the side to move.
    pub fn get_current_player(&self) -> (r: &PlayerInfo)
        ensures
            *r == self.spec_current(),
    {
        &self.current
    }

    /// The record of the side that waits.
    pub fn get_other_player(&self) -> (r: &PlayerInfo)
        ensures
            *r == self.spec_waiting(),
    {
        &self.waiting
    }

    /// The record of the side to move, to be changed.
    fn get_current_player_mut(&mut self) -> (r: &mut PlayerInfo)
        ensures
            *r == old(self).spec_current(),
            final(self).spec_current() == *final(r),
            final(self).spec_waiting() == old(self).spec_waiting(),
    {
        &mut self.current
    }

    /// The side to move, then the side that waits, each to be changed.
    fn get_current_players_mut(&mut self) -> (r: (&mut PlayerInfo, &mut PlayerInfo))
        ensures
            *r.0 == old(self).spec_current(),
            *r.1 == old(self).spec_waiting(),
            final(self).spec_current() == *final(r.0),
            final(self).spec_waiting() == *final(r.1),
    {
        (&mut self.current, &mut self.waiting)
    }

    /// The record of Red: that of the side to move where Red is to move.
    pub fn get_red(&self) -> (r: &PlayerInfo)
        ensures
            *r == (if self.mover() == Player::Red {
                self.spec_current()
            } else {
                self.spec_waiting()
            }),
            self.wf() ==> r.spec_player() == Player::Red,
    {
        if self.current.player == Player::Red {
            &self.current
        } else {
            &self.waiting
        }
    }

    /// The record of Black: that of the side to move where Black is to move.
    pub fn get_black(&self) -> (r: &PlayerInfo)
        ensures
            *r == (if self.mover() == Player::Black {
                self.spec_current()
            } else {
                self.spec_waiting()
            }),
            self.wf() ==> r.spec_player() == Player::Black,
    {
        if self.current.player == Player::Black {
            &self.current
        } else {
            &self.waiting
        }
    }
}

impl Default for Players {
    /// Black to move, and nothing known yet of either side.
    fn default() -> (r: Self)
        ensures
            r.wf(),
            r.mover() == Player::Black,
            r.spec_waiting().spec_player() == Player::Red,
            r.spec_current().spec_moves().len() == 0,
            r.spec_waiting().spec_moves().len() == 0,
            !r.spec_current().spec_can_jump(),
            !r.spec_waiting().spec_can_jump(),
            r.spec_current().spec_locs().len() == 0,
            r.spec_waiting().spec_locs().len() == 0,
    {
        Players {
            current: PlayerInfo {
                moves: Vec::new(),
                can_jump: false,
                piece_locs: Vec::new(),
                player: Player::Black,
            },
            waiting: PlayerInfo {
                moves: Vec::new(),
                can_jump: false,
                piece_locs: Vec::new(),
                player: Player::Red,
            },
        }
    }
}

impl Clone for Players {
    fn clone(&self) -> (r: Self)
        ensures
            r.wf() == self.wf(),
            r.mover() == self.mover(),
            r.spec_current().spec_moves() == self.spec_current().spec_moves(),
            r.spec_current().spec_can_jump() == self.spec_current().spec_can_jump(),
            r.spec_current().spec_locs() == self.spec_current().spec_locs(),
            r.spec_waiting().spec_moves() == self.spec_waiting().spec_moves(),
            r.spec_waiting().spec_can_jump() == self.spec_waiting().spec_can_jump(),
            r.spec_waiting().spec_locs() == self.spec_waiting().spec_locs(),
            r.spec_waiting().spec_player() == self.spec_waiting().spec_player(),
    {
        Players { current: self.current.clone(), waiting: self.waiting.clone() }
    }
}

/// A game in progress.
#[derive(Debug)]
pub struct Board {
    board: [[BoardPiece; 8]; 8],
    players: Players,
}

impl View for Board {
    type V = Position;

    closed spec fn view(&self) -> Position {
        Position { grid: grid_view(self.board), mover: self.players.current.player }
    }
}

/// Joining four sequences to a fifth one after another adds what they are
/// when joined.
proof fn lemma_join<A>(m: Seq<A>, a: Seq<A>, b: Seq<A>, c: Seq<A>, d: Seq<A>)
    ensures
        m + a + b + c + d == m + (a + b + c + d),
{
    assert(m + a + b + c + d =~= m + (a + b + c + d));
}

/// `a` and `b` differ at most in the cached moves of the side to move.
spec fn same_but_moves(a: Board, b: Board) -> bool {
    &&& a.board == b.board
    &&& a.players.waiting == b.players.waiting
    &&& a.players.current.can_jump == b.players.current.can_jump
    &&& a.players.current.piece_locs == b.players.current.piece_locs
    &&& a.players.current.player == b.players.current.player
}

impl Board {
    /// The two sides are opposite, each side's pieces are listed row by row,
    /// the moves of the side to move are its legal moves, and no moves are
    /// kept for the side that waits.
    pub closed spec fn wf(&self) -> bool {
        &&& self.players.wf()
        &&& self.locs_ok()
        &&& moves_view(self.players.current.moves@) == self@.moves()
        &&& self.players.current.can_jump == must_jump(self@.grid, self@.mover)
        &&& self.players.waiting.moves@.len() == 0
        &&& !self.players.waiting.can_jump
    }

    /// The pieces of each side are listed row by row.
    spec fn locs_ok(&self) -> bool {
        &&& sqs(self.players.current.piece_locs@) == pieces(
            grid_view(self.board),
            self.players.current.player,
        )
        &&& sqs(self.players.waiting.piece_locs@) == pieces(
            grid_view(self.board),
            self.players.waiting.player,
        )
    }

    /// Whether (`row`, `col`) lies off the board.
    fn is_off_screen(&self, row: i32, col: i32) -> (r: bool)
        ensures
            r == !on_board((row as int, col as int)),
    {
        row >= 8 || row < 0 || col >= 8 || col < 0
    }

    /// Whether a quiet step may end on (`new_row`, `new_col`).
    fn can_move_to(&self, new_row: i32, new_col: i32) -> (r: bool)
        ensures
            r == (on_board((new_row as int, new_col as int)) && at(
                grid_view(self.board),
                (new_row as int, new_col as int),
            ) == BoardPiece::Empty),
    {
        if self.is_off_screen(new_row, new_col) {
            false
        } else {
            self.board[new_row as usize][new_col as usize] == BoardPiece::Empty
        }
    }

    /// Whether a piece of `player` may open a chain by jumping the piece on
    /// the enemy square and landing on the new square.
    fn can_take(
        &self,
        enemy_row: i32,
        enemy_col: i32,
        new_row: i32,
        new_col: i32,
        player: Player,
    ) -> (r: bool)
        ensures
            r == ({
                let e = (enemy_row as int, enemy_col as int);
                let n = (new_row as int, new_col as int);
                &&& on_board(e)
                &&& on_board(n)
                &&& player.spec_get_other().spec_does_piece_match(at(grid_view(self.board), e))
                &&& at(grid_view(self.board), n) == BoardPiece::Empty
            }),
    {
        !(self.is_off_screen(enemy_row, enemy_col) || self.is_off_screen(new_row, new_col)
            || self.board[enemy_row as usize][enemy_col as usize] == BoardPiece::Empty
            || player.does_piece_match(self.board[enemy_row as usize][enemy_col as usize])
            || self.board[new_row as usize][new_col as usize] != BoardPiece::Empty)
    }

    /// Whether the chain `path_par` of `player` may go on by jumping the piece
    /// on the enemy square and landing on the new square.
    fn can_jump(
        &self,
        enemy_row: i32,
        enemy_col: i32,
        new_row: i32,
        new_col: i32,
        path_par: &Moves,
        player: Player,
    ) -> (r: bool)
        ensures
            r == capture_allowed(
                grid_view(self.board),
                player,
                path_par@.start,
                path_par@.path,
                (enemy_row as int, enemy_col as int),
                (new_row as int, new_col as int),
            ),
    {
        if self.is_off_screen(enemy_row, enemy_col) || self.is_off_screen(new_row, new_col) {
            return false;
        }
        let enemy: Cord = (enemy_row as usize, enemy_col as usize);
        let land: Cord = (new_row as usize, new_col as usize);
        let start = path_par.start_loc();
        !path_par.captures(enemy) && player.get_other().does_piece_match(
            self.board[enemy.0][enemy.1],
        ) && (self.board[land.0][land.1] == BoardPiece::Empty || path_par.captures(land) || (start.0
            == land.0 && start.1 == land.1))
    }

    /// Whether the piece on (`row`, `col`) may make a step of kind `mv`.
    fn is_move_legal(&self, row: usize, col: usize, mv: Move) -> (r: bool)
        requires
            row < 8,
            col < 8,
        ensures
            r == move_legal(
                grid_view(self.board),
                self.players.current.player,
                self.players.current.can_jump,
                (row as int, col as int),
                mv,
            ),
    {
        let player = self.players.current.player;
        let piece = self.board[row][col];
        if self.players.current.can_jump && mv != Move::Jump {
            return false;
        }
        if !piece.is_king() && mv.must_be_king() {
            return false;
        }
        let f: i32 = player.forward();
        let r: i32 = row as i32;
        let c: i32 = col as i32;
        match mv {
            Move::ForwardRight => self.can_move_to(r + f, c + 1),
            Move::ForwardLeft => self.can_move_to(r + f, c - 1),
            Move::BackwardRight => self.can_move_to(r - f, c + 1),
            Move::BackwardLeft => self.can_move_to(r - f, c - 1),
            Move::Jump => {
                let ghost from = (row as int, col as int);
                let mut can_jump_acc = false;
                if piece.is_king() {
                    if self.can_take(r - f, c + 1, r - 2 * f, c + 2, player) {
                        can_jump_acc = true;
                    }
                    if self.can_take(r - f, c - 1, r - 2 * f, c - 2, player) {
                        can_jump_acc = true;
                    }
                }
                if self.can_take(r + f, c + 1, r + 2 * f, c + 2, player) {
                    can_jump_acc = true;
                }
                if self.can_take(r + f, c - 1, r + 2 * f, c - 2, player) {
                    can_jump_acc = true;
                }
                proof {
                    let e = Seq::<Sq>::empty();
                    assert(forall|s: Sq| !e.contains(s));
                    assert(landing(from, Move::ForwardRight, player) != from);
                    assert(landing(from, Move::ForwardLeft, player) != from);
                    assert(landing(from, Move::BackwardRight, player) != from);
                    assert(landing(from, Move::BackwardLeft, player) != from);
                }
                can_jump_acc
            },
        }
    }

    /// Adds to the moves of the side to move every completion of the chain
    /// `path_par`, which now stands on (`row`, `col`).
    fn dfs_jumps(&mut self, row: usize, col: usize, path_par: Moves)
        requires
            row < 8,
            col < 8,
            on_board(path_par@.start),
            forall|k: int| 0 <= k < path_par@.path.len() ==> on_board(#[trigger] path_par@.path[k]),
        ensures
            same_but_moves(*final(self), *old(self)),
            moves_view(final(self).players.current.moves@) == moves_view(
                old(self).players.current.moves@,
            ) + chains(
                grid_view(old(self).board),
                old(self).players.current.player,
                path_par@.start,
                path_par@.path,
                (row as int, col as int),
            ),
        decreases
                targets_left(
                    grid_view(old(self).board),
                    old(self).players.current.player,
                    path_par@.path,
                    64,
                ),
                1nat,
    {
        let ghost g = grid_view(self.board);
        let ghost player = self.players.current.player;
        let ghost from = (row as int, col as int);
        let ghost m0 = moves_view(self.players.current.moves@);
        let ghost start = path_par@.start;
        let ghost path = path_par@.path;
        let right = self.try_jump(row, col, &path_par, Move::ForwardRight);
        let left = self.try_jump(row, col, &path_par, Move::ForwardLeft);
        let back_right = self.try_jump(row, col, &path_par, Move::BackwardRight);
        let back_left = self.try_jump(row, col, &path_par, Move::BackwardLeft);
        if !(right || left || back_right || back_left) {
            let done = path_par.ending_on((row, col));
            self.players.get_current_player_mut().moves.push(done);
            assert(moves_view(self.players.current.moves@) =~= m0 + seq![done@]);
        } else {
            proof {
                lemma_join(
                    m0,
                    branch(g, player, start, path, from, Move::ForwardRight),
                    branch(g, player, start, path, from, Move::ForwardLeft),
                    branch(g, player, start, path, from, Move::BackwardRight),
                    branch(g, player, start, path, from, Move::BackwardLeft),
                );
            }
        }
    }

    /// Where the chain `path_par`, standing on (`row`, `col`), can capture in
    /// direction `d`, adds every completion that begins with that capture.
    /// Says whether the capture could be made.
    fn try_jump(&mut self, row: usize, col: usize, path_par: &Moves, d: Move) -> (found: bool)
        requires
            row < 8,
            col < 8,
            d != Move::Jump,
            on_board(path_par@.start),
            forall|k: int| 0 <= k < path_par@.path.len() ==> on_board(#[trigger] path_par@.path[k]),
        ensures
            same_but_moves(*final(self), *old(self)),
            found == capture_ok(
                grid_view(old(self).board),
                old(self).players.current.player,
                path_par@.start,
                path_par@.path,
                (row as int, col as int),
                d,
            ),
            moves_view(final(self).players.current.moves@) == moves_view(
                old(self).players.current.moves@,
            ) + branch(
                grid_view(old(self).board),
                old(self).players.current.player,
                path_par@.start,
                path_par@.path,
                (row as int, col as int),
                d,
            ),
        decreases
                targets_left(
                    grid_view(old(self).board),
                    old(self).players.current.player,
                    path_par@.path,
                    64,
                ),
                0nat,
    {
        let player = self.players.current.player;
        let ghost g = grid_view(self.board);
        let ghost from = (row as int, col as int);
        let ghost m0 = moves_view(self.players.current.moves@);
        let (dr, dc) = d.steps(player);
        let r: i32 = row as i32;
        let c: i32 = col as i32;
        let start = path_par.start_loc();
        if d.must_be_king() && !self.board[start.0][start.1].is_king() {
            assert(m0 =~= m0 + Seq::<MovesView>::empty());
            return false;
        }
        if !self.can_jump(r + dr, c + dc, r + 2 * dr, c + 2 * dc, path_par, player) {
            assert(m0 =~= m0 + Seq::<MovesView>::empty());
            return false;
        }
        let path = path_par.with_capture(((r + dr) as usize, (c + dc) as usize));
        proof {
            lemma_targets_shrink(g, player, path_par@.path, neighbor(from, d, player), 64);
        }
        self.dfs_jumps((r + 2 * dr) as usize, (c + 2 * dc) as usize, path);
        true
    }

    /// Adds to the moves of the side to move the capture chains of the piece
    /// on (`row`, `col`), which has a capture to open one with.
    fn calc_jumps(&mut self, row: usize, col: usize)
        requires
            row < 8,
            col < 8,
        ensures
            same_but_moves(*final(self), *old(self)),
            moves_view(final(self).players.current.moves@) == moves_view(
                old(self).players.current.moves@,
            ) + chains(
                grid_view(old(self).board),
                old(self).players.current.player,
                (row as int, col as int),
                Seq::empty(),
                (row as int, col as int),
            ),
    {
        self.dfs_jumps(row, col, Moves::new((row, col), (9, 9)));
    }

    /// Where the piece on (`row`, `col`) may make the quiet step `mv`, adds
    /// that move to the moves of the side to move, which has no capture.
    fn try_step(&mut self, row: usize, col: usize, mv: Move)
        requires
            row < 8,
            col < 8,
            mv != Move::Jump,
            !old(self).players.current.can_jump,
        ensures
            same_but_moves(*final(self), *old(self)),
            moves_view(final(self).players.current.moves@) == moves_view(
                old(self).players.current.moves@,
            ) + quiet_step(
                grid_view(old(self).board),
                old(self).players.current.player,
                (row as int, col as int),
                mv,
            ),
    {
        let ghost m0 = moves_view(self.players.current.moves@);
        if self.is_move_legal(row, col, mv) {
            let (dr, dc) = mv.steps(self.players.current.player);
            let end: Cord = ((row as i32 + dr) as usize, (col as i32 + dc) as usize);
            let m = Moves::new((row, col), end);
            self.players.get_current_player_mut().moves.push(m);
            assert(moves_view(self.players.current.moves@) =~= m0 + seq![m@]);
        } else {
            assert(m0 =~= m0 + Seq::<MovesView>::empty());
        }
    }

    /// Computes the legal moves of the side to move from the grid and the
    /// squares of its pieces.
    fn calc_moves(&mut self)
        requires
            old(self).players.wf(),
            old(self).locs_ok(),
        ensures
            final(self).wf(),
            final(self)@ == old(self)@,
            final(self).board == old(self).board,
    {
        let rows = copy_cords(&self.players.get_current_player().piece_locs);
        {
            let (p_info, other) = self.players.get_current_players_mut();
            p_info.moves.clear();
            p_info.can_jump = false;
            other.moves.clear();
            other.can_jump = false;
        }
        let ghost g = grid_view(self.board);
        let ghost player = self.players.current.player;
        let ghost locs = sqs(rows@);
        proof {
            lemma_owned_valid(g, player, 64);
        }
        let mut i: usize = 0;
        while i < rows.len()
            invariant
                i <= rows.len(),
                locs == sqs(rows@),
                locs == pieces(g, player),
                forall|k: int| 0 <= k < locs.len() ==> on_board(#[trigger] locs[k]),
                self.board == old(self).board,
                g == grid_view(self.board),
                player == self.players.current.player,
                self.players.waiting.moves@.len() == 0,
                !self.players.waiting.can_jump,
                self.players.waiting.player == old(self).players.waiting.player,
                self.players.waiting.piece_locs == old(self).players.waiting.piece_locs,
                self.players.current.piece_locs == old(self).players.current.piece_locs,
                self.players.current.player == old(self).players.current.player,
                self.players.current.can_jump == jump_among(g, player, locs, i as int),
                self.players.current.can_jump ==> moves_view(self.players.current.moves@)
                    == all_jumps(g, player, locs, i as nat),
                !self.players.current.can_jump ==> moves_view(self.players.current.moves@)
                    == all_quiet(g, player, locs, i as nat),
            decreases rows.len() - i,
        {
            let (row, col) = rows[i];
            assert(locs[i as int] == (row as int, col as int));
            assert(on_board(locs[i as int]));
            let ghost from = (row as int, col as int);
            proof {
                lemma_jump_among_step(g, player, locs, i as int);
            }
            if self.is_move_legal(row, col, Move::Jump) {
                if !self.players.get_current_player().can_jump {
                    let p_info = self.players.get_current_player_mut();
                    p_info.moves.clear();
                    p_info.can_jump = true;
                    proof {
                        lemma_no_jumps_yet(g, player, locs, i as nat);
                        assert(moves_view(self.players.current.moves@) =~= Seq::<MovesView>::empty());
                    }
                }
                self.calc_jumps(row, col);
            }
            if self.players.current.can_jump {
                assert(moves_view(self.players.current.moves@) =~= all_jumps(
                    g,
                    player,
                    locs,
                    (i + 1) as nat,
                ));
                i += 1;
                continue ;
            }
            let ghost m0 = moves_view(self.players.current.moves@);
            self.try_step(row, col, Move::ForwardRight);
            self.try_step(row, col, Move::ForwardLeft);
            self.try_step(row, col, Move::BackwardRight);
            self.try_step(row, col, Move::BackwardLeft);
            proof {
                lemma_join(
                    m0,
                    quiet_step(g, player, from, Move::ForwardRight),
                    quiet_step(g, player, from, Move::ForwardLeft),
                    quiet_step(g, player, from, Move::BackwardRight),
                    quiet_step(g, player, from, Move::BackwardLeft),
                );
            }
            i += 1;
        }
    }

    /// The squares of the pieces of `player`, row by row.
    fn find_pieces(&self, player: Player) -> (r: Vec<Cord>)
        ensures
            sqs(r@) == pieces(grid_view(self.board), player),
    {
        let ghost g = grid_view(self.board);
        let mut found: Vec<Cord> = Vec::new();
        let mut row: usize = 0;
        assert(sqs(found@) =~= owned(g, player, 0));
        while row < 8
            invariant
                row <= 8,
                g == grid_view(self.board),
                sqs(found@) == owned(g, player, (row * 8) as nat),
            decreases 8 - row,
        {
            let mut col: usize = 0;
            while col < 8
                invariant
                    row < 8,
                    col <= 8,
                    g == grid_view(self.board),
                    sqs(found@) == owned(g, player, (row * 8 + col) as nat),
                decreases 8 - col,
            {
                assert(sq_of(row * 8 + col) == (row as int, col as int));
                if player.does_piece_match(self.board[row][col]) {
                    let ghost before = found@;
                    found.push((row, col));
                    assert(sqs(found@) =~= sqs(before).push((row as int, col as int)));
                }
                col += 1;
            }
            row += 1;
        }
        found
    }

    /// Lists the pieces of both sides anew from the grid.
    fn find_all_pieces(&mut self)
        ensures
            final(self).locs_ok(),
            final(self).board == old(self).board,
            final(self).players.current.player == old(self).players.current.player,
            final(self).players.waiting.player == old(self).players.waiting.player,
    {
        let mine = self.find_pieces(self.players.get_current_player().player);
        let theirs = self.find_pieces(self.players.get_other_player().player);
        let (player_info, other_player) = self.players.get_current_players_mut();
        player_info.piece_locs = mine;
        other_player.piece_locs = theirs;
    }

    /// The grid of a board has eight rows of eight squares.
    pub proof fn lemma_view_wf(&self)
        ensures
            self@.wf(),
    {
    }

    /// The game on grid `board`, with the side to move that `players` names.
    pub fn new(board: [[BoardPiece; 8]; 8], players: Players) -> (r: Self)
        requires
            players.wf(),
        ensures
            r.wf(),
            r@ == (Position { grid: grid_view(board), mover: players.mover() }),
    {
        let mut obj = Board { board, players };
        obj.find_all_pieces();
        obj.calc_moves();
        obj
    }

    /// The grid, row by row.
    pub fn get_board(&self) -> (r: [[BoardPiece; 8]; 8])
        ensures
            grid_view(r) == self@.grid,
    {
        self.board
    }

    /// Hands the move to the other side, without a move being played.
    pub fn swap_current_player(&mut self)
        requires
            old(self).wf(),
        ensures
            final(self).wf(),
            final(self)@ == old(self)@.pass(),
    {
        self.players.swap();
        self.calc_moves();
    }

    /// The pieces of the side to move, then those of the other side, each
    /// with the square it stands on, row by row.
    pub fn get_pieces(&self) -> (r: (Vec<(BoardPiece, Cord)>, Vec<(BoardPiece, Cord)>))
        requires
            self.wf(),
        ensures
            stands(self@.grid, pieces(self@.grid, self@.mover), r.0@),
            stands(self@.grid, pieces(self@.grid, self@.mover.spec_get_other()), r.1@),
    {
        proof {
            lemma_owned_valid(grid_view(self.board), self.players.current.player, 64);
            lemma_owned_valid(grid_view(self.board), self.players.waiting.player, 64);
        }
        let mine = self.with_pieces(&self.players.current.piece_locs);
        let other = self.with_pieces(&self.players.waiting.piece_locs);
        (mine, other)
    }

    /// Each square of `locs` with the piece that stands on it.
    fn with_pieces(&self, locs: &Vec<Cord>) -> (r: Vec<(BoardPiece, Cord)>)
        requires
            forall|i: int| 0 <= i < locs@.len() ==> on_board(#[trigger] sqs(locs@)[i]),
        ensures
            stands(grid_view(self.board), sqs(locs@), r@),
    {
        let mut out: Vec<(BoardPiece, Cord)> = Vec::new();
        let mut i: usize = 0;
        while i < locs.len()
            invariant
                i <= locs.len(),
                out@.len() == i,
                forall|k: int| 0 <= k < locs@.len() ==> on_board(#[trigger] sqs(locs@)[k]),
                forall|k: int|
                    0 <= k < i ==> sq((#[trigger] out@[k]).1) == sqs(locs@)[k] && out@[k].0 == at(
                        grid_view(self.board),
                        sqs(locs@)[k],
                    ),
            decreases locs.len() - i,
        {
            let (row, col) = locs[i];
            assert(on_board(sqs(locs@)[i as int]));
            out.push((self.board[row][col], (row, col)));
            i += 1;
        }
        out
    }

    /// The record of the side to move: its legal moves, and whether they are
    /// captures. They all are, or none is.
    pub fn get_player_info(&self) -> (r: &PlayerInfo)
        requires
            self.wf(),
        ensures
            r.spec_moves() == self@.moves(),
            r.spec_can_jump() == must_jump(self@.grid, self@.mover),
            r.spec_player() == self@.mover,
            r.spec_locs() == pieces(self@.grid, self@.mover),
            forall|i: int|
                0 <= i < r.spec_moves().len() ==> ((#[trigger] r.spec_moves()[i]).path.len() > 0)
                    == r.spec_can_jump(),
    {
        proof {
            lemma_legal_moves(self@.grid, self@.mover);
            assert forall|i: int| 0 <= i < self@.moves().len() implies ((
            #[trigger] self@.moves()[i]).path.len() > 0) == must_jump(self@.grid, self@.mover) by {
                assert(legal_move_ok(self@.grid, self@.mover, self@.moves()[i]));
            }
        }
        self.players.get_current_player()
    }

    /// The winner, where the game is over: the side to move has lost when it
    /// has no legal move.
    pub fn is_game_over(&self) -> (r: Option<Player>)
        requires
            self.wf(),
        ensures
            r == self@.winner(),
    {
        let p_info = self.players.get_current_player();
        if p_info.moves.len() == 0 {
            return Some(p_info.player.get_other());
        }
        None
    }

    /// Plays the legal move number `mv` of the side to move: the piece leaves
    /// its square, the captured pieces are taken off, the piece lands (crowned
    /// on an edge row), and the other side is to move. Where there is no such
    /// move, nothing changes.
    pub fn do_move(&mut self, mv: usize) -> (r: bool)
        requires
            old(self).wf(),
        ensures
            final(self).wf(),
            r == (mv < old(self)@.moves().len()),
            r ==> final(self)@ == old(self)@.play(mv as int),
            !r ==> *final(self) == *old(self),
    {
        if mv >= self.players.current.moves.len() {
            return false;
        }
        let ghost g = grid_view(self.board);
        let ghost m = self@.moves()[mv as int];
        proof {
            lemma_legal_moves(g, self@.mover);
            assert(legal_move_ok(g, self@.mover, m));
        }
        let start = self.players.current.moves[mv].start_loc();
        let end = self.players.current.moves[mv].end_loc();
        let path = copy_cords(self.players.current.moves[mv].jump_path());
        assert(sqs(path@) == m.path);
        let piece = self.board[start.0][start.1];
        self.board[start.0][start.1] = BoardPiece::Empty;
        assert(grid_view(self.board) =~~= put(g, m.start, BoardPiece::Empty));
        let mut i: usize = 0;
        while i < path.len()
            invariant
                i <= path.len(),
                sqs(path@) == m.path,
                forall|k: int| 0 <= k < m.path.len() ==> on_board(#[trigger] m.path[k]),
                grid_view(self.board) == clear_all(
                    put(g, m.start, BoardPiece::Empty),
                    m.path,
                    i as nat,
                ),
                self.players == old(self).players,
            decreases path.len() - i,
        {
            let (row, col) = path[i];
            assert(on_board(m.path[i as int]));
            assert(m.path[i as int] == (row as int, col as int));
            let ghost before = grid_view(self.board);
            self.board[row][col] = BoardPiece::Empty;
            assert(grid_view(self.board) =~~= put(before, (row as int, col as int), BoardPiece::Empty));
            i += 1;
        }
        let ghost cleared = grid_view(self.board);
        let crowned = if end.0 == 7 || end.0 == 0 {
            piece.promote()
        } else {
            piece
        };
        self.board[end.0][end.1] = crowned;
        assert(grid_view(self.board) =~~= put(cleared, m.end, crowned));
        self.players.swap();
        self.find_all_pieces();
        self.calc_moves();
        true
    }

    /// The side to move.
    pub fn get_current_player(&self) -> (r: Player)
        ensures
            r == self@.mover,
    {
        self.players.get_current_player().player
    }
}

/// `out` lists the squares `locs`, in order, each with the piece that stands
/// on it in `g`.
pub open spec fn stands(g: Grid, locs: Seq<Sq>, out: Seq<(BoardPiece, Cord)>) -> bool {
    &&& out.len() == locs.len()
    &&& forall|i: int|
        0 <= i < out.len() ==> sq((#[trigger] out[i]).1) == locs[i] && out[i].0 == at(g, locs[i])
}

impl Default for Board {
    /// The game at its start.
    fn default() -> (r: Self)
        ensures
            r.wf(),
            r@ == Position::start(),
    {
        let b = BoardPiece::Black;
        let r = BoardPiece::Red;
        let e = BoardPiece::Empty;
        let board = [
            [b, e, b, e, b, e, b, e],
            [e, b, e, b, e, b, e, b],
            [b, e, b, e, b, e, b, e],
            [e, e, e, e, e, e, e, e],
            [e, e, e, e, e, e, e, e],
            [e, r, e, r, e, r, e, r],
            [r, e, r, e, r, e, r, e],
            [e, r, e, r, e, r, e, r],
        ];
        assert(grid_view(board) =~~= start_grid());
        Board::new(board, Players::default())
    }
}

impl Clone for Board {
    fn clone(&self) -> (r: Self)
        ensures
            r@ == self@,
            self.wf() ==> r.wf(),
    {
        let r = Board { board: self.board, players: self.players.clone() };
        assert(moves_view(r.players.waiting.moves@).len() == moves_view(
            self.players.waiting.moves@,
        ).len());
        r
    }
}

} // verus!
