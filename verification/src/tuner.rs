//! Tuning by self-play: a game between a challenger and the baseline it was
//! mutated from, the fitness that the game gives, and the choice of the next
//! baseline among the siblings of a generation.

use crate::ai::heuristic::{is_mutation, Heuristic, Weights};
use crate::ai::predict_move;
use crate::ai::search::found_by_deepening;
use crate::board::material::{lemma_move_and_material, lemma_occupied_at_most, material};
use crate::board::moves::moves_view;
use crate::board::rules::{pieces, Position};
use crate::board::{Board, Player};
use std::sync::{Arc, RwLock};
use vstd::prelude::*;

verus! {

/// What a game gives: a fitness, the lower the better, and the weights of
/// the side that won it.
pub type GameResult = (u32, Heuristic);

/// The seconds that each move of a game may take.
pub const TIME_LIMIT: u32 = 5;

/// The number of moves in a row without a capture after which a game is cut
/// off.
pub const QUIET_LIMIT: u32 = 50;

/// The fitness of a game that was not won: the worst there is.
pub const WORST: u32 = 0xffff_ffff;

/// No game has more moves than this: each of at most 64 pieces can be
/// captured once, and fewer than 52 moves lie between two captures.
pub const LONGEST_GAME: u32 = 3400;

/// Why a game gave no result.
#[derive(Debug, Copy, Clone, PartialEq, Eq, Structural)]
pub enum TunerError {
    /// The system clock could not be read.
    ClockUnavailable,
    /// A sibling failed while it was writing the best fitness so far.
    Poisoned,
}

/// `std::sync::RwLock`, a lock around a value that many may read and one
/// may write: nothing of what it holds is seen here.
#[verifier::external_type_specification]
#[verifier::external_body]
#[verifier::reject_recursive_types(T)]
pub struct ExRwLock<T: ?Sized>(RwLock<T>);

/// `RwLock::read` waits until the number can be read and hands out a guard
/// to it; it fails where a thread failed while it held the lock for writing.
/// The number read is whatever the siblings have written last: nothing is
/// claimed of it.
#[verifier::external_body]
fn read_shared(shared: &Arc<RwLock<u32>>) -> (r: Option<u32>) {
    match shared.read() {
        Ok(guard) => Some(*guard),
        Err(_) => None,
    }
}

/// How far a game has come: the moves that each side has made, and the
/// moves made since the last capture.
#[derive(Debug, Copy, Clone, PartialEq, Eq, Structural)]
pub struct Progress {
    pub red_counter: u32,
    pub black_counter: u32,
    pub time_since_last_jump: u32,
}

impl Progress {
    /// The progress of a game that has `mover` make one more move, a capture
    /// where `jumps` holds.
    pub open spec fn spec_count_move(self, mover: Player, jumps: bool) -> Progress {
        Progress {
            red_counter: if mover == Player::Red {
                (self.red_counter + 1) as u32
            } else {
                self.red_counter
            },
            black_counter: if mover == Player::Black {
                (self.black_counter + 1) as u32
            } else {
                self.black_counter
            },
            time_since_last_jump: if jumps {
                0
            } else {
                (self.time_since_last_jump + 1) as u32
            },
        }
    }

    /// The progress of a game before its first move.
    pub fn new() -> (r: Progress)
        ensures
            r == (Progress { red_counter: 0, black_counter: 0, time_since_last_jump: 0 }),
    {
        Progress { red_counter: 0, black_counter: 0, time_since_last_jump: 0 }
    }

    /// The progress of a game that has `mover` make one more move, a capture
    /// where `jumps` holds.
    pub fn count_move(self, mover: Player, jumps: bool) -> (r: Progress)
        requires
            self.red_counter < u32::MAX,
            self.black_counter < u32::MAX,
            self.time_since_last_jump < u32::MAX,
        ensures
            r == self.spec_count_move(mover, jumps),
    {
        Progress {
            red_counter: match mover {
                Player::Red => self.red_counter + 1,
                Player::Black => self.red_counter,
            },
            black_counter: match mover {
                Player::Red => self.black_counter,
                Player::Black => self.black_counter + 1,
            },
            time_since_last_jump: if jumps {
                0
            } else {
                self.time_since_last_jump + 1
            },
        }
    }

    /// Whether the game is to be cut off: it has gone more than `QUIET_LIMIT`
    /// moves without a capture, or one of its sides has made more moves than
    /// the best game so far took, which is `time_to_beat`.
    pub open spec fn spec_cut_off(self, time_to_beat: u32) -> bool {
        self.time_since_last_jump > QUIET_LIMIT || self.red_counter > time_to_beat
            || self.black_counter > time_to_beat
    }

    /// Whether the game is to be cut off: it has gone more than `QUIET_LIMIT`
    /// moves without a capture, or one of its sides has made more moves than
    /// the best game so far took, which is `time_to_beat`.
    pub fn cut_off(&self, time_to_beat: u32) -> (r: bool)
        ensures
            r == self.spec_cut_off(time_to_beat),
    {
        let most = if self.black_counter > self.red_counter {
            self.black_counter
        } else {
            self.red_counter
        };
        self.time_since_last_jump > QUIET_LIMIT || most > time_to_beat
    }
}

/// Whether a game with `fitness` is better than the best so far.
pub fn beats(fitness: u32, best: u32) -> (r: bool)
    ensures
        r == (fitness < best),
{
    fitness < best
}

/// Which side a game on `pos` goes to: the winner where it is over, and
/// otherwise the side with more pieces, the side that waits where they are
/// level.
pub open spec fn side_ahead(pos: Position) -> Player {
    match pos.winner() {
        Some(p) => p,
        None => if pieces(pos.grid, pos.mover).len() > pieces(
            pos.grid,
            pos.mover.spec_get_other(),
        ).len() {
            pos.mover
        } else {
            pos.mover.spec_get_other()
        },
    }
}

/// The fitness of a game that has come to `pos`: the number of moves that
/// the winner made where it is over, and the worst fitness where it was
/// cut off.
pub open spec fn fitness_of(pos: Position, red_counter: u32, black_counter: u32) -> u32 {
    match pos.winner() {
        Some(Player::Red) => red_counter,
        Some(Player::Black) => black_counter,
        None => WORST,
    }
}

/// What a game gives that has come to `b` after Red has made `red_counter`
/// moves and Black `black_counter`: its fitness, and the weights of the side
/// it goes to.
pub fn game_result(
    b: &Board,
    red_counter: u32,
    black_counter: u32,
    red_h: Heuristic,
    black_h: Heuristic,
) -> (r: GameResult)
    requires
        b.wf(),
    ensures
        r.0 == fitness_of(b@, red_counter, black_counter),
        r.1@ == (match side_ahead(b@) {
            Player::Red => red_h@,
            Player::Black => black_h@,
        }),
{
    match b.is_game_over() {
        Some(Player::Red) => (red_counter, red_h),
        Some(Player::Black) => (black_counter, black_h),
        None => {
            let (my_pieces, other_pieces) = b.get_pieces();
            let ahead = if my_pieces.len() > other_pieces.len() {
                b.get_current_player()
            } else {
                b.get_current_player().get_other()
            };
            match ahead {
                Player::Red => (WORST, red_h),
                Player::Black => (WORST, black_h),
            }
        },
    }
}

/// The position from which game number `child_num` starts: Black moves
/// first in the games with an odd number, Red in the others.
pub open spec fn first_position(child_num: u32) -> Position {
    if child_num % 2 == 0 {
        Position::start().pass()
    } else {
        Position::start()
    }
}

/// The weights that play for `side`.
pub open spec fn weights_for(red: Weights, black: Weights, side: Player) -> Weights {
    match side {
        Player::Red => red,
        Player::Black => black,
    }
}

/// Whether the search with the weights `w` may choose move number `m` on
/// `pos`: the only move where there is just one, and otherwise a move that
/// deepening arrives at.
pub open spec fn may_choose(w: Weights, pos: Position, m: usize) -> bool {
    &&& m < pos.moves().len()
    &&& pos.moves().len() == 1 ==> m == 0
    &&& pos.moves().len() != 1 ==> found_by_deepening(w, pos, m)
}

/// The position that the moves with the numbers `line`, played one after
/// another from `from`, lead to.
pub open spec fn played(from: Position, line: Seq<usize>) -> Position
    decreases line.len(),
{
    if line.len() == 0 {
        from
    } else {
        played(from, line.drop_last()).play(line.last() as int)
    }
}

/// The progress of a game in which those moves have been played.
pub open spec fn counted(from: Position, line: Seq<usize>) -> Progress
    decreases line.len(),
{
    if line.len() == 0 {
        Progress { red_counter: 0, black_counter: 0, time_since_last_jump: 0 }
    } else {
        with_move(counted(from, line.drop_last()), played(from, line.drop_last()), line.last())
    }
}

/// Whether a game between `red` and `black` may go through the moves `line`
/// from `from`: each of them is a move that the search of the side to move
/// may choose on the position it is played on, and after none of them has
/// the game gone more than `QUIET_LIMIT` moves without a capture.
pub open spec fn game_line(red: Weights, black: Weights, from: Position, line: Seq<usize>) -> bool
    decreases line.len(),
{
    line.len() == 0 || {
        let before = played(from, line.drop_last());
        &&& game_line(red, black, from, line.drop_last())
        &&& may_choose(weights_for(red, black, before.mover), before, line.last())
        &&& counted(from, line).time_since_last_jump <= QUIET_LIMIT
    }
}

/// The progress `before` with move number `m` of `pos` counted: a move of
/// the side to move, and a capture where that move captures.
pub open spec fn with_move(before: Progress, pos: Position, m: usize) -> Progress {
    before.spec_count_move(pos.mover, pos.moves()[m as int].path.len() > 0)
}

/// Whether a game that has come to `pos` with the progress `before` is cut
/// off there: the side to move chooses a move, and once that move is
/// counted the game has gone too long without a capture, or one of its
/// sides has made more moves than some game of its siblings took.
pub open spec fn cut_short(red: Weights, black: Weights, pos: Position, before: Progress) -> bool {
    exists|m: usize, t: u32|
        may_choose(weights_for(red, black, pos.mover), pos, m) && (#[trigger] with_move(
            before,
            pos,
            m,
        ).spec_cut_off(t))
}

/// Whether game number `child_num` between `red` and `black` may go through
/// the moves `line` and end there with `fitness`, going to the weights
/// `won`. It ends where the side to move has no move, and then its fitness
/// is the number of moves that the winner has made; or it is cut off, and
/// then its fitness is the worst there is and it goes to the side with more
/// pieces, the side that waits where they are level.
pub open spec fn ends_with(
    red: Weights,
    black: Weights,
    child_num: u32,
    line: Seq<usize>,
    fitness: u32,
    won: Weights,
) -> bool {
    let first = first_position(child_num);
    let pos = played(first, line);
    let progress = counted(first, line);
    &&& game_line(red, black, first, line)
    &&& pos.winner() is Some || cut_short(red, black, pos, progress)
    &&& fitness == fitness_of(pos, progress.red_counter, progress.black_counter)
    &&& won == weights_for(red, black, side_ahead(pos))
}

/// A game between `red_h` and `black_h`. Black moves first in the games with
/// an odd number, Red in the others. Each side plays the move that its
/// search finds in `TIME_LIMIT` seconds. The game is cut off when it has
/// gone too long without a capture, or when it can no longer beat the best
/// game of its siblings, which `time_to_beat` holds. It fails only where
/// the clock cannot be read or the lock is poisoned.
pub fn game_loop(
    red_h: Heuristic,
    black_h: Heuristic,
    child_num: u32,
    time_to_beat: &Arc<RwLock<u32>>,
) -> (r: Result<GameResult, TunerError>)
    ensures
        match r {
            Ok((fitness, h)) => (fitness == WORST || fitness <= LONGEST_GAME) && exists|
                line: Seq<usize>,
            | #[trigger] ends_with(red_h@, black_h@, child_num, line, fitness, h@),
            Err(_) => true,
        },
{
    let mut b = Board::default();
    if child_num % 2 == 0 {
        b.swap_current_player();
    }
    let mut progress = Progress::new();
    let ghost first = first_position(child_num);
    let ghost mut line: Seq<usize> = Seq::empty();
    proof {
        lemma_occupied_at_most(b@.grid, 64);
    }
    while b.is_game_over().is_none()
        invariant_except_break
            progress.time_since_last_jump <= QUIET_LIMIT,
            progress.red_counter + progress.black_counter + 52 * material(b@.grid) + (51
                - progress.time_since_last_jump) <= 52 * 64 + 51,
            progress == counted(first, line),
        invariant
            b.wf(),
            progress.red_counter <= LONGEST_GAME,
            progress.black_counter <= LONGEST_GAME,
            first == first_position(child_num),
            b@ == played(first, line),
            game_line(red_h@, black_h@, first, line),
        ensures
            b@.winner() is Some ==> progress == counted(first, line),
            b@.winner() is Some || cut_short(red_h@, black_h@, b@, counted(first, line)),
        decreases 52 * 64 + 51 - (progress.red_counter + progress.black_counter),
    {
        proof {
            b.lemma_view_wf();
        }
        let mover = b.get_current_player();
        let h = match mover {
            Player::Red => red_h.clone(),
            Player::Black => black_h.clone(),
        };
        let m = match predict_move(b.clone(), TIME_LIMIT, Some(h)) {
            Ok(m) => m,
            Err(_) => {
                return Err(TunerError::ClockUnavailable);
            },
        };
        assert(may_choose(weights_for(red_h@, black_h@, b@.mover), b@, m));
        let moves = b.get_player_info().get_moves();
        let jumps = moves[m].is_jump();
        assert(moves_view(moves@)[m as int] == b@.moves()[m as int]);
        let ghost before = progress;
        progress = progress.count_move(mover, jumps);
        let t = match read_shared(time_to_beat) {
            Some(t) => t,
            None => {
                return Err(TunerError::Poisoned);
            },
        };
        if progress.cut_off(t) {
            assert(with_move(before, b@, m).spec_cut_off(t));
            break ;
        }
        proof {
            lemma_move_and_material(b@.grid, b@.mover, m as int);
            let longer = line.push(m);
            assert(longer.drop_last() =~= line);
            assert(longer.last() == m);
            line = longer;
        }
        b.do_move(m);
    }
    let r = game_result(&b, progress.red_counter, progress.black_counter, red_h, black_h);
    assert(ends_with(red_h@, black_h@, child_num, line, r.0, r.1@));
    Ok(r)
}

/// The game of sibling number `i` of a generation: the baseline `base` plays
/// Red against a mutation of itself, which plays Black.
pub fn sibling(base: &Heuristic, i: u32, time_to_beat: &Arc<RwLock<u32>>) -> (r: Result<
    GameResult,
    TunerError,
>)
    ensures
        match r {
            Ok((fitness, h)) => (fitness == WORST || fitness <= LONGEST_GAME) && exists|
                challenger: Weights,
                line: Seq<usize>,
            |
                is_mutation(base@, challenger) && #[trigger] ends_with(
                    base@,
                    challenger,
                    i,
                    line,
                    fitness,
                    h@,
                ),
            Err(_) => true,
        },
{
    let black_h = base.mutate();
    let red_h = base.clone();
    let ghost challenger = black_h@;
    assert(is_mutation(base@, challenger));
    game_loop(red_h, black_h, i, time_to_beat)
}

/// The best fitness among the first `k` of `results` and the baseline, which
/// has the worst fitness there is.
pub open spec fn best_fitness(results: Seq<GameResult>, k: nat) -> u32
    decreases k,
{
    if k == 0 {
        WORST
    } else if results[k - 1].0 < best_fitness(results, (k - 1) as nat) {
        results[k - 1].0
    } else {
        best_fitness(results, (k - 1) as nat)
    }
}

/// The weights that go on to the next generation: those of the first
/// sibling with the best fitness; those of the baseline where no sibling has
/// a better fitness than the worst there is.
pub open spec fn best_weights(prev: Weights, results: Seq<GameResult>, k: nat) -> Weights
    decreases k,
{
    if k == 0 {
        prev
    } else if results[k - 1].0 < best_fitness(results, (k - 1) as nat) {
        results[k - 1].1@
    } else {
        best_weights(prev, results, (k - 1) as nat)
    }
}

/// The result that a generation ends with: the lowest fitness among the
/// siblings, with the weights that gave it first; the baseline `prev` where
/// no sibling won its game.
pub fn select_best(prev: Heuristic, results: &Vec<GameResult>) -> (r: GameResult)
    ensures
        r.0 == best_fitness(results@, results@.len()),
        r.1@ == best_weights(prev@, results@, results@.len()),
{
    let mut best: GameResult = (WORST, prev);
    let mut i: usize = 0;
    while i < results.len()
        invariant
            i <= results.len(),
            best.0 == best_fitness(results@, i as nat),
            best.1@ == best_weights(prev@, results@, i as nat),
        decreases results.len() - i,
    {
        if beats(results[i].0, best.0) {
            best = (results[i].0, results[i].1.clone());
        }
        i += 1;
    }
    best
}

/// The best fitness is no worse than that of any sibling; where a sibling
/// has it, the weights chosen are those of the first such sibling; and where
/// none has a fitness better than the worst, the baseline is kept.
pub proof fn lemma_select_best(prev: Weights, results: Seq<GameResult>, k: nat)
    requires
        k <= results.len(),
    ensures
        forall|i: int| 0 <= i < k ==> best_fitness(results, k) <= (#[trigger] results[i]).0,
        best_fitness(results, k) == WORST ==> best_weights(prev, results, k) == prev,
        best_fitness(results, k) < WORST ==> exists|j: int|
            0 <= j < k && (#[trigger] results[j]).0 == best_fitness(results, k) && results[j].1@
                == best_weights(prev, results, k) && forall|i: int|
                0 <= i < j ==> (#[trigger] results[i]).0 > best_fitness(results, k),
    decreases k,
{
    if k > 0 {
        lemma_select_best(prev, results, (k - 1) as nat);
        let before = best_fitness(results, (k - 1) as nat);
        if results[k - 1].0 < before {
            assert(results[k - 1].0 == best_fitness(results, k));
        } else if before < WORST {
            let j = choose|j: int|
                0 <= j < k - 1 && (#[trigger] results[j]).0 == before && results[j].1@
                    == best_weights(prev, results, (k - 1) as nat) && forall|i: int|
                    0 <= i < j ==> (#[trigger] results[i]).0 > before;
            assert(results[j].0 == best_fitness(results, k));
        }
    }
}

} // verus!
