//! The search for a move: alpha-beta to a fixed depth, and deepening until
//! the time is up.

use super::clock::{Deadline, SearchError};
use super::heuristic::{default_weights, score, Heuristic, Weights};
use super::laws::{lemma_child_never_expires, lemma_pruned_stays, lemma_search_ends};
use super::minimax::{alpha_beta, scan, terminal_value, ABResult, Scan, MAX, MAX_DEPTH, MIN};
use crate::board::rules::Position;
use crate::board::Board;
use vstd::prelude::*;

verus! {

/// Whether a search at `state` ends without looking further, and with what:
/// with nothing usable where the time has `expired`; with the value of a lost
/// game where the side to move has no move; with the score of `state` where
/// no depth is left.
pub fn is_terminal(state: &Board, depth: u32, expired: bool, is_max: bool, h_s: &Heuristic) -> (r:
    Result<(i32, ABResult), ()>)
    requires
        state.wf(),
        depth <= MAX_DEPTH,
    ensures
        r == (if expired {
            Ok::<(i32, ABResult), ()>((0i32, ABResult::TimeLimitExpired))
        } else if state@.moves().len() == 0 {
            Ok((terminal_value(depth as nat, is_max) as i32, ABResult::Finished(None)))
        } else if depth == 0 {
            Ok((score(h_s@, state@, is_max) as i32, ABResult::DepthReached(None)))
        } else {
            Err(())
        }),
        !expired && state@.moves().len() == 0 ==> MIN <= terminal_value(depth as nat, is_max)
            <= MAX,
{
    if expired {
        return Ok((0, ABResult::TimeLimitExpired));
    }
    if let Some(winner) = state.is_game_over() {
        if (winner == state.get_current_player() && is_max) || (winner
            != state.get_current_player() && !is_max) {
            return Ok((MAX - depth as i32, ABResult::Finished(None)));
        }
        return Ok((MIN + depth as i32, ABResult::Finished(None)));
    }
    if depth == 0 {
        return Ok((h_s.h(state, is_max), ABResult::DepthReached(None)));
    }
    Err(())
}

/// What a search may answer where `want` is what it finds when the clock
/// leaves it alone: that, or, where there is a deadline, that the time ran
/// out or that the clock could not be read.
pub open spec fn answers(
    r: Result<(i32, ABResult), SearchError>,
    want: (int, ABResult),
    deadline: Deadline,
) -> bool {
    match r {
        Ok((v, s)) => (v == want.0 && s == want.1) || (s is TimeLimitExpired && !(deadline
            is Never)),
        Err(_) => !(deadline is Never),
    }
}

/// The value of `state` for the side to move, which the search chooses for,
/// looking `depth` plies ahead with the window from `alpha` to `beta`.
pub fn max_value(
    state: &Board,
    depth: u32,
    alpha: i32,
    beta: i32,
    deadline: &Deadline,
    h_s: &Heuristic,
) -> (r: Result<(i32, ABResult), SearchError>)
    requires
        state.wf(),
        depth <= MAX_DEPTH,
    ensures
        answers(r, alpha_beta(h_s@, state@, depth as nat, alpha as int, beta as int, true), *deadline),
    decreases depth,
{
    let expired = match deadline.expired() {
        Ok(e) => e,
        Err(e) => {
            return Err(e);
        },
    };
    match is_terminal(state, depth, expired, true, h_s) {
        Ok(r) => {
            return Ok(r);
        },
        Err(_) => {},
    };
    let ghost w = h_s@;
    let ghost pos = state@;
    let n = state.get_player_info().get_moves().len();
    let mut v = MIN;
    let mut mv = ABResult::Initial;
    let mut a = alpha;
    let mut p_mv: usize = 0;
    while p_mv < n
        invariant
            p_mv <= n,
            n == pos.moves().len(),
            state.wf(),
            pos == state@,
            w == h_s@,
            0 < depth <= MAX_DEPTH,
            scan(w, pos, depth as nat, alpha as int, beta as int, true, p_mv as nat) == (Scan {
                v: v as int,
                mv: mv,
                alpha: a as int,
                beta: beta as int,
                pruned: false,
            }),
        decreases n - p_mv,
    {
        let mut new_state = state.clone();
        new_state.do_move(p_mv);
        let (v2, t_move) = match min_value(&new_state, depth - 1, a, beta, deadline, h_s) {
            Ok(r) => r,
            Err(e) => {
                return Err(e);
            },
        };
        proof {
            lemma_child_never_expires(
                w,
                pos.play(p_mv as int),
                (depth - 1) as nat,
                a as int,
                beta as int,
                false,
            );
        }
        if v2 > v {
            v = v2;
            mv = t_move.set(p_mv);
            if v > a {
                a = v;
            }
        }
        if let ABResult::TimeLimitExpired = t_move {
            return Ok((v, t_move));
        }
        if v >= beta {
            proof {
                lemma_pruned_stays(
                    w,
                    pos,
                    depth as nat,
                    alpha as int,
                    beta as int,
                    true,
                    (p_mv + 1) as nat,
                    n as nat,
                );
            }
            return Ok((v, mv));
        }
        p_mv += 1;
    }
    Ok((v, mv))
}

/// The value of `state` for the side that the search chooses for, with the
/// other side to move, looking `depth` plies ahead with the window from
/// `alpha` to `beta`.
pub fn min_value(
    state: &Board,
    depth: u32,
    alpha: i32,
    beta: i32,
    deadline: &Deadline,
    h_s: &Heuristic,
) -> (r: Result<(i32, ABResult), SearchError>)
    requires
        state.wf(),
        depth <= MAX_DEPTH,
    ensures
        answers(
            r,
            alpha_beta(h_s@, state@, depth as nat, alpha as int, beta as int, false),
            *deadline,
        ),
    decreases depth,
{
    let expired = match deadline.expired() {
        Ok(e) => e,
        Err(e) => {
            return Err(e);
        },
    };
    match is_terminal(state, depth, expired, false, h_s) {
        Ok(r) => {
            return Ok(r);
        },
        Err(_) => {},
    };
    let ghost w = h_s@;
    let ghost pos = state@;
    let n = state.get_player_info().get_moves().len();
    let mut v = MAX;
    let mut mv = ABResult::Initial;
    let mut b = beta;
    let mut p_mv: usize = 0;
    while p_mv < n
        invariant
            p_mv <= n,
            n == pos.moves().len(),
            state.wf(),
            pos == state@,
            w == h_s@,
            0 < depth <= MAX_DEPTH,
            scan(w, pos, depth as nat, alpha as int, beta as int, false, p_mv as nat) == (Scan {
                v: v as int,
                mv: mv,
                alpha: alpha as int,
                beta: b as int,
                pruned: false,
            }),
        decreases n - p_mv,
    {
        let mut new_state = state.clone();
        new_state.do_move(p_mv);
        let (v2, t_move) = match max_value(&new_state, depth - 1, alpha, b, deadline, h_s) {
            Ok(r) => r,
            Err(e) => {
                return Err(e);
            },
        };
        proof {
            lemma_child_never_expires(
                w,
                pos.play(p_mv as int),
                (depth - 1) as nat,
                alpha as int,
                b as int,
                true,
            );
        }
        if v2 < v {
            v = v2;
            mv = t_move.set(p_mv);
            if v < b {
                b = v;
            }
        }
        if let ABResult::TimeLimitExpired = t_move {
            return Ok((v, t_move));
        }
        if v <= alpha {
            proof {
                lemma_pruned_stays(
                    w,
                    pos,
                    depth as nat,
                    alpha as int,
                    beta as int,
                    false,
                    (p_mv + 1) as nat,
                    n as nat,
                );
            }
            return Ok((v, mv));
        }
        p_mv += 1;
    }
    Ok((v, mv))
}

/// What the deepening search does after one depth.
#[derive(Debug, Copy, Clone, PartialEq, Eq, Structural)]
pub enum Step {
    /// It stops, and plays this move.
    Stop(usize),
    /// It looks one ply deeper, and remembers this move.
    Deepen(usize),
}

/// What follows from the `outcome` of the search at one depth, with `mv` the
/// move remembered from the depths before. A line of play that ends with the
/// game settles the move. A search that reached its depth is remembered and
/// deepened. A search that ran out of time leaves the move of the last depth
/// that was completed. A search that found no move better than none is
/// deepened from the first move, unless the time is up by now (`expired`).
pub open spec fn spec_settle(outcome: ABResult, expired: bool, mv: usize) -> Step {
    match outcome {
        ABResult::Finished(Some(i)) => Step::Stop(i),
        ABResult::DepthReached(Some(i)) => Step::Deepen(i),
        ABResult::TimeLimitExpired => Step::Stop(mv),
        ABResult::Initial => if expired {
            Step::Stop(mv)
        } else {
            Step::Deepen(0)
        },
        _ => Step::Stop(mv),
    }
}

/// What follows from the `outcome` of the search at one depth. The search of
/// a position with moves, to a depth of at least one, never ends without
/// either a move or one of the other outcomes.
pub fn settle(outcome: ABResult, expired: bool, mv: usize) -> (r: Step)
    requires
        outcome != ABResult::Finished(None),
        outcome != ABResult::DepthReached(None),
    ensures
        r == spec_settle(outcome, expired, mv),
{
    match outcome {
        ABResult::Finished(Some(i)) => Step::Stop(i),
        ABResult::DepthReached(Some(i)) => Step::Deepen(i),
        ABResult::TimeLimitExpired => Step::Stop(mv),
        ABResult::Initial => {
            if expired {
                Step::Stop(mv)
            } else {
                Step::Deepen(0)
            }
        },
        _ => Step::Stop(mv),
    }
}

/// The weights that a search uses: those given, or else the default ones.
pub open spec fn weights_of(h_s_param: Option<Heuristic>) -> Weights {
    match h_s_param {
        Some(h) => h@,
        None => default_weights(),
    }
}

/// The time that a search may take, in milliseconds, for a limit of
/// `time_limit` seconds: a tenth of a second is kept back.
pub open spec fn budget(time_limit: u32) -> int {
    if time_limit * 1000 >= 100 {
        time_limit * 1000 - 100
    } else {
        0
    }
}

/// The time that a search may take, in milliseconds, for a limit of
/// `time_limit` seconds.
pub fn budget_of(time_limit: u32) -> (r: u128)
    ensures
        r == budget(time_limit),
{
    let wide: u128 = time_limit as u128 * 1000;
    if wide >= 100 {
        wide - 100
    } else {
        0
    }
}

/// The move that a step names.
pub open spec fn move_of(s: Step) -> usize {
    match s {
        Step::Stop(i) => i,
        Step::Deepen(i) => i,
    }
}

/// Where the deepening search stands once the searches to the depths from 1
/// to `n` have each been completed in time, or one of them has settled the
/// move: it starts from the first move, and each depth settles what comes
/// next from what the search to that depth found.
pub open spec fn after_depths(w: Weights, pos: Position, n: nat) -> Step
    decreases n,
{
    if n == 0 {
        Step::Deepen(0)
    } else {
        match after_depths(w, pos, (n - 1) as nat) {
            Step::Stop(i) => Step::Stop(i),
            Step::Deepen(mv) => spec_settle(
                alpha_beta(w, pos, n, MIN as int, MAX as int, true).1,
                false,
                mv,
            ),
        }
    }
}

/// Once the move is settled, further depths change nothing.
pub proof fn lemma_settled_stays(w: Weights, pos: Position, k: nat, n: nat)
    requires
        k <= n,
        after_depths(w, pos, k) is Stop,
    ensures
        after_depths(w, pos, n) == after_depths(w, pos, k),
    decreases n,
{
    if k < n {
        lemma_settled_stays(w, pos, k, (n - 1) as nat);
    }
}

/// `i` is the move that the deepening search has arrived at after some
/// number of depths.
pub open spec fn found_by_deepening(w: Weights, pos: Position, i: usize) -> bool {
    exists|n: nat| n < MAX_DEPTH && i == move_of(#[trigger] after_depths(w, pos, n))
}

/// The move to play on `b`, found by searches of growing depth until the
/// `deadline`: the move that the last search completed in time has chosen,
/// or the first move where none was completed or where the last one found
/// no move better than none; and at once the move of a search whose line of
/// play ends with the game. Without a deadline the searches go on until one
/// of them settles the move, or to the greatest depth.
pub fn deepen(b: &Board, deadline: &Deadline, h_s: &Heuristic) -> (r: Result<usize, SearchError>)
    requires
        b.wf(),
        b@.moves().len() > 0,
    ensures
        match r {
            Ok(i) => i < b@.moves().len() && found_by_deepening(h_s@, b@, i),
            Err(_) => !(deadline is Never),
        },
        deadline is Never ==> r == Ok::<usize, SearchError>(
            move_of(after_depths(h_s@, b@, (MAX_DEPTH - 1) as nat)),
        ),
{
    let n = b.get_player_info().get_moves().len();
    let ghost w = h_s@;
    let ghost pos = b@;
    let mut d: u32 = 1;
    let mut mv: usize = 0;
    while d < MAX_DEPTH
        invariant
            1 <= d <= MAX_DEPTH,
            b.wf(),
            pos == b@,
            w == h_s@,
            n == pos.moves().len(),
            n > 0,
            mv < n,
            after_depths(w, pos, (d - 1) as nat) == Step::Deepen(mv),
        decreases MAX_DEPTH - d,
    {
        let (_, outcome) = match max_value(b, d, MIN, MAX, deadline, h_s) {
            Ok(r) => r,
            Err(e) => {
                return Err(e);
            },
        };
        proof {
            lemma_search_ends(w, pos, d as nat, MIN as int, MAX as int, true);
        }
        let expired = match outcome {
            ABResult::Initial => match deadline.expired() {
                Ok(e) => e,
                Err(e) => {
                    return Err(e);
                },
            },
            _ => false,
        };
        let step = settle(outcome, expired, mv);
        proof {
            // A depth that was completed settles what comes next as `after_depths`
            // says; one that was not leaves the move of the depth before.
            let completed = !(outcome is TimeLimitExpired || (outcome is Initial && expired));
            if completed && step is Stop {
                lemma_settled_stays(w, pos, d as nat, (MAX_DEPTH - 1) as nat);
            }
        }
        match step {
            Step::Stop(i) => {
                return Ok(i);
            },
            Step::Deepen(i) => {
                mv = i;
            },
        }
        d += 1;
    }
    Ok(mv)
}

/// The move to play on `b`, found within about `time_limit` seconds: the
/// only move where there is just one, and otherwise what deepening until
/// then finds, with the weights given or else the default ones.
pub fn predict_move(b: Board, time_limit: u32, h_s_param: Option<Heuristic>) -> (r: Result<
    usize,
    SearchError,
>)
    requires
        b.wf(),
        b@.moves().len() > 0,
    ensures
        b@.moves().len() == 1 ==> r == Ok::<usize, SearchError>(0),
        match r {
            Ok(i) => i < b@.moves().len() && (b@.moves().len() == 1 || found_by_deepening(
                weights_of(h_s_param),
                b@,
                i,
            )),
            Err(_) => true,
        },
{
    if b.get_player_info().get_moves().len() == 1 {
        return Ok(0);
    }
    let h_s = match h_s_param {
        Some(h) => h,
        None => Heuristic::default_new(),
    };
    let deadline = Deadline::after(budget_of(time_limit));
    deepen(&b, &deadline, &h_s)
}

} // verus!
