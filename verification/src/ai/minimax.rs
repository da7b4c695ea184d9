//! The value of a position by looking ahead: plain minimax, and the search
//! with a window that prunes.

use super::heuristic::{score, Weights};
use crate::board::rules::Position;
use vstd::prelude::*;

verus! {

/// The greatest value of a position.
pub const MAX: i32 = 0x7fff_ffff;

/// The least value of a position: the negative of the greatest.
pub const MIN: i32 = -0x7fff_ffff;

/// The deepest that a search may be asked to look.
pub const MAX_DEPTH: u32 = 0x7fff_ffff;

/// How a search ended, and with which move where it chose one.
#[derive(Debug, Copy, Clone, PartialEq, Eq, Structural)]
pub enum ABResult {
    /// The time ran out before the search was done.
    TimeLimitExpired,
    /// The line of play that gave the value ends where the depth ran out.
    DepthReached(Option<usize>),
    /// The line of play that gave the value ends where the game does.
    Finished(Option<usize>),
    /// No move was better than no move at all.
    Initial,
}

impl ABResult {
    /// The same ending, reached through move number `val`.
    pub open spec fn spec_set(self, val: usize) -> ABResult {
        match self {
            ABResult::DepthReached(_) => ABResult::DepthReached(Some(val)),
            ABResult::Finished(_) => ABResult::Finished(Some(val)),
            other => other,
        }
    }

    /// The same ending, reached through move number `val`.
    #[verifier::when_used_as_spec(spec_set)]
    pub fn set(self, val: usize) -> (r: ABResult)
        ensures
            r == self.spec_set(val),
    {
        match self {
            ABResult::DepthReached(_) => ABResult::DepthReached(Some(val)),
            ABResult::Finished(_) => ABResult::Finished(Some(val)),
            other => other,
        }
    }

    /// The move that the search chose, where it chose one.
    pub open spec fn spec_choice(self) -> Option<usize> {
        match self {
            ABResult::DepthReached(c) => c,
            ABResult::Finished(c) => c,
            _ => None,
        }
    }

    /// The move that the search chose, where it chose one.
    #[verifier::when_used_as_spec(spec_choice)]
    pub fn choice(self) -> (r: Option<usize>)
        ensures
            r == self.spec_choice(),
    {
        match self {
            ABResult::DepthReached(c) => c,
            ABResult::Finished(c) => c,
            _ => None,
        }
    }
}

/// What a position without a legal move is worth with `depth` plies still to
/// look ahead: the side to move has lost, and the sooner the more so. `is_max`
/// says whether the side to move is the side that the search chooses for.
pub open spec fn terminal_value(depth: nat, is_max: bool) -> int {
    if is_max {
        -(MAX - depth)
    } else {
        MAX - depth
    }
}

/// Whether value `a` is better than `b` for the side that moves at a node.
pub open spec fn better(is_max: bool, a: int, b: int) -> bool {
    if is_max {
        a > b
    } else {
        a < b
    }
}

/// The value from which a node starts: the worst for the side that moves.
pub open spec fn worst(is_max: bool) -> int {
    if is_max {
        MIN as int
    } else {
        MAX as int
    }
}

/// The value of `pos` by minimax to `depth` plies, with the way the line of
/// play ends that gives it. A move is chosen only if it is better than the
/// worst value, and among equals the first is chosen.
pub open spec fn minimax(w: Weights, pos: Position, depth: nat, is_max: bool) -> (int, ABResult)
    decreases depth, 1nat, 0nat,
{
    if pos.moves().len() == 0 {
        (terminal_value(depth, is_max), ABResult::Finished(None))
    } else if depth == 0 {
        (score(w, pos, is_max), ABResult::DepthReached(None))
    } else {
        best_upto(w, pos, depth, is_max, pos.moves().len())
    }
}

/// The best among the first `k` moves of `pos`, by minimax.
pub open spec fn best_upto(w: Weights, pos: Position, depth: nat, is_max: bool, k: nat) -> (
    int,
    ABResult,
)
    decreases depth, 0nat, k,
{
    if k == 0 || depth == 0 {
        (worst(is_max), ABResult::Initial)
    } else {
        let prev = best_upto(w, pos, depth, is_max, (k - 1) as nat);
        let child = minimax(w, pos.play(k - 1), (depth - 1) as nat, !is_max);
        if better(is_max, child.0, prev.0) {
            (child.0, child.1.spec_set((k - 1) as usize))
        } else {
            prev
        }
    }
}

/// The state of a search at a node between two of its moves.
pub struct Scan {
    /// The best value so far.
    pub v: int,
    /// How the line of play ends that gave it.
    pub mv: ABResult,
    /// The window, as narrowed so far.
    pub alpha: int,
    pub beta: int,
    /// Whether the value has left the window, so that no more moves are tried.
    pub pruned: bool,
}

/// The value that a search of `pos` to `depth` plies with the window from
/// `alpha` to `beta` returns when no time limit cuts it short, with the way
/// the line of play ends that gave it.
pub open spec fn alpha_beta(
    w: Weights,
    pos: Position,
    depth: nat,
    alpha: int,
    beta: int,
    is_max: bool,
) -> (int, ABResult)
    decreases depth, 1nat, 0nat,
{
    if pos.moves().len() == 0 {
        (terminal_value(depth, is_max), ABResult::Finished(None))
    } else if depth == 0 {
        (score(w, pos, is_max), ABResult::DepthReached(None))
    } else {
        let s = scan(w, pos, depth, alpha, beta, is_max, pos.moves().len());
        (s.v, s.mv)
    }
}

/// The state of that search after the first `k` moves of `pos`. Each move is
/// searched with the window as narrowed so far. A value that is better
/// replaces the best so far, and narrows the window on the side of the
/// player who moves; an equal value changes nothing. Once the best value has
/// reached the far side of the window, no further move is tried.
pub open spec fn scan(
    w: Weights,
    pos: Position,
    depth: nat,
    alpha: int,
    beta: int,
    is_max: bool,
    k: nat,
) -> Scan
    decreases depth, 0nat, k,
{
    if k == 0 || depth == 0 {
        Scan { v: worst(is_max), mv: ABResult::Initial, alpha: alpha, beta: beta, pruned: false }
    } else {
        let prev = scan(w, pos, depth, alpha, beta, is_max, (k - 1) as nat);
        if prev.pruned {
            prev
        } else {
            let child = alpha_beta(
                w,
                pos.play(k - 1),
                (depth - 1) as nat,
                prev.alpha,
                prev.beta,
                !is_max,
            );
            let gain = better(is_max, child.0, prev.v);
            let v = if gain {
                child.0
            } else {
                prev.v
            };
            Scan {
                v: v,
                mv: if gain {
                    child.1.spec_set((k - 1) as usize)
                } else {
                    prev.mv
                },
                alpha: if is_max && gain && v > prev.alpha {
                    v
                } else {
                    prev.alpha
                },
                beta: if !is_max && gain && v < prev.beta {
                    v
                } else {
                    prev.beta
                },
                pruned: if is_max {
                    v >= beta
                } else {
                    v <= alpha
                },
            }
        }
    }
}

} // verus!
