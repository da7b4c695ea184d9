//! What the pruning search has to do with plain minimax.

use super::heuristic::{lemma_score_in_range, Weights};
use super::minimax::{alpha_beta, best_upto, better, minimax, scan, ABResult, MAX, MAX_DEPTH, MIN};
use crate::board::rules::Position;
use vstd::prelude::*;

verus! {

/// A window that a search can be asked for: not empty, and within the range
/// of values.
pub open spec fn window_ok(alpha: int, beta: int) -> bool {
    MIN <= alpha < beta <= MAX
}

/// What the answer of a search with a window says of the value by minimax.
/// An answer inside the window is the value, and the search chose as minimax
/// does. An answer at or below the window bounds the value from above, one at
/// or above it bounds the value from below; where the window has no room
/// left on that side, the answer is again that of minimax.
pub open spec fn sound(
    w: Weights,
    pos: Position,
    depth: nat,
    alpha: int,
    beta: int,
    is_max: bool,
) -> bool {
    let r = alpha_beta(w, pos, depth, alpha, beta, is_max);
    let m = minimax(w, pos, depth, is_max);
    &&& MIN <= r.0 <= MAX
    &&& MIN <= m.0 <= MAX
    &&& r.0 <= alpha ==> m.0 <= r.0
    &&& r.0 >= beta ==> m.0 >= r.0
    &&& alpha < r.0 < beta ==> r == m
    &&& r.0 >= beta && beta == MAX ==> r == m
    &&& r.0 <= alpha && alpha == MIN ==> r == m
}

/// The same of a search that has tried the first `k` moves of a node.
pub open spec fn scan_sound(
    w: Weights,
    pos: Position,
    depth: nat,
    alpha: int,
    beta: int,
    is_max: bool,
    k: nat,
) -> bool {
    let s = scan(w, pos, depth, alpha, beta, is_max, k);
    let b = best_upto(w, pos, depth, is_max, k);
    &&& MIN <= s.v <= MAX
    &&& MIN <= b.0 <= MAX
    &&& if is_max {
        if s.pruned {
            &&& s.v >= beta
            &&& b.0 >= s.v
            &&& beta == MAX ==> (s.v, s.mv) == b
        } else {
            &&& s.v < beta
            &&& s.beta == beta
            &&& s.alpha == (if s.v > alpha {
                s.v
            } else {
                alpha
            })
            &&& s.v <= alpha ==> b.0 <= s.v
            &&& s.v > alpha ==> s.v == b.0
            &&& s.v > alpha || alpha == MIN ==> (s.v, s.mv) == b
        }
    } else {
        if s.pruned {
            &&& s.v <= alpha
            &&& b.0 <= s.v
            &&& alpha == MIN ==> (s.v, s.mv) == b
        } else {
            &&& s.v > alpha
            &&& s.alpha == alpha
            &&& s.beta == (if s.v < beta {
                s.v
            } else {
                beta
            })
            &&& s.v >= beta ==> b.0 >= s.v
            &&& s.v < beta ==> s.v == b.0
            &&& s.v < beta || beta == MAX ==> (s.v, s.mv) == b
        }
    }
}

/// Every search with a window is sound.
pub proof fn lemma_search_sound(
    w: Weights,
    pos: Position,
    depth: nat,
    alpha: int,
    beta: int,
    is_max: bool,
)
    requires
        window_ok(alpha, beta),
        depth <= MAX_DEPTH,
    ensures
        sound(w, pos, depth, alpha, beta, is_max),
    decreases depth, 1nat, 0nat,
{
    lemma_score_in_range(w, pos, is_max);
    if pos.moves().len() > 0 && depth > 0 {
        lemma_scan_sound(w, pos, depth, alpha, beta, is_max, pos.moves().len());
    }
}

/// Every search is sound after each of the moves it has tried.
pub proof fn lemma_scan_sound(
    w: Weights,
    pos: Position,
    depth: nat,
    alpha: int,
    beta: int,
    is_max: bool,
    k: nat,
)
    requires
        window_ok(alpha, beta),
        0 < depth <= MAX_DEPTH,
    ensures
        scan_sound(w, pos, depth, alpha, beta, is_max, k),
    decreases depth, 0nat, k,
{
    if k > 0 {
        lemma_scan_sound(w, pos, depth, alpha, beta, is_max, (k - 1) as nat);
        let prev = scan(w, pos, depth, alpha, beta, is_max, (k - 1) as nat);
        if !prev.pruned {
            lemma_search_sound(
                w,
                pos.play(k - 1),
                (depth - 1) as nat,
                prev.alpha,
                prev.beta,
                !is_max,
            );
        } else {
            lemma_search_sound(
                w,
                pos.play(k - 1),
                (depth - 1) as nat,
                MIN as int,
                MAX as int,
                !is_max,
            );
        }
    }
}

/// Alpha-beta is minimax: a search with the whole range of values for its
/// window returns the value that minimax gives, and chooses the move that
/// minimax chooses.
pub proof fn lemma_alpha_beta_is_minimax(w: Weights, pos: Position, depth: nat, is_max: bool)
    requires
        depth <= MAX_DEPTH,
    ensures
        alpha_beta(w, pos, depth, MIN as int, MAX as int, is_max) == minimax(w, pos, depth, is_max),
{
    lemma_search_sound(w, pos, depth, MIN as int, MAX as int, is_max);
}

/// What a search that was not cut short by the clock can say of how it
/// ended: never that the time ran out; and where it chose a move, a move of
/// the position.
pub open spec fn ends_well(s: ABResult, moves: nat) -> bool {
    &&& !(s is TimeLimitExpired)
    &&& match s.spec_choice() {
        Some(i) => i < moves,
        None => true,
    }
}

/// A search with a window that the clock leaves alone ends well. At a node
/// with moves left to look ahead from, it either found no move better than
/// none or chose one.
pub proof fn lemma_search_ends(
    w: Weights,
    pos: Position,
    depth: nat,
    alpha: int,
    beta: int,
    is_max: bool,
)
    requires
        pos.moves().len() <= usize::MAX,
    ensures
        ends_well(alpha_beta(w, pos, depth, alpha, beta, is_max).1, pos.moves().len()),
        pos.moves().len() > 0 && depth > 0 ==> {
            let s = alpha_beta(w, pos, depth, alpha, beta, is_max).1;
            s is Initial || s.spec_choice() is Some
        },
    decreases depth, 1nat, 0nat,
{
    if pos.moves().len() > 0 && depth > 0 {
        lemma_scan_ends(w, pos, depth, alpha, beta, is_max, pos.moves().len());
    }
}

/// The same of a search that has tried the first `k` moves of a node.
pub proof fn lemma_scan_ends(
    w: Weights,
    pos: Position,
    depth: nat,
    alpha: int,
    beta: int,
    is_max: bool,
    k: nat,
)
    requires
        k <= pos.moves().len() <= usize::MAX,
        depth > 0,
    ensures
        ends_well(scan(w, pos, depth, alpha, beta, is_max, k).mv, k),
        ({
            let s = scan(w, pos, depth, alpha, beta, is_max, k).mv;
            s is Initial || s.spec_choice() is Some
        }),
    decreases depth, 0nat, k,
{
    if k > 0 {
        lemma_scan_ends(w, pos, depth, alpha, beta, is_max, (k - 1) as nat);
        let prev = scan(w, pos, depth, alpha, beta, is_max, (k - 1) as nat);
        if !prev.pruned {
            let child = pos.play(k - 1);
            lemma_child_never_expires(w, child, (depth - 1) as nat, prev.alpha, prev.beta, !is_max);
        }
    }
}

/// No search that the clock leaves alone says that the time ran out.
pub proof fn lemma_child_never_expires(
    w: Weights,
    pos: Position,
    depth: nat,
    alpha: int,
    beta: int,
    is_max: bool,
)
    ensures
        !(alpha_beta(w, pos, depth, alpha, beta, is_max).1 is TimeLimitExpired),
    decreases depth, 1nat, 0nat,
{
    if pos.moves().len() > 0 && depth > 0 {
        lemma_scan_never_expires(w, pos, depth, alpha, beta, is_max, pos.moves().len());
    }
}

/// Nor does one that has tried the first `k` moves of a node.
proof fn lemma_scan_never_expires(
    w: Weights,
    pos: Position,
    depth: nat,
    alpha: int,
    beta: int,
    is_max: bool,
    k: nat,
)
    requires
        depth > 0,
    ensures
        !(scan(w, pos, depth, alpha, beta, is_max, k).mv is TimeLimitExpired),
    decreases depth, 0nat, k,
{
    if k > 0 {
        lemma_scan_never_expires(w, pos, depth, alpha, beta, is_max, (k - 1) as nat);
        let prev = scan(w, pos, depth, alpha, beta, is_max, (k - 1) as nat);
        if !prev.pruned {
            lemma_child_never_expires(w, pos.play(k - 1), (depth - 1) as nat, prev.alpha, prev.beta, !is_max);
        }
    }
}

/// Once the value has left the window, trying more moves changes nothing.
pub proof fn lemma_pruned_stays(
    w: Weights,
    pos: Position,
    depth: nat,
    alpha: int,
    beta: int,
    is_max: bool,
    k: nat,
    n: nat,
)
    requires
        k <= n,
        scan(w, pos, depth, alpha, beta, is_max, k).pruned,
    ensures
        scan(w, pos, depth, alpha, beta, is_max, n) == scan(w, pos, depth, alpha, beta, is_max, k),
    decreases n,
{
    if k < n {
        lemma_pruned_stays(w, pos, depth, alpha, beta, is_max, k, (n - 1) as nat);
    }
}

} // verus!
