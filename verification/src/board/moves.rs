//! A move as the board hands it out.

use super::piece::Cord;
use super::rules::{MovesView, Sq};
use vstd::prelude::*;

verus! {

/// The square that `c` names.
pub open spec fn sq(c: Cord) -> Sq {
    (c.0 as int, c.1 as int)
}

/// The squares that `s` names, in order.
pub open spec fn sqs(s: Seq<Cord>) -> Seq<Sq> {
    Seq::new(s.len(), |i: int| sq(s[i]))
}

/// The moves that `s` holds, in order.
pub open spec fn moves_view(s: Seq<Moves>) -> Seq<MovesView> {
    Seq::new(s.len(), |i: int| s[i]@)
}

/// A list of squares holds a square exactly where the list of their names
/// holds its name.
pub proof fn lemma_sqs_contains(s: Seq<Cord>, c: Cord)
    ensures
        sqs(s).contains(sq(c)) <==> s.contains(c),
{
    if s.contains(c) {
        let i = choose|i: int| 0 <= i < s.len() && s[i] == c;
        assert(sqs(s)[i] == sq(c));
    }
}

/// A copy of `v`.
pub fn copy_cords(v: &Vec<Cord>) -> (r: Vec<Cord>)
    ensures
        r@ == v@,
{
    let mut r: Vec<Cord> = Vec::new();
    let mut i: usize = 0;
    while i < v.len()
        invariant
            i <= v.len(),
            r@ == v@.take(i as int),
        decreases v.len() - i,
    {
        r.push(v[i]);
        i += 1;
    }
    r
}

/// A move: the square a piece starts from, the square it ends on and the
/// squares of the pieces it captures, in the order of capture.
#[derive(Debug)]
pub struct Moves {
    jump_path: Vec<Cord>,
    start_loc: Cord,
    end_loc: Cord,
}

impl View for Moves {
    type V = MovesView;

    closed spec fn view(&self) -> MovesView {
        MovesView { start: sq(self.start_loc), end: sq(self.end_loc), path: sqs(self.jump_path@) }
    }
}

impl Clone for Moves {
    fn clone(&self) -> (r: Self)
        ensures
            r@ == self@,
    {
        Moves {
            jump_path: copy_cords(&self.jump_path),
            start_loc: self.start_loc,
            end_loc: self.end_loc,
        }
    }
}

impl Moves {
    /// A move that names no square of the board and captures nothing.
    pub fn new_empty() -> (r: Self)
        ensures
            r@ == (MovesView { start: (9, 9), end: (9, 9), path: Seq::empty() }),
    {
        let r = Moves { start_loc: (9, 9), end_loc: (9, 9), jump_path: Vec::new() };
        assert(r@.path =~= Seq::empty());
        r
    }

    /// The move from `start` to `end` that captures nothing.
    pub fn new(start: Cord, end: Cord) -> (r: Self)
        ensures
            r@ == (MovesView { start: sq(start), end: sq(end), path: Seq::empty() }),
    {
        let r = Moves { start_loc: start, end_loc: end, jump_path: Vec::new() };
        assert(r@.path =~= Seq::empty());
        r
    }

    /// Whether the move captures.
    pub fn is_jump(&self) -> (r: bool)
        ensures
            r == (self@.path.len() > 0),
    {
        self.jump_path.len() > 0
    }

    /// The square that the piece starts from.
    pub fn start_loc(&self) -> (r: Cord)
        ensures
            sq(r) == self@.start,
    {
        self.start_loc
    }

    /// The square that the piece ends on.
    pub fn end_loc(&self) -> (r: Cord)
        ensures
            sq(r) == self@.end,
    {
        self.end_loc
    }

    /// The captured squares, in the order of capture.
    pub fn jump_path(&self) -> (r: &Vec<Cord>)
        ensures
            sqs(r@) == self@.path,
    {
        &self.jump_path
    }

    /// Whether the move captures the piece on `c`.
    pub fn captures(&self, c: Cord) -> (r: bool)
        ensures
            r == self@.path.contains(sq(c)),
    {
        let mut i: usize = 0;
        while i < self.jump_path.len()
            invariant
                i <= self.jump_path.len(),
                forall|k: int| 0 <= k < i ==> self.jump_path@[k] != c,
            decreases self.jump_path.len() - i,
        {
            let e = self.jump_path[i];
            if e.0 == c.0 && e.1 == c.1 {
                proof {
                    lemma_sqs_contains(self.jump_path@, c);
                }
                return true;
            }
            i += 1;
        }
        proof {
            lemma_sqs_contains(self.jump_path@, c);
        }
        false
    }

    /// The same chain with the capture of the piece on `c` added.
    pub fn with_capture(&self, c: Cord) -> (r: Self)
        ensures
            r@ == (MovesView { start: self@.start, end: self@.end, path: self@.path.push(sq(c)) }),
    {
        let mut path = copy_cords(&self.jump_path);
        path.push(c);
        let r = Moves { jump_path: path, start_loc: self.start_loc, end_loc: self.end_loc };
        assert(r@.path =~= self@.path.push(sq(c)));
        r
    }

    /// The same move, ending on `end`.
    pub fn ending_on(self, end: Cord) -> (r: Self)
        ensures
            r@ == (MovesView { start: self@.start, end: sq(end), path: self@.path }),
    {
        Moves { jump_path: self.jump_path, start_loc: self.start_loc, end_loc: end }
    }
}

} // verus!
