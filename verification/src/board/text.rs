//! The text form of a board: eight lines of piece codes, the highest row
//! first, and a ninth line that names the side to move.

use super::piece::{piece_code, BoardPiece, Player};
use super::rules::{Grid, Position};
use super::state::{grid_view, Board, Players};
use vstd::prelude::*;
use vstd::string::*;

verus! {

/// Why a text is not a board.
#[derive(Debug, Copy, Clone, PartialEq, Eq, Structural)]
pub enum ParseError {
    /// The ninth line is not an unsigned decimal number.
    PlayerNotNumber,
    /// The ninth line is a number other than 1 and 2.
    PlayerOutOfRange,
    /// A line names more pieces than a row has squares for them.
    TooManyPieces,
    /// A line holds a character that is no piece code.
    InvalidPiece(char),
}

/// The piece that `c` stands for, if any.
pub open spec fn piece_of_code(c: char) -> Option<BoardPiece> {
    if c == '1' {
        Some(BoardPiece::Black)
    } else if c == '2' {
        Some(BoardPiece::Red)
    } else if c == '3' {
        Some(BoardPiece::KingBlack)
    } else if c == '4' {
        Some(BoardPiece::KingRed)
    } else if c == '0' {
        Some(BoardPiece::Empty)
    } else {
        None
    }
}

/// The character that stands for `p`.
pub open spec fn player_code(p: Player) -> char {
    match p {
        Player::Black => '1',
        Player::Red => '2',
    }
}

/// The first `k` squares of `row`, each as its code and a blank.
pub open spec fn row_text(row: Seq<BoardPiece>, k: nat) -> Seq<char>
    decreases k,
{
    if k == 0 {
        Seq::empty()
    } else {
        row_text(row, (k - 1) as nat).push(piece_code(row[k - 1])).push(' ')
    }
}

/// The `k` highest rows of `g`, the highest first, each closed by a newline.
pub open spec fn rows_text(g: Grid, k: nat) -> Seq<char>
    decreases k,
{
    if k == 0 {
        Seq::empty()
    } else {
        rows_text(g, (k - 1) as nat) + row_text(g[8 - k], 8).push('\n')
    }
}

/// The text form of `pos`.
pub open spec fn board_text(pos: Position) -> Seq<char> {
    rows_text(pos.grid, 8).push(player_code(pos.mover))
}

/// The place of the first newline of `s`; its length where it has none.
pub open spec fn first_newline(s: Seq<char>) -> int
    decreases s.len(),
{
    if s.len() == 0 || s[0] == '\n' {
        0
    } else {
        1 + first_newline(s.drop_first())
    }
}

/// The lines of `s`: what stands between its newlines. A text that ends in
/// a newline ends in an empty line.
pub open spec fn lines_of(s: Seq<char>) -> Seq<Seq<char>>
    decreases s.len(),
{
    let i = first_newline(s);
    if 0 <= i < s.len() {
        seq![s.take(i)] + lines_of(s.skip(i + 1))
    } else {
        seq![s]
    }
}

/// The column of the first piece that line `i` names: the lines take turns.
pub open spec fn first_col(i: int) -> int {
    if i % 2 == 0 {
        1
    } else {
        0
    }
}

/// The row that the first `k` characters of line `i` describe, with the
/// column of the next piece. Blanks and the code of the empty square are
/// passed over; every other code puts its piece on the next column but one.
pub open spec fn place_row(line: Seq<char>, k: nat, i: int) -> Result<
    (Seq<BoardPiece>, int),
    ParseError,
>
    decreases k,
{
    if k == 0 {
        Ok((Seq::new(8, |c: int| BoardPiece::Empty), first_col(i)))
    } else {
        match place_row(line, (k - 1) as nat, i) {
            Err(e) => Err(e),
            Ok((row, col)) => {
                let c = line[k - 1];
                if c == ' ' || c == '0' {
                    Ok((row, col))
                } else if col > 7 {
                    Err(ParseError::TooManyPieces)
                } else {
                    match piece_of_code(c) {
                        None => Err(ParseError::InvalidPiece(c)),
                        Some(p) => Ok((row.update(col, p), col + 2)),
                    }
                }
            },
        }
    }
}

/// The digit that `c` is, if it is one.
pub open spec fn digit_of(c: char) -> Option<int> {
    if c == '0' {
        Some(0)
    } else if c == '1' {
        Some(1)
    } else if c == '2' {
        Some(2)
    } else if c == '3' {
        Some(3)
    } else if c == '4' {
        Some(4)
    } else if c == '5' {
        Some(5)
    } else if c == '6' {
        Some(6)
    } else if c == '7' {
        Some(7)
    } else if c == '8' {
        Some(8)
    } else if c == '9' {
        Some(9)
    } else {
        None
    }
}

/// The number that the first `k` characters of `s` spell in decimal; none
/// where one of them is no digit.
pub open spec fn decimal(s: Seq<char>, k: nat) -> Option<int>
    decreases k,
{
    if k == 0 {
        Some(0)
    } else {
        match (decimal(s, (k - 1) as nat), digit_of(s[k - 1])) {
            (Some(v), Some(d)) => Some(10 * v + d),
            _ => None,
        }
    }
}

/// The number that `s` spells: an optional plus sign, then at least one
/// digit and nothing but digits, with a value that 32 bits can hold.
pub open spec fn number_of(s: Seq<char>) -> Option<int> {
    let body = if s.len() > 0 && s[0] == '+' {
        s.skip(1)
    } else {
        s
    };
    if body.len() == 0 {
        None
    } else {
        match decimal(body, body.len()) {
            Some(v) => if v <= u32::MAX {
                Some(v)
            } else {
                None
            },
            None => None,
        }
    }
}

/// The side to move that the ninth line names: 1 for Black, 2 for Red.
pub open spec fn player_of_line(line: Seq<char>) -> Result<Player, ParseError> {
    match number_of(line) {
        None => Err(ParseError::PlayerNotNumber),
        Some(v) => if v == 1 {
            Ok(Player::Black)
        } else if v == 2 {
            Ok(Player::Red)
        } else {
            Err(ParseError::PlayerOutOfRange)
        },
    }
}

/// What the first `k` lines describe. Line `i` of the first eight describes
/// row `7 - i`; the ninth names the side to move. Rows that no line
/// describes are empty, and Black moves where no line says who does. The
/// first line that cannot be read decides the error.
pub open spec fn parse_lines(lines: Seq<Seq<char>>, k: nat) -> Result<Position, ParseError>
    decreases k,
{
    if k == 0 {
        Ok(
            Position {
                grid: Seq::new(8, |r: int| Seq::new(8, |c: int| BoardPiece::Empty)),
                mover: Player::Black,
            },
        )
    } else {
        match parse_lines(lines, (k - 1) as nat) {
            Err(e) => Err(e),
            Ok(pos) => if k == 9 {
                match player_of_line(lines[8]) {
                    Err(e) => Err(e),
                    Ok(mover) => Ok(Position { grid: pos.grid, mover: mover }),
                }
            } else {
                match place_row(lines[k - 1], lines[k - 1].len(), k - 1) {
                    Err(e) => Err(e),
                    Ok((row, _)) => Ok(
                        Position { grid: pos.grid.update(8 - k, row), mover: pos.mover },
                    ),
                }
            },
        }
    }
}

/// The position that the text `s` describes: its first nine lines are read,
/// and what follows them is not looked at.
pub open spec fn parse_board(s: Seq<char>) -> Result<Position, ParseError> {
    let lines = lines_of(s);
    parse_lines(
        lines,
        if lines.len() < 9 {
            lines.len()
        } else {
            9
        },
    )
}

/// The lines that `v` holds, in order.
pub open spec fn lines_view(v: Seq<Vec<char>>) -> Seq<Seq<char>> {
    Seq::new(v.len(), |i: int| v[i]@)
}

/// The first newline of `t` stands at `n` where none stands before it and
/// one stands there, or `t` ends there.
proof fn lemma_first_newline(t: Seq<char>, n: int)
    requires
        0 <= n <= t.len(),
        forall|k: int| 0 <= k < n ==> t[k] != '\n',
        n == t.len() || t[n] == '\n',
    ensures
        first_newline(t) == n,
    decreases n,
{
    if n > 0 {
        let rest = t.drop_first();
        assert forall|k: int| 0 <= k < n - 1 implies rest[k] != '\n' by {
            assert(rest[k] == t[k + 1]);
        }
        lemma_first_newline(rest, n - 1);
    }
}

/// Once a line cannot be read, reading further lines changes nothing.
proof fn lemma_error_stays(lines: Seq<Seq<char>>, k: nat, n: nat)
    requires
        k <= n,
        parse_lines(lines, k) is Err,
    ensures
        parse_lines(lines, n) == parse_lines(lines, k),
    decreases n,
{
    if k < n {
        lemma_error_stays(lines, k, (n - 1) as nat);
    }
}

/// Once a character of a line cannot be read, the rest of it changes nothing.
proof fn lemma_row_error_stays(line: Seq<char>, k: nat, n: nat, i: int)
    requires
        k <= n,
        place_row(line, k, i) is Err,
    ensures
        place_row(line, n, i) == place_row(line, k, i),
    decreases n,
{
    if k < n {
        lemma_row_error_stays(line, k, (n - 1) as nat, i);
    }
}

/// More digits spell no smaller a number.
proof fn lemma_decimal_grows(s: Seq<char>, k: nat, n: nat)
    requires
        k <= n,
        decimal(s, k) is Some,
    ensures
        decimal(s, n) is Some ==> decimal(s, k).unwrap() <= decimal(s, n).unwrap(),
        decimal(s, k).unwrap() >= 0,
    decreases n,
{
    if k < n {
        lemma_decimal_grows(s, k, (n - 1) as nat);
    } else {
        lemma_decimal_nonneg(s, k);
    }
    if k > 0 {
        lemma_decimal_nonneg(s, k);
    }
}

/// No digits spell a number below zero.
proof fn lemma_decimal_nonneg(s: Seq<char>, k: nat)
    ensures
        decimal(s, k) is Some ==> decimal(s, k).unwrap() >= 0,
    decreases k,
{
    if k > 0 {
        lemma_decimal_nonneg(s, (k - 1) as nat);
    }
}

/// The text that stands for `p`.
fn code_str(p: BoardPiece) -> (r: &'static str)
    ensures
        r@ == seq![piece_code(p)],
{
    proof {
        reveal_strlit("0");
        reveal_strlit("1");
        reveal_strlit("2");
        reveal_strlit("3");
        reveal_strlit("4");
    }
    let r = match p {
        BoardPiece::Black => "1",
        BoardPiece::Red => "2",
        BoardPiece::KingBlack => "3",
        BoardPiece::KingRed => "4",
        BoardPiece::Empty => "0",
    };
    r
}

/// The piece that `c` stands for, if any.
pub fn piece_of_char(c: char) -> (r: Option<BoardPiece>)
    ensures
        r == piece_of_code(c),
{
    if c == '1' {
        Some(BoardPiece::Black)
    } else if c == '2' {
        Some(BoardPiece::Red)
    } else if c == '3' {
        Some(BoardPiece::KingBlack)
    } else if c == '4' {
        Some(BoardPiece::KingRed)
    } else if c == '0' {
        Some(BoardPiece::Empty)
    } else {
        None
    }
}

impl vstd::std_specs::convert::TryFromSpecImpl<char> for BoardPiece {
    open spec fn obeys_try_from_spec() -> bool {
        true
    }

    open spec fn try_from_spec(value: char) -> Result<Self, ParseError> {
        match piece_of_code(value) {
            Some(p) => Ok(p),
            None => Err(ParseError::InvalidPiece(value)),
        }
    }
}

impl TryFrom<char> for BoardPiece {
    type Error = ParseError;

    /// The piece that `value` stands for; an error where it stands for none.
    fn try_from(value: char) -> (r: Result<Self, ParseError>)
        ensures
            r == (match piece_of_code(value) {
                Some(p) => Ok::<BoardPiece, ParseError>(p),
                None => Err(ParseError::InvalidPiece(value)),
            }),
    {
        match piece_of_char(value) {
            Some(p) => Ok(p),
            None => Err(ParseError::InvalidPiece(value)),
        }
    }
}

/// The digit that `c` is, if it is one.
fn digit_of_char(c: char) -> (r: Option<u64>)
    ensures
        match digit_of(c) {
            Some(d) => r == Some(d as u64) && 0 <= d <= 9,
            None => r is None,
        },
{
    if c == '0' {
        Some(0)
    } else if c == '1' {
        Some(1)
    } else if c == '2' {
        Some(2)
    } else if c == '3' {
        Some(3)
    } else if c == '4' {
        Some(4)
    } else if c == '5' {
        Some(5)
    } else if c == '6' {
        Some(6)
    } else if c == '7' {
        Some(7)
    } else if c == '8' {
        Some(8)
    } else if c == '9' {
        Some(9)
    } else {
        None
    }
}

/// A board, ready to be written out in its text form.
pub struct OutputFileBoard<'a>(&'a Board);

impl<'a> OutputFileBoard<'a> {
    /// The board to be written.
    pub closed spec fn board(&self) -> Board {
        *self.0
    }

    /// The text form of the board.
    pub fn to_text(&self) -> (r: String)
        ensures
            r@ == board_text(self.board()@),
    {
        let grid = self.0.get_board();
        let ghost g = self.0@.grid;
        let mut out = String::new();
        let mut k: usize = 0;
        while k < 8
            invariant
                k <= 8,
                g == grid_view(grid),
                out@ == rows_text(g, k as nat),
            decreases 8 - k,
        {
            let row: usize = 7 - k;
            let ghost base = out@;
            let mut col: usize = 0;
            while col < 8
                invariant
                    col <= 8,
                    row < 8,
                    g == grid_view(grid),
                    out@ == base + row_text(g[row as int], col as nat),
                decreases 8 - col,
            {
                proof {
                    reveal_strlit(" ");
                }
                out.append(code_str(grid[row][col]));
                out.append(" ");
                col += 1;
            }
            proof {
                reveal_strlit("\n");
            }
            out.append("\n");
            k += 1;
        }
        proof {
            reveal_strlit("1");
            reveal_strlit("2");
        }
        match self.0.get_current_player() {
            Player::Black => out.append("1"),
            Player::Red => out.append("2"),
        }
        out
    }
}

/// The lines of `s`.
pub fn split_lines(s: &str) -> (r: Vec<Vec<char>>)
    ensures
        lines_view(r@) == lines_of(s@),
{
    let n = s.unicode_len();
    let mut done: Vec<Vec<char>> = Vec::new();
    let mut cur: Vec<char> = Vec::new();
    let mut i: usize = 0;
    let ghost mut start: int = 0;
    assert(s@.skip(0) =~= s@);
    while i < n
        invariant
            n == s@.len(),
            0 <= start <= i <= n,
            cur@ == s@.subrange(start, i as int),
            forall|k: int| start <= k < i ==> s@[k] != '\n',
            lines_of(s@) == lines_view(done@) + lines_of(s@.skip(start)),
        decreases n - i,
    {
        let c = s.get_char(i);
        if c == '\n' {
            proof {
                let t = s@.skip(start);
                assert forall|k: int| 0 <= k < i - start implies t[k] != '\n' by {
                    assert(t[k] == s@[start + k]);
                }
                lemma_first_newline(t, i - start);
                assert(t.take(i - start) =~= cur@);
                assert(t.skip(i - start + 1) =~= s@.skip(i + 1));
            }
            done.push(cur);
            cur = Vec::new();
            proof {
                start = i + 1;
            }
        } else {
            cur.push(c);
        }
        i += 1;
    }
    proof {
        let t = s@.skip(start);
        assert forall|k: int| 0 <= k < n - start implies t[k] != '\n' by {
            assert(t[k] == s@[start + k]);
        }
        lemma_first_newline(t, n - start);
    }
    done.push(cur);
    done
}

/// The row that line number `i` describes.
pub fn parse_row(line: &Vec<char>, i: usize) -> (r: Result<[BoardPiece; 8], ParseError>)
    requires
        i < 8,
    ensures
        match place_row(line@, line@.len(), i as int) {
            Ok((row, _)) => r is Ok && r.unwrap()@ == row,
            Err(e) => r == Err::<[BoardPiece; 8], ParseError>(e),
        },
{
    let mut row = [BoardPiece::Empty;8];
    let mut col: usize = if i % 2 == 0 {
        1
    } else {
        0
    };
    assert(row@ =~= Seq::new(8, |c: int| BoardPiece::Empty));
    let mut k: usize = 0;
    while k < line.len()
        invariant
            k <= line.len(),
            col <= 9,
            place_row(line@, k as nat, i as int) == Ok::<(Seq<BoardPiece>, int), ParseError>(
                (row@, col as int),
            ),
        ensures
            k == line.len(),
        decreases line.len() - k,
    {
        let c = line[k];
        if c == ' ' || c == '0' {
        } else if col > 7 {
            proof {
                lemma_row_error_stays(line@, (k + 1) as nat, line@.len(), i as int);
            }
            return Err(ParseError::TooManyPieces);
        } else {
            match BoardPiece::try_from(c) {
                Err(e) => {
                    proof {
                        lemma_row_error_stays(line@, (k + 1) as nat, line@.len(), i as int);
                    }
                    return Err(e);
                },
                Ok(p) => {
                    row[col] = p;
                    col += 2;
                },
            }
        }
        k += 1;
    }
    Ok(row)
}

/// The number that `line` spells, if it spells one.
pub fn parse_number(line: &Vec<char>) -> (r: Option<u32>)
    ensures
        number_of(line@) == (match r {
            Some(x) => Some(x as int),
            None => None,
        }),
{
    let first: usize = if line.len() > 0 && line[0] == '+' {
        1
    } else {
        0
    };
    let ghost body = line@.skip(first as int);
    if first == line.len() {
        return None;
    }
    let mut acc: u64 = 0;
    let mut k: usize = first;
    while k < line.len()
        invariant
            first <= k <= line.len(),
            first < line.len(),
            first == (if line@.len() > 0 && line@[0] == '+' {
                1int
            } else {
                0int
            }),
            body == line@.skip(first as int),
            line@.skip(0) == line@,
            acc <= u32::MAX,
            decimal(body, (k - first) as nat) == Some(acc as int),
        ensures
            k == line.len(),
        decreases line.len() - k,
    {
        let ghost next = (k - first + 1) as nat;
        match digit_of_char(line[k]) {
            None => {
                proof {
                    lemma_none_stays(body, next, body.len());
                }
                return None;
            },
            Some(d) => {
                acc = acc * 10 + d;
                if acc > 0xffff_ffff {
                    proof {
                        lemma_decimal_grows(body, next, body.len());
                    }
                    return None;
                }
            },
        }
        k += 1;
    }
    Some(acc as u32)
}

/// Once a character is no digit, no longer prefix spells a number.
proof fn lemma_none_stays(s: Seq<char>, k: nat, n: nat)
    requires
        k <= n,
        decimal(s, k) is None,
    ensures
        decimal(s, n) is None,
    decreases n,
{
    if k < n {
        lemma_none_stays(s, k, (n - 1) as nat);
    }
}

impl Board {
    /// The board, ready to be written out in its text form.
    pub fn display_file<'a>(&'a self) -> (r: OutputFileBoard<'a>)
        ensures
            r.board() == *self,
    {
        OutputFileBoard(self)
    }

    /// The game that the text `s` describes.
    pub fn parse(s: &str) -> (r: Result<Board, ParseError>)
        ensures
            match parse_board(s@) {
                Ok(pos) => r is Ok && r.unwrap().wf() && r.unwrap()@ == pos,
                Err(e) => r is Err && r.unwrap_err() == e,
            },
    {
        let lines = split_lines(s);
        let n: usize = if lines.len() < 9 {
            lines.len()
        } else {
            9
        };
        let mut board = [[BoardPiece::Empty;8];8];
        let mut players = Players::default();
        let ghost ls = lines_view(lines@);
        assert(grid_view(board) =~~= Seq::new(8, |r: int| Seq::new(8, |c: int| BoardPiece::Empty)));
        let mut i: usize = 0;
        while i < n
            invariant
                i <= n <= 9,
                n <= lines.len(),
                n == (if lines.len() < 9 {
                    lines.len()
                } else {
                    9
                }),
                ls == lines_view(lines@),
                ls == lines_of(s@),
                players.wf(),
                i <= 8 ==> players.mover() == Player::Black,
                parse_lines(ls, i as nat) == Ok::<Position, ParseError>(
                    Position { grid: grid_view(board), mover: players.mover() },
                ),
            ensures
                i == n,
            decreases n - i,
        {
            let ghost next = (i + 1) as nat;
            if i == 8 {
                match parse_number(&lines[i]) {
                    None => {
                        proof {
                            lemma_error_stays(ls, next, n as nat);
                        }
                        return Err(ParseError::PlayerNotNumber);
                    },
                    Some(v) => {
                        if v == 1 {
                        } else if v == 2 {
                            players.swap();
                        } else {
                            proof {
                                lemma_error_stays(ls, next, n as nat);
                            }
                            return Err(ParseError::PlayerOutOfRange);
                        }
                    },
                }
            } else {
                match parse_row(&lines[i], i) {
                    Err(e) => {
                        proof {
                            lemma_error_stays(ls, next, n as nat);
                        }
                        return Err(e);
                    },
                    Ok(row) => {
                        let ghost before = grid_view(board);
                        board[7 - i] = row;
                        assert(grid_view(board) =~~= before.update(7 - i, row@));
                    },
                }
            }
            i += 1;
        }
        Ok(Board::new(board, players))
    }
}

impl std::str::FromStr for Board {
    type Err = ParseError;

    fn from_str(s: &str) -> (r: Result<Self, ParseError>)
        ensures
            match parse_board(s@) {
                Ok(pos) => r is Ok && r.unwrap().wf() && r.unwrap()@ == pos,
                Err(e) => r is Err && r.unwrap_err() == e,
            },
    {
        Board::parse(s)
    }
}

} // verus!
