//! Algebraic-notation move descriptors and their parsers. A placement
//! string ("Pe2 Ke1") sets up a board; a move string names a piece and a
//! destination square, with flags for captures and promotions.

use vstd::prelude::*;
use vstd::std_specs::iter::IteratorSpec;

use crate::board::{spec_notation_to_index, spec_notation_to_x, Board};
use crate::piece::{piece_of_char, CellValue, ChessCell, Color, Moved, PieceType};
use crate::sparse::{hydrate_cells, hydrate_mask};

verus! {

/// Flag bit: the move captures.
pub const CAPTURE: u8 = 1;

/// Flag bit: the pawn promotes to a knight.
pub const PROMOTE_KNIGHT: u8 = 2;

/// Flag bit: the pawn promotes to a bishop.
pub const PROMOTE_BISHOP: u8 = 4;

/// Flag bit: the pawn promotes to a rook.
pub const PROMOTE_ROOK: u8 = 8;

/// Flag bit: the pawn promotes to a queen.
pub const PROMOTE_QUEEN: u8 = 16;

/// A set of special-move flag bits.
#[derive(Clone, Copy, Debug, PartialEq, Eq, Structural)]
pub struct SpecialMove {
    pub bits: u8,
}

impl SpecialMove {
    /// No flags.
    pub fn empty() -> (r: Self)
        ensures
            r == (SpecialMove { bits: 0 }),
    {
        SpecialMove { bits: 0 }
    }

    /// Sets or clears one flag bit.
    pub fn set(&mut self, flag: u8, value: bool)
        ensures
            final(self).bits == (if value {
                old(self).bits | flag
            } else {
                old(self).bits & !flag
            }),
    {
        if value {
            self.bits = self.bits | flag;
        } else {
            self.bits = self.bits & !flag;
        }
    }

    /// Whether any bit of `flag` is set.
    pub fn contains(&self, flag: u8) -> (r: bool)
        ensures
            r == (self.bits & flag != 0),
    {
        self.bits & flag != 0
    }
}

/// What a parsed move says besides its destination: the disambiguating
/// column or rank, if any, the piece kind, and the special-move flags.
#[derive(Clone, Copy, Debug, PartialEq, Eq)]
pub struct MoveData {
    pub x: Option<char>,
    pub y: Option<u8>,
    pub piece: Option<PieceType>,
    pub special: SpecialMove,
}

/// How a game ended.
#[derive(Clone, Copy, Debug, PartialEq, Eq)]
pub enum GameResult {
    White,
    Black,
    Draw,
}

/// A parsed notation item: a move to a destination square, a castle, a
/// check or checkmate, or the end of the game.
#[derive(Clone, Copy, Debug, PartialEq, Eq)]
pub enum Move {
    Move(MoveData, u8),
    Castle(MoveData, u8),
    Check(MoveData, u8),
    Checkmate(MoveData, u8),
    End(GameResult),
}

/// A rank digit as the parsers read it: `'0'` to `'8'`.
pub open spec fn spec_digit(c: char) -> Option<u8> {
    if 48 <= (c as int) && (c as int) < 57 {
        Some((c as int - 48) as u8)
    } else {
        None
    }
}

/// The square named by a column letter and a rank digit.
pub open spec fn spec_square(x: char, yc: char) -> Option<u8> {
    match spec_digit(yc) {
        None => None,
        Some(y) => spec_notation_to_index(x, y),
    }
}

/// A bare move of `kind` to square `i`: no disambiguation, no flags.
pub open spec fn plain_move(kind: PieceType, i: u8) -> Move {
    Move::Move(
        MoveData { x: None, y: None, piece: Some(kind), special: SpecialMove { bits: 0 } },
        i,
    )
}

/// A rank digit (`'0'` to `'8'`) as its value.
fn digit(c: char) -> (r: Option<u8>)
    ensures
        r == spec_digit(c),
{
    let code = c as u32;
    if 48 <= code && code < 57 {
        Some((code - 48) as u8)
    } else {
        None
    }
}

/// The square named by a column letter and a rank digit, or `None` when
/// either character is out of range.
pub fn get_index_from_chars(chars: [char; 2]) -> (r: Option<u8>)
    ensures
        r == spec_square(chars[0], chars[1]),
        r matches Some(i) ==> i < 64,
{
    let y = match digit(chars[1]) {
        Some(y) => y,
        None => {
            return None;
        },
    };
    Board::notation_to_index(chars[0], y)
}

/// The characters of a string, in order.
fn chars_of(s: &str) -> (v: Vec<char>)
    ensures
        v@ == s@,
{
    let mut it = s.chars();
    proof {
        vstd::string::axiom_spec_iter(s);
    }
    let mut v: Vec<char> = Vec::new();
    loop
        invariant
            v@ + it.remaining() == s@,
            v@.len() <= s@.len(),
        ensures
            v@ == s@,
        decreases s@.len() - v@.len(),
    {
        let ghost prev = it;
        match it.next() {
            Some(c) => {
                proof {
                    vstd::string::next_postcondition(&prev, &it, Some(c));
                }
                v.push(c);
            },
            None => {
                proof {
                    vstd::string::next_postcondition(&prev, &it, None);
                }
                break ;
            },
        }
    }
    v
}

/// One placement of a placement string: a piece letter and its square.
pub open spec fn spec_placement(s: Seq<char>) -> Option<(PieceType, u8)> {
    match (piece_of_char(s[0]), spec_square(s[1], s[2])) {
        (Some(t), Some(i)) => Some((t, i)),
        _ => None,
    }
}

/// A whole placement string: three-character placements separated by
/// single spaces, or nothing meaningful at all.
pub open spec fn spec_placements(s: Seq<char>) -> Option<Seq<(PieceType, u8)>>
    decreases s.len(),
{
    if s.len() == 3 {
        match spec_placement(s) {
            Some(p) => Some(seq![p]),
            None => None,
        }
    } else if s.len() >= 4 && s[3] == ' ' {
        match (spec_placement(s.take(3)), spec_placements(s.skip(4))) {
            (Some(p), Some(r)) => Some(seq![p] + r),
            _ => None,
        }
    } else {
        None
    }
}

/// The sparse cell list a placement list denotes: each square holds an
/// unmoved piece of color `col`.
pub open spec fn placement_cells(ps: Seq<(PieceType, u8)>, col: Color) -> Seq<(u8, CellValue)> {
    ps.map(
        |k: int, p: (PieceType, u8)|
            (p.1, CellValue::Piece { kind: p.0, color: col, moved: false }),
    )
}

/// Builds a board from a placement string: every named square receives an
/// unmoved piece of color `col`; a malformed string gives `None`.
pub fn start_notation(notation: &str, col: Color) -> (r: Option<Board>)
    ensures
        match spec_placements(notation@) {
            None => r is None,
            Some(ps) => (match r {
                Some(b) => b.wf() && b.cells() == hydrate_cells(placement_cells(ps, col))
                    && b.occ_mask() == hydrate_mask(placement_cells(ps, col)),
                None => false,
            }),
        },
{
    let v = chars_of(notation);
    let mut board = Board::empty();
    let ghost mut done: Seq<(PieceType, u8)> = Seq::empty();
    proof {
        assert(placement_cells(done, col) =~= Seq::<(u8, CellValue)>::empty());
        assert(board.cells() =~= hydrate_cells(placement_cells(done, col)));
        assert(v@.skip(0) =~= v@);
        match spec_placements(v@) {
            Some(rest) => {
                assert(done + rest =~= rest);
            },
            None => {},
        }
    }
    let mut k: usize = 0;
    loop
        invariant
            v@ == notation@,
            k <= v@.len(),
            (match spec_placements(v@.skip(k as int)) {
                Some(rest) => spec_placements(v@) == Some(done + rest),
                None => spec_placements(v@) is None,
            }),
            board.wf(),
            board.cells() == hydrate_cells(placement_cells(done, col)),
            board.occ_mask() == hydrate_mask(placement_cells(done, col)),
        ensures
            match spec_placements(notation@) {
                None => false,
                Some(ps) => board.wf() && board.cells() == hydrate_cells(
                    placement_cells(ps, col),
                ) && board.occ_mask() == hydrate_mask(placement_cells(ps, col)),
            },
        decreases v@.len() - k,
    {
        let ghost suffix = v@.skip(k as int);
        if v.len() - k < 3 {
            proof {
                assert(spec_placements(suffix) is None);
            }
            return None;
        }
        let ptype = match PieceType::from_char(v[k]) {
            Ok(t) => t,
            Err(_) => {
                proof {
                    assert(suffix[0] == v@[k as int]);
                    assert(spec_placement(suffix) is None);
                    if suffix.len() != 3 {
                        assert(spec_placement(suffix.take(3)) is None);
                    }
                    assert(spec_placements(suffix) is None);
                }
                return None;
            },
        };
        let square = match get_index_from_chars([v[k + 1], v[k + 2]]) {
            Some(i) => i,
            None => {
                proof {
                    assert(suffix[1] == v@[k as int + 1] && suffix[2] == v@[k as int + 2]);
                    assert(spec_placement(suffix) is None);
                    if suffix.len() != 3 {
                        assert(spec_placement(suffix.take(3)) is None);
                    }
                    assert(spec_placements(suffix) is None);
                }
                return None;
            },
        };
        proof {
            assert(suffix[0] == v@[k as int] && suffix[1] == v@[k as int + 1] && suffix[2] == v@[
                k as int + 2]);
            assert(spec_placement(suffix) == Some((ptype, square)));
            if suffix.len() != 3 {
                assert(suffix.take(3) =~= suffix.take(3));
                assert(suffix.take(3)[0] == suffix[0] && suffix.take(3)[1] == suffix[1]
                    && suffix.take(3)[2] == suffix[2]);
                assert(spec_placement(suffix.take(3)) == Some((ptype, square)));
            }
        }
        let piece = ChessCell::with_piece(ptype, col, Moved::No);
        let ghost prev_done = done;
        board.add_piece(piece, square);
        proof {
            done = prev_done + seq![(ptype, square)];
            let pc = placement_cells(done, col);
            assert(pc.drop_last() =~= placement_cells(prev_done, col));
            assert(pc.last() == (square, piece@));
            assert((square % 64) as u64 == square as u64);
            assert(board.cells() == hydrate_cells(pc));
            assert(board.occ_mask() == hydrate_mask(pc));
        }
        if k + 3 == v.len() {
            proof {
                assert(suffix.len() == 3);
                assert(spec_placements(suffix) == Some(seq![(ptype, square)]));
                assert(prev_done + seq![(ptype, square)] == done);
            }
            return Some(board);
        }
        if v[k + 3] != ' ' {
            proof {
                assert(suffix.len() >= 4 && suffix[3] == v@[k as int + 3]);
                assert(spec_placements(suffix) is None);
            }
            return None;
        }
        proof {
            assert(suffix.len() >= 4 && suffix[3] == ' ');
            assert(suffix.skip(4) =~= v@.skip(k as int + 4));
            match spec_placements(v@.skip(k as int + 4)) {
                Some(rest) => {
                    assert(spec_placements(suffix) == Some(seq![(ptype, square)] + rest));
                    assert(prev_done + (seq![(ptype, square)] + rest) =~= done + rest);
                },
                None => {
                    assert(spec_placements(suffix) is None);
                },
            }
        }
        k = k + 4;
    }
}

/// A two-character notation item: a pawn move to the named square.
pub fn parse_simple_pawn(notation: [char; 2]) -> (r: Option<Move>)
    ensures
        r == (match spec_square(notation[0], notation[1]) {
            None => None::<Move>,
            Some(i) => Some(plain_move(PieceType::Pawn, i)),
        }),
{
    let index = match get_index_from_chars(notation) {
        Some(i) => i,
        None => {
            return None;
        },
    };
    Some(
        Move::Move(
            MoveData { x: None, y: None, piece: Some(PieceType::Pawn), special: SpecialMove::empty() },
            index,
        ),
    )
}

/// A three-character notation item: a piece letter and its destination.
pub fn parse_simple_piece(notation: [char; 3]) -> (r: Option<Move>)
    ensures
        r == (match (piece_of_char(notation[0]), spec_square(notation[1], notation[2])) {
            (Some(t), Some(i)) => Some(plain_move(t, i)),
            _ => None::<Move>,
        }),
{
    let ptype = match PieceType::from_char(notation[0]) {
        Ok(t) => t,
        Err(_) => {
            return None;
        },
    };
    let index = match get_index_from_chars([notation[1], notation[2]]) {
        Some(i) => i,
        None => {
            return None;
        },
    };
    Some(
        Move::Move(
            MoveData { x: None, y: None, piece: Some(ptype), special: SpecialMove::empty() },
            index,
        ),
    )
}

/// Whether `c` occurs in `s`.
pub open spec fn seq_contains(s: Seq<char>, c: char) -> bool {
    exists|i: int| 0 <= i < s.len() && s[i] == c
}

/// How many times `c` occurs in `s`.
pub open spec fn count_char(s: Seq<char>, c: char) -> int
    decreases s.len(),
{
    if s.len() == 0 {
        0
    } else {
        count_char(s.drop_last(), c) + if s.last() == c {
            1int
        } else {
            0int
        }
    }
}

/// `s` with every parenthesis removed.
pub open spec fn remove_parens(s: Seq<char>) -> Seq<char>
    decreases s.len(),
{
    if s.len() == 0 {
        Seq::empty()
    } else if s.last() == '(' || s.last() == ')' {
        remove_parens(s.drop_last())
    } else {
        remove_parens(s.drop_last()).push(s.last())
    }
}

/// A castle character: `'0'`, or the `'o'` that is read as `'0'`.
pub open spec fn castle_zero(c: char) -> bool {
    c == '0' || c == 'o'
}

/// Whether `s` reads as kingside castling (`"0-0"` with `'o'` accepted).
pub open spec fn is_castle_short(s: Seq<char>) -> bool {
    s.len() == 3 && castle_zero(s[0]) && s[1] == '-' && castle_zero(s[2])
}

/// Whether `s` reads as queenside castling (`"0-0-0"` with `'o'`
/// accepted).
pub open spec fn is_castle_long(s: Seq<char>) -> bool {
    s.len() == 5 && castle_zero(s[0]) && s[1] == '-' && castle_zero(s[2]) && s[3] == '-'
        && castle_zero(s[4])
}

/// The destination-square scan of a move string, from position `i` with
/// the kept (`dx`, `dy`) and latest (`tx`, `ty`) column and rank
/// candidates: a digit shifts the rank pair, a second shift fails; any
/// other character becomes the latest column candidate, a column letter
/// shifting the pair, a second shift failing.
pub open spec fn scan_xy(
    s: Seq<char>,
    i: int,
    dx: Option<char>,
    dy: Option<u8>,
    tx: Option<char>,
    ty: Option<u8>,
) -> Option<(Option<char>, Option<u8>, Option<char>, Option<u8>)>
    decreases s.len() - i,
{
    if i < 0 || i >= s.len() {
        Some((dx, dy, tx, ty))
    } else {
        match spec_digit(s[i]) {
            Some(y) => match ty {
                Some(t) => if dy is None {
                    scan_xy(s, i + 1, dx, Some(t), tx, Some(y))
                } else {
                    None
                },
                None => scan_xy(s, i + 1, dx, dy, tx, Some(y)),
            },
            None => if spec_notation_to_x(s[i]) is Some && tx is Some {
                if dx is None {
                    scan_xy(s, i + 1, Some(tx->0), dy, Some(s[i]), ty)
                } else {
                    None
                }
            } else {
                scan_xy(s, i + 1, dx, dy, Some(s[i]), ty)
            },
        }
    }
}

/// The promotion flag named by the last character of a move string:
/// no flag for an ordinary character, one promotion bit for a promotable
/// piece letter, and no move at all for a pawn or king letter.
pub open spec fn promotion_bits(last: char) -> Option<u8> {
    match piece_of_char(last) {
        None => Some(0),
        Some(PieceType::Knight) => Some(PROMOTE_KNIGHT),
        Some(PieceType::Bishop) => Some(PROMOTE_BISHOP),
        Some(PieceType::Rook) => Some(PROMOTE_ROOK),
        Some(PieceType::Queen) => Some(PROMOTE_QUEEN),
        Some(PieceType::Pawn) => None,
        Some(PieceType::King) => None,
    }
}

/// The rank a color's pieces start on.
pub open spec fn start_row(color: Color) -> u8 {
    match color {
        Color::Black => 8,
        Color::White => 1,
    }
}

/// The move data of a parsed castle: the king, from column `'e'` of the
/// color's starting rank.
pub open spec fn castle_data(color: Color) -> MoveData {
    MoveData {
        x: Some('e'),
        y: Some(start_row(color)),
        piece: Some(PieceType::King),
        special: SpecialMove { bits: 0 },
    }
}

/// The general move string, after the two-character, castle, game-end and
/// three-character forms are ruled out: a piece letter, optional capture
/// and promotion marks, and a destination with optional disambiguation.
pub open spec fn spec_parse_general(s: Seq<char>, color: Color) -> Option<Move> {
    if s.len() == 0 {
        None
    } else {
        match piece_of_char(s[0]) {
            None => None,
            Some(pt) => {
                let t = if seq_contains(s, ')') {
                    remove_parens(s)
                } else {
                    s
                };
                if t.len() == 0 {
                    None
                } else {
                    match promotion_bits(t.last()) {
                        None => None,
                        Some(promo) => {
                            let bits = (((if seq_contains(s, 'x') {
                                CAPTURE
                            } else {
                                0u8
                            }) + promo) as u8);
                            match scan_xy(t, 1, None, None, None, None) {
                                None => None,
                                Some((dx, dy, tx, ty)) => match (tx, ty) {
                                    (Some(x), Some(y)) => match spec_notation_to_index(x, y) {
                                        None => None,
                                        Some(idx) => {
                                            let data = MoveData {
                                                x: dx,
                                                y: dy,
                                                piece: Some(pt),
                                                special: SpecialMove { bits },
                                            };
                                            if seq_contains(s, '+') {
                                                Some(Move::Check(data, idx))
                                            } else if seq_contains(s, '#') {
                                                Some(Move::Checkmate(data, idx))
                                            } else {
                                                Some(Move::Move(data, idx))
                                            }
                                        },
                                    },
                                    _ => None,
                                },
                            }
                        },
                    }
                }
            },
        }
    }
}

/// A whole move string: a bare pawn move, castling, a game end, a bare
/// piece move, or the general form.
pub open spec fn spec_parse_notation(s: Seq<char>, color: Color) -> Option<Move> {
    if s.len() == 2 {
        match spec_square(s[0], s[1]) {
            None => None,
            Some(i) => Some(plain_move(PieceType::Pawn, i)),
        }
    } else if is_castle_short(s) {
        match spec_notation_to_index('g', start_row(color)) {
            Some(i) => Some(Move::Castle(castle_data(color), i)),
            None => None,
        }
    } else if is_castle_long(s) {
        match spec_notation_to_index('c', start_row(color)) {
            Some(i) => Some(Move::Castle(castle_data(color), i)),
            None => None,
        }
    } else if seq_contains(s, '-') {
        if count_char(s, '½') == 2 {
            Some(Move::End(GameResult::Draw))
        } else if s[0] == '1' || s[0] == '½' || s[0] == '+' {
            Some(Move::End(GameResult::White))
        } else {
            Some(Move::End(GameResult::Black))
        }
    } else if s.len() == 3 {
        match (piece_of_char(s[0]), spec_square(s[1], s[2])) {
            (Some(t), Some(i)) => Some(plain_move(t, i)),
            _ => None,
        }
    } else {
        spec_parse_general(s, color)
    }
}

/// Whether `c` occurs in `v`.
fn vec_contains(v: &Vec<char>, c: char) -> (r: bool)
    ensures
        r == seq_contains(v@, c),
{
    let mut i: usize = 0;
    while i < v.len()
        invariant
            i <= v@.len(),
            forall|j: int| 0 <= j < i ==> v@[j] != c,
        decreases v@.len() - i,
    {
        if v[i] == c {
            return true;
        }
        i = i + 1;
    }
    false
}

/// How many times `c` occurs in `v`.
fn vec_count(v: &Vec<char>, c: char) -> (r: usize)
    ensures
        r == count_char(v@, c),
{
    let mut cnt: usize = 0;
    let mut i: usize = 0;
    while i < v.len()
        invariant
            i <= v@.len(),
            cnt == count_char(v@.take(i as int), c),
            cnt <= i,
        decreases v@.len() - i,
    {
        proof {
            assert(v@.take(i as int + 1).drop_last() =~= v@.take(i as int));
        }
        if v[i] == c {
            cnt = cnt + 1;
        }
        i = i + 1;
    }
    proof {
        assert(v@.take(v@.len() as int) =~= v@);
    }
    cnt
}

/// `v` with every parenthesis removed.
fn vec_remove_parens(v: &Vec<char>) -> (r: Vec<char>)
    ensures
        r@ == remove_parens(v@),
{
    let mut r: Vec<char> = Vec::new();
    let mut i: usize = 0;
    while i < v.len()
        invariant
            i <= v@.len(),
            r@ == remove_parens(v@.take(i as int)),
        decreases v@.len() - i,
    {
        proof {
            assert(v@.take(i as int + 1).drop_last() =~= v@.take(i as int));
        }
        let c = v[i];
        if !(c == '(' || c == ')') {
            r.push(c);
        }
        i = i + 1;
    }
    proof {
        assert(v@.take(v@.len() as int) =~= v@);
    }
    r
}

/// Reads one move of algebraic notation for the given color: a bare pawn
/// move ("e4"), castling ("0-0", "0-0-0"), a game result ("1-0", "0-1", a
/// draw with two ½ signs), a bare piece move ("Qd3"), or the general form
/// with capture, check, checkmate and promotion marks and an optionally
/// disambiguated destination. The destination scan keeps the latest column
/// and rank candidates, and any non-coordinate character also enters it as
/// a column candidate, so a mark after the destination square makes the
/// move unreadable. Unreadable strings give `None`.
pub fn parse_notation(notation: &str, color: Color) -> (r: Option<Move>)
    ensures
        r == spec_parse_notation(notation@, color),
{
    let v = chars_of(notation);
    if v.len() == 2 {
        return parse_simple_pawn([v[0], v[1]]);
    }
    let castle_short = v.len() == 3 && (v[0] == '0' || v[0] == 'o') && v[1] == '-' && (v[2] == '0'
        || v[2] == 'o');
    let castle_long = v.len() == 5 && (v[0] == '0' || v[0] == 'o') && v[1] == '-' && (v[2] == '0'
        || v[2] == 'o') && v[3] == '-' && (v[4] == '0' || v[4] == 'o');
    if castle_short || castle_long {
        let row = match color {
            Color::Black => 8,
            Color::White => 1,
        };
        let dest = if castle_short {
            Board::notation_to_index('g', row)
        } else {
            Board::notation_to_index('c', row)
        };
        let index = match dest {
            Some(i) => i,
            None => vstd::pervasive::unreached(),
        };
        return Some(
            Move::Castle(
                MoveData {
                    x: Some('e'),
                    y: Some(row),
                    piece: Some(PieceType::King),
                    special: SpecialMove::empty(),
                },
                index,
            ),
        );
    }
    if vec_contains(&v, '-') {
        if vec_count(&v, '½') == 2 {
            return Some(Move::End(GameResult::Draw));
        }
        if v[0] == '1' || v[0] == '½' || v[0] == '+' {
            return Some(Move::End(GameResult::White));
        }
        return Some(Move::End(GameResult::Black));
    }
    if v.len() == 3 {
        return parse_simple_piece([v[0], v[1], v[2]]);
    }
    if v.len() == 0 {
        return None;
    }
    let ptype = match PieceType::from_char(v[0]) {
        Ok(t) => t,
        Err(_) => {
            return None;
        },
    };
    let cap: u8 = if vec_contains(&v, 'x') {
        CAPTURE
    } else {
        0
    };
    let t = if vec_contains(&v, ')') {
        vec_remove_parens(&v)
    } else {
        let mut copy: Vec<char> = Vec::new();
        let mut i: usize = 0;
        while i < v.len()
            invariant
                i <= v@.len(),
                copy@ == v@.take(i as int),
            decreases v@.len() - i,
        {
            proof {
                assert(v@.take(i as int + 1) =~= v@.take(i as int).push(v@[i as int]));
            }
            copy.push(v[i]);
            i = i + 1;
        }
        proof {
            assert(v@.take(v@.len() as int) =~= v@);
        }
        copy
    };
    if t.len() == 0 {
        return None;
    }
    let last = t[t.len() - 1];
    proof {
        assert(t@.last() == t@[t@.len() - 1]);
    }
    let promo: u8 = match PieceType::from_char(last) {
        Ok(PieceType::Knight) => PROMOTE_KNIGHT,
        Ok(PieceType::Bishop) => PROMOTE_BISHOP,
        Ok(PieceType::Rook) => PROMOTE_ROOK,
        Ok(PieceType::Queen) => PROMOTE_QUEEN,
        Ok(_) => {
            return None;
        },
        Err(_) => 0,
    };
    let special = SpecialMove { bits: cap + promo };
    let is_check = vec_contains(&v, '+');
    let is_mate = vec_contains(&v, '#');
    let mut data_x: Option<char> = None;
    let mut data_y: Option<u8> = None;
    let mut temp_x: Option<char> = None;
    let mut temp_y: Option<u8> = None;
    let mut failed = false;
    let mut i: usize = 1;
    while i < t.len()
        invariant_except_break
            1 <= i <= t@.len(),
            !failed,
            scan_xy(t@, 1, None, None, None, None) == scan_xy(
                t@,
                i as int,
                data_x,
                data_y,
                temp_x,
                temp_y,
            ),
        ensures
            failed ==> scan_xy(t@, 1, None, None, None, None) is None,
            !failed ==> scan_xy(t@, 1, None, None, None, None) == scan_xy(
                t@,
                i as int,
                data_x,
                data_y,
                temp_x,
                temp_y,
            ) && i == t@.len(),
        decreases t@.len() - i,
    {
        let ghost (gx, gy, gtx, gty) = (data_x, data_y, temp_x, temp_y);
        let c = t[i];
        match digit(c) {
            Some(y) => {
                match temp_y {
                    Some(ty) => {
                        if data_y.is_none() {
                            data_y = Some(ty);
                            temp_y = Some(y);
                        } else {
                            proof {
                                assert(scan_xy(t@, i as int, gx, gy, gtx, gty) is None);
                            }
                            failed = true;
                            break ;
                        }
                    },
                    None => {
                        temp_y = Some(y);
                    },
                }
            },
            None => {
                let is_col = match Board::notation_to_x(c) {
                    Some(_) => true,
                    None => false,
                };
                if is_col && temp_x.is_some() {
                    if data_x.is_none() {
                        let tx = match temp_x {
                            Some(x) => x,
                            None => vstd::pervasive::unreached(),
                        };
                        data_x = Some(tx);
                        temp_x = Some(c);
                    } else {
                        proof {
                            assert(scan_xy(t@, i as int, gx, gy, gtx, gty) is None);
                        }
                        failed = true;
                        break ;
                    }
                } else {
                    temp_x = Some(c);
                }
            },
        }
        proof {
            assert(scan_xy(t@, i as int, gx, gy, gtx, gty) == scan_xy(
                t@,
                i as int + 1,
                data_x,
                data_y,
                temp_x,
                temp_y,
            ));
        }
        i = i + 1;
    }
    if failed {
        return None;
    }
    proof {
        assert(scan_xy(t@, i as int, data_x, data_y, temp_x, temp_y) == Some(
            (data_x, data_y, temp_x, temp_y),
        ));
    }
    let x = match temp_x {
        Some(x) => x,
        None => {
            return None;
        },
    };
    let y = match temp_y {
        Some(y) => y,
        None => {
            return None;
        },
    };
    let index = match Board::notation_to_index(x, y) {
        Some(i) => i,
        None => {
            return None;
        },
    };
    let data = MoveData { x: data_x, y: data_y, piece: Some(ptype), special };
    if is_check {
        Some(Move::Check(data, index))
    } else if is_mate {
        Some(Move::Checkmate(data, index))
    } else {
        Some(Move::Move(data, index))
    }
}

} // verus!
