//! A standalone piece: its kind, color, board position and has-moved
//! flag, with move generation over an open board. These generators see no
//! occupancy: the stepping pieces keep every in-range offset (including
//! offsets that wrap an edge — they mirror plain checked arithmetic), and
//! the sliding pieces produce their full rays to the board's edge.

use vstd::prelude::*;

use crate::board::Board;
use crate::board_hash::BoardHash;
use crate::geometry::{
    can_step, lemma_no_step, lemma_ray_after_step, lemma_ray_total, lemma_ray_trans,
    lemma_square_id, lemma_step, lemma_step_matches, on_ray, ray_fuel, step_offset, Dir,
};
use crate::piece::{Color, PieceType};

verus! {

/// A piece with a position of its own, off any board.
#[derive(Clone, Copy, Debug, PartialEq, Eq, Structural)]
pub struct Piece {
    kind: PieceType,
    color: Color,
    position: u8,
    has_moved: bool,
}

/// The packed kind bits of the compact piece byte.
pub open spec fn kind_bits(t: PieceType) -> u8 {
    match t {
        PieceType::Pawn => 0,
        PieceType::Knight => 1,
        PieceType::Bishop => 2,
        PieceType::Rook => 3,
        PieceType::Queen => 4,
        PieceType::King => 5,
    }
}

/// The packed color bit of the compact piece byte.
pub open spec fn color_bits(c: Color) -> u8 {
    match c {
        Color::White => 0,
        Color::Black => 8,
    }
}

/// A checked step of `target_pos` squares up the board: `None` past
/// square 63.
pub fn piece_checked_add(current_pos: u8, target_pos: u8) -> (r: Option<u8>)
    ensures
        r == (if current_pos + target_pos <= 63 {
            Some((current_pos + target_pos) as u8)
        } else {
            None::<u8>
        }),
{
    let maybe = match current_pos.checked_add(target_pos) {
        Some(v) => v,
        None => {
            return None;
        },
    };
    if maybe > 63 {
        None
    } else {
        Some(maybe)
    }
}

/// An open-board pawn move: the two-square advance when the pawn has not
/// moved, and the one-square advance while it stays on the board. No
/// captures are modeled here.
pub open spec fn solo_pawn_ok(p: int, color: Color, has_moved: bool, j: int) -> bool {
    ||| (!has_moved && j == (match color {
        Color::White => p - 16,
        Color::Black => p + 16,
    }))
    ||| (match color {
        Color::White => p >= 8 && j == p - 8,
        Color::Black => p + 8 <= 63 && j == p + 8,
    })
}

/// An open-board knight move: any of the eight offsets whose plain
/// checked arithmetic stays within 0..64. Offsets that wrap an edge are
/// kept: only the 0..64 range is enforced.
pub open spec fn solo_knight_ok(p: int, j: int) -> bool {
    ||| (p >= 17 && j == p - 17)
    ||| (p >= 15 && j == p - 15)
    ||| (p >= 10 && j == p - 10)
    ||| (p >= 6 && j == p - 6)
    ||| (p + 6 <= 63 && j == p + 6)
    ||| (p + 10 <= 63 && j == p + 10)
    ||| (p + 15 <= 63 && j == p + 15)
    ||| (p + 17 <= 63 && j == p + 17)
}

/// An open-board king move: any of the eight single-step offsets whose
/// plain checked arithmetic stays within 0..64, edge wraps included.
pub open spec fn solo_king_ok(p: int, j: int) -> bool {
    ||| (p >= 1 && j == p - 1)
    ||| (p >= 7 && j == p - 7)
    ||| (p >= 8 && j == p - 8)
    ||| (p >= 9 && j == p - 9)
    ||| (p + 1 <= 63 && j == p + 1)
    ||| (p + 7 <= 63 && j == p + 7)
    ||| (p + 8 <= 63 && j == p + 8)
    ||| (p + 9 <= 63 && j == p + 9)
}

/// An open-board rook move: any other square on the same row or column.
pub open spec fn solo_rook_ok(p: int, j: int) -> bool {
    ||| on_ray(p, j, Dir::North)
    ||| on_ray(p, j, Dir::South)
    ||| on_ray(p, j, Dir::East)
    ||| on_ray(p, j, Dir::West)
}

/// An open-board bishop move: any other square on one of the diagonals.
pub open spec fn solo_bishop_ok(p: int, j: int) -> bool {
    ||| on_ray(p, j, Dir::NorthEast)
    ||| on_ray(p, j, Dir::NorthWest)
    ||| on_ray(p, j, Dir::SouthEast)
    ||| on_ray(p, j, Dir::SouthWest)
}

/// An unmoved pawn's two-square advance stays within 0..64.
pub open spec fn solo_pawn_in_range(p: int, color: Color, has_moved: bool) -> bool {
    has_moved || (match color {
        Color::White => p >= 16,
        Color::Black => p < 48,
    })
}

/// The open ray walk's state: `cur` is the last square reached, every
/// ray square up to `cur` is collected, and nothing was collected beyond
/// what `start` held and the ray's prefix.
spec fn open_ray_inv(pos: u8, cur: u8, start: BoardHash, legal: BoardHash, d: Dir) -> bool {
    &&& pos < 64
    &&& cur < 64
    &&& (cur == pos || on_ray(pos as int, cur as int, d))
    &&& (forall|t: int|
        #[trigger] on_ray(pos as int, t, d) && (t == cur as int || on_ray(t, cur as int, d))
            ==> legal.has(t as u8))
    &&& (forall|j: u8|
        j < 64 && #[trigger] legal.has(j) ==> start.has(j) || (on_ray(pos as int, j as int, d) && (
        j == cur || on_ray(j as int, cur as int, d))))
    &&& (forall|j: u8| #[trigger] start.has(j) ==> legal.has(j))
}

/// At the board's edge the open walk is done: it has added exactly the
/// ray from `pos`.
proof fn lemma_open_ray_edge(pos: u8, cur: u8, start: BoardHash, legal: BoardHash, d: Dir)
    requires
        open_ray_inv(pos, cur, start, legal, d),
        !can_step(cur as int, d),
    ensures
        forall|j: u8|
            j < 64 ==> (#[trigger] legal.has(j) <==> (start.has(j) || on_ray(
                pos as int,
                j as int,
                d,
            ))),
{
    lemma_no_step(cur as int, d);
    assert forall|j: u8| j < 64 implies (legal.has(j) <==> (start.has(j) || on_ray(
        pos as int,
        j as int,
        d,
    ))) by {
        if on_ray(pos as int, j as int, d) && !(j == cur || on_ray(j as int, cur as int, d)) {
            if cur != pos {
                lemma_ray_total(pos as int, j as int, cur as int, d);
            }
            assert(on_ray(cur as int, j as int, d));
            assert(false);
        }
    }
}

/// One step of the open walk keeps its state, with the new square
/// collected.
proof fn lemma_open_ray_advance(
    pos: u8,
    cur: u8,
    nx: u8,
    start: BoardHash,
    before: BoardHash,
    after: BoardHash,
    d: Dir,
)
    requires
        open_ray_inv(pos, cur, start, before, d),
        can_step(cur as int, d),
        nx as int == cur as int + step_offset(d),
        forall|j: u8| #[trigger] after.has(j) == (before.has(j) || j % 64 == nx % 64),
    ensures
        open_ray_inv(pos, nx, start, after, d),
        nx < 64,
{
    lemma_step(cur as int, d);
    lemma_ray_after_step(cur as int, d);
    if cur != pos {
        lemma_ray_trans(pos as int, cur as int, nx as int, d);
    }
    assert(on_ray(pos as int, nx as int, d));
    lemma_square_id(nx as int);
    assert forall|t: int|
        #[trigger] on_ray(pos as int, t, d) && (t == nx as int || on_ray(t, nx as int, d))
            implies after.has(t as u8) by {
        if t != nx as int {
            if t != cur as int {
                if cur == pos {
                    assert(false);
                } else {
                    lemma_ray_total(pos as int, t, cur as int, d);
                    if on_ray(cur as int, t, d) {
                        assert(false);
                    }
                }
            }
            lemma_square_id(t);
            assert(before.has(t as u8));
        }
    }
    assert forall|j: u8| j < 64 && #[trigger] after.has(j) implies start.has(j) || (on_ray(
        pos as int,
        j as int,
        d,
    ) && (j == nx || on_ray(j as int, nx as int, d))) by {
        if j != nx && !start.has(j) {
            assert(before.has(j));
            if j == cur {
                assert(on_ray(cur as int, nx as int, d));
            } else {
                lemma_ray_trans(j as int, cur as int, nx as int, d);
            }
        }
    }
}

/// Adds the whole ray from `pos` in direction `d` to `legal`, walking
/// square by square with the shared step primitive until the edge.
fn full_ray(pos: u8, d: Dir, legal: &mut BoardHash)
    requires
        pos < 64,
    ensures
        forall|j: u8|
            j < 64 ==> (#[trigger] final(legal).has(j) <==> (old(legal).has(j) || on_ray(
                pos as int,
                j as int,
                d,
            ))),
        forall|j: u8| old(legal).has(j) ==> final(legal).has(j),
{
    let mut cur: u8 = pos;
    loop
        invariant_except_break
            open_ray_inv(pos, cur, *old(legal), *legal, d),
        ensures
            forall|j: u8|
                j < 64 ==> (#[trigger] legal.has(j) <==> (old(legal).has(j) || on_ray(
                    pos as int,
                    j as int,
                    d,
                ))),
            forall|j: u8| old(legal).has(j) ==> legal.has(j),
        decreases ray_fuel(cur as int, d),
    {
        let step = match d {
            Dir::North => Board::board_underflow_sub(cur, 8, false),
            Dir::South => Board::board_overflow_add(cur, 8, false),
            Dir::East => Board::board_overflow_add(cur, 1, false),
            Dir::West => Board::board_underflow_sub(cur, 1, false),
            Dir::NorthEast => Board::board_underflow_sub(cur, 7, true),
            Dir::NorthWest => Board::board_underflow_sub(cur, 9, true),
            Dir::SouthEast => Board::board_overflow_add(cur, 9, true),
            Dir::SouthWest => Board::board_overflow_add(cur, 7, true),
        };
        proof {
            lemma_step_matches(cur, d);
        }
        match step.get() {
            None => {
                proof {
                    lemma_open_ray_edge(pos, cur, *old(legal), *legal, d);
                }
                break ;
            },
            Some(nx) => {
                let ghost before = *legal;
                legal.insert(nx);
                proof {
                    lemma_open_ray_advance(pos, cur, nx, *old(legal), before, *legal, d);
                    lemma_step(cur as int, d);
                }
                cur = nx;
            },
        }
    }
}

/// The open-board pawn destinations: the unchecked two-square advance of
/// an unmoved pawn and the checked one-square advance.
pub fn chk_move_pawn(current_pos: u8, color: Color, has_moved: bool) -> (res: BoardHash)
    requires
        current_pos < 64,
        solo_pawn_in_range(current_pos as int, color, has_moved),
    ensures
        forall|j: u8|
            j < 64 ==> (#[trigger] res.has(j) <==> solo_pawn_ok(
                current_pos as int,
                color,
                has_moved,
                j as int,
            )),
{
    let mut res = BoardHash::new();
    if !has_moved {
        match color {
            Color::White => res.insert(current_pos - 16),
            Color::Black => res.insert(current_pos + 16),
        }
    }
    let maybe = match color {
        Color::White => current_pos.checked_sub(8),
        Color::Black => piece_checked_add(current_pos, 8),
    };
    if let Some(legal) = maybe {
        res.insert(legal);
    }
    res
}

/// The open-board knight destinations: all eight offsets, kept whenever
/// the plain checked arithmetic stays within 0..64.
#[verifier::rlimit(100)]
pub fn chk_move_knight(current_pos: u8) -> (res: BoardHash)
    requires
        current_pos < 64,
    ensures
        forall|j: u8|
            j < 64 ==> (#[trigger] res.has(j) <==> solo_knight_ok(current_pos as int, j as int)),
{
    let mut res = BoardHash::new();
    if let Some(top_left) = current_pos.checked_sub(17) {
        res.insert(top_left);
    }
    if let Some(top_right) = current_pos.checked_sub(15) {
        res.insert(top_right);
    }
    if let Some(high_left) = current_pos.checked_sub(10) {
        res.insert(high_left);
    }
    if let Some(high_right) = current_pos.checked_sub(6) {
        res.insert(high_right);
    }
    if let Some(low_left) = piece_checked_add(current_pos, 6) {
        res.insert(low_left);
    }
    if let Some(low_right) = piece_checked_add(current_pos, 10) {
        res.insert(low_right);
    }
    if let Some(bottom_left) = piece_checked_add(current_pos, 15) {
        res.insert(bottom_left);
    }
    if let Some(bottom_right) = piece_checked_add(current_pos, 17) {
        res.insert(bottom_right);
    }
    res
}

/// The open-board bishop destinations: the four full diagonals.
pub fn chk_move_bishop(current_pos: u8) -> (res: BoardHash)
    requires
        current_pos < 64,
    ensures
        forall|j: u8|
            j < 64 ==> (#[trigger] res.has(j) <==> solo_bishop_ok(current_pos as int, j as int)),
{
    let mut res = BoardHash::new();
    full_ray(current_pos, Dir::NorthWest, &mut res);
    full_ray(current_pos, Dir::NorthEast, &mut res);
    full_ray(current_pos, Dir::SouthWest, &mut res);
    full_ray(current_pos, Dir::SouthEast, &mut res);
    res
}

/// The open-board rook destinations: the full row and column.
pub fn chk_move_rook(current_pos: u8) -> (res: BoardHash)
    requires
        current_pos < 64,
    ensures
        forall|j: u8|
            j < 64 ==> (#[trigger] res.has(j) <==> solo_rook_ok(current_pos as int, j as int)),
{
    let mut res = BoardHash::new();
    full_ray(current_pos, Dir::East, &mut res);
    full_ray(current_pos, Dir::West, &mut res);
    full_ray(current_pos, Dir::North, &mut res);
    full_ray(current_pos, Dir::South, &mut res);
    res
}

/// The open-board queen destinations: the rook's and the bishop's united.
pub fn chk_move_queen(current_pos: u8) -> (res: BoardHash)
    requires
        current_pos < 64,
    ensures
        forall|j: u8|
            j < 64 ==> (#[trigger] res.has(j) <==> (solo_bishop_ok(current_pos as int, j as int)
                || solo_rook_ok(current_pos as int, j as int))),
{
    let moves = chk_move_bishop(current_pos);
    moves.union(chk_move_rook(current_pos))
}

/// The open-board king destinations: all eight single-step offsets, kept
/// whenever the plain checked arithmetic stays within 0..64.
#[verifier::rlimit(100)]
pub fn chk_move_king(current_pos: u8) -> (res: BoardHash)
    requires
        current_pos < 64,
    ensures
        forall|j: u8|
            j < 64 ==> (#[trigger] res.has(j) <==> solo_king_ok(current_pos as int, j as int)),
{
    let mut res = BoardHash::new();
    if let Some(bottom_left) = piece_checked_add(current_pos, 7) {
        res.insert(bottom_left);
    }
    if let Some(bottom) = piece_checked_add(current_pos, 8) {
        res.insert(bottom);
    }
    if let Some(bottom_right) = piece_checked_add(current_pos, 9) {
        res.insert(bottom_right);
    }
    if let Some(left) = current_pos.checked_sub(1) {
        res.insert(left);
    }
    if let Some(right) = piece_checked_add(current_pos, 1) {
        res.insert(right);
    }
    if let Some(top_left) = current_pos.checked_sub(9) {
        res.insert(top_left);
    }
    if let Some(top) = current_pos.checked_sub(8) {
        res.insert(top);
    }
    if let Some(top_right) = current_pos.checked_sub(7) {
        res.insert(top_right);
    }
    res
}

impl Piece {
    pub closed spec fn spec_kind(self) -> PieceType {
        self.kind
    }

    pub closed spec fn spec_color(self) -> Color {
        self.color
    }

    pub closed spec fn spec_position(self) -> u8 {
        self.position
    }

    pub closed spec fn spec_moved(self) -> bool {
        self.has_moved
    }

    /// The piece's open-board destinations from its position, by its kind.
    pub open spec fn spec_legal(self, j: int) -> bool {
        let p = self.spec_position() as int;
        match self.spec_kind() {
            PieceType::Pawn => solo_pawn_ok(p, self.spec_color(), self.spec_moved(), j),
            PieceType::Knight => solo_knight_ok(p, j),
            PieceType::Bishop => solo_bishop_ok(p, j),
            PieceType::Rook => solo_rook_ok(p, j),
            PieceType::Queen => solo_bishop_ok(p, j) || solo_rook_ok(p, j),
            PieceType::King => solo_king_ok(p, j),
        }
    }

    /// An unmoved pawn of this piece's color can take its two-square
    /// advance from the piece's position without leaving 0..64.
    pub open spec fn pawn_in_range(self) -> bool {
        self.spec_kind() != PieceType::Pawn || solo_pawn_in_range(
            self.spec_position() as int,
            self.spec_color(),
            self.spec_moved(),
        )
    }

    /// A new piece at square 0 that has not moved.
    pub fn new(pt: PieceType, col: Color) -> (r: Self)
        ensures
            r.spec_kind() == pt,
            r.spec_color() == col,
            r.spec_position() == 0,
            !r.spec_moved(),
    {
        Piece { kind: pt, color: col, position: 0, has_moved: false }
    }

    pub fn get_color(&self) -> (r: Color)
        ensures
            r == self.spec_color(),
    {
        self.color
    }

    pub fn get_type(&self) -> (r: PieceType)
        ensures
            r == self.spec_kind(),
    {
        self.kind
    }

    /// The compact piece byte: the kind in the low bits, the color above.
    pub fn get_i8(&self) -> (r: u8)
        ensures
            r == kind_bits(self.spec_kind()) + color_bits(self.spec_color()),
    {
        let k: u8 = match self.kind {
            PieceType::Pawn => 0,
            PieceType::Knight => 1,
            PieceType::Bishop => 2,
            PieceType::Rook => 3,
            PieceType::Queen => 4,
            PieceType::King => 5,
        };
        let c: u8 = match self.color {
            Color::White => 0,
            Color::Black => 8,
        };
        k + c
    }

    /// Moves the piece to `target` when `target` is among its open-board
    /// destinations, marking it moved; otherwise leaves it unchanged.
    pub fn try_to_move(&mut self, target: u8) -> (r: bool)
        requires
            old(self).spec_position() < 64,
            old(self).pawn_in_range(),
        ensures
            r == old(self).spec_legal((target % 64) as int),
            r ==> final(self).spec_kind() == old(self).spec_kind() && final(self).spec_color()
                == old(self).spec_color() && final(self).spec_position() == target
                && final(self).spec_moved(),
            !r ==> *final(self) == *old(self),
    {
        let moves = self.get_legal_moves();
        let hit = moves.contains(target);
        proof {
            let tm = target % 64;
            assert(moves.has(tm) <==> self.spec_legal(tm as int));
            assert(moves.has(target) == moves.has(tm));
        }
        if hit {
            self.has_moved = true;
            self.force_position(target);
            true
        } else {
            false
        }
    }

    /// Places the piece on `position` without marking it moved.
    pub fn force_position(&mut self, position: u8)
        ensures
            final(self).spec_kind() == old(self).spec_kind(),
            final(self).spec_color() == old(self).spec_color(),
            final(self).spec_moved() == old(self).spec_moved(),
            final(self).spec_position() == position,
    {
        self.position = position
    }

    pub fn get_position(&self) -> (r: u8)
        ensures
            r == self.spec_position(),
    {
        self.position
    }

    /// The piece's open-board destinations, by its kind.
    pub fn get_legal_moves(&self) -> (res: BoardHash)
        requires
            self.spec_position() < 64,
            self.pawn_in_range(),
        ensures
            forall|j: u8| j < 64 ==> (#[trigger] res.has(j) <==> self.spec_legal(j as int)),
    {
        match self.get_type() {
            PieceType::Pawn => chk_move_pawn(self.get_position(), self.get_color(), self.has_moved),
            PieceType::Knight => chk_move_knight(self.get_position()),
            PieceType::Bishop => chk_move_bishop(self.get_position()),
            PieceType::Rook => chk_move_rook(self.get_position()),
            PieceType::Queen => chk_move_queen(self.get_position()),
            PieceType::King => chk_move_king(self.get_position()),
        }
    }
}

} // verus!
