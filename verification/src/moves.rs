//! Move generation. Each generator returns the destination squares of the
//! piece at one square as a [`BitBoard`], with an exact membership
//! contract: a square is in the result exactly when the piece's movement
//! rule allows it. Sliding pieces walk rays square by square until the
//! board's edge, a capture, or a friendly blocker; stepping pieces try
//! fixed offsets with edge detection; the pawn and the king add their
//! special rules. [`Board::get_legal_moves`] dispatches by piece kind.

use vstd::prelude::*;

use crate::bitboard::BitBoard;
use crate::board::Board;
use crate::geometry::{
    adjacent, can_step, in_board, knight_ok, lemma_adjacent_step, lemma_no_step,
    lemma_ray_after_step, lemma_ray_total, lemma_ray_trans, lemma_square_id, lemma_step,
    lemma_step_matches, on_ray, ray_fuel, step_offset, Dir,
};
use crate::piece::{cell_color, cell_is_empty, cell_kind, CellValue, Color, PieceType};

verus! {

/// The forward direction of a pawn: white pawns move toward smaller
/// indices, black pawns toward larger ones.
pub open spec fn pawn_fwd(c: Color) -> Dir {
    match c {
        Color::White => Dir::North,
        Color::Black => Dir::South,
    }
}

/// One of the two forward-diagonal capture directions of a pawn.
pub open spec fn pawn_diag_a(c: Color) -> Dir {
    match c {
        Color::White => Dir::NorthEast,
        Color::Black => Dir::SouthWest,
    }
}

/// The other forward-diagonal capture direction of a pawn.
pub open spec fn pawn_diag_b(c: Color) -> Dir {
    match c {
        Color::White => Dir::NorthWest,
        Color::Black => Dir::SouthEast,
    }
}

/// Home square of the rook on the low-index side of a color's back rank.
pub open spec fn low_rook_sq(c: Color) -> int {
    match c {
        Color::Black => 0,
        Color::White => 56,
    }
}

/// Home square of the rook on the high-index side of a color's back rank.
pub open spec fn high_rook_sq(c: Color) -> int {
    match c {
        Color::Black => 7,
        Color::White => 63,
    }
}

/// Mask of the squares between a color's king home square and its
/// low-side rook's home square.
pub open spec fn low_castle_path(c: Color) -> u64 {
    match c {
        Color::Black => 0xeu64,
        Color::White => 0xe00000000000000u64,
    }
}

/// Mask of the squares between a color's king home square and its
/// high-side rook's home square.
pub open spec fn high_castle_path(c: Color) -> u64 {
    match c {
        Color::Black => 0x60u64,
        Color::White => 0x6000000000000000u64,
    }
}

impl Board {
    /// A pawn capture from `i` to `j` along the diagonal `d`: the step
    /// stays on the board and the destination holds the opposite color.
    pub open spec fn pawn_capture_ok(self, i: int, j: int, d: Dir, own: Color) -> bool {
        &&& can_step(i, d)
        &&& j == i + step_offset(d)
        &&& self.occupied(j)
        &&& cell_color(self.cell(j)) != Some(own)
    }

    /// A pawn move from `i` to `j`: the two-square advance when the pawn
    /// has not moved (included without an occupancy test), the one-square
    /// advance onto an empty square, or a capture along a forward
    /// diagonal. En passant is not modeled.
    pub open spec fn pawn_move_ok(self, i: int, j: int) -> bool {
        match self.cell(i) {
            CellValue::Piece { kind: PieceType::Pawn, color, moved } => {
                ||| (!moved && j == i + 2 * step_offset(pawn_fwd(color)))
                ||| (can_step(i, pawn_fwd(color)) && j == i + step_offset(pawn_fwd(color))
                    && !self.occupied(j))
                ||| self.pawn_capture_ok(i, j, pawn_diag_a(color), color)
                ||| self.pawn_capture_ok(i, j, pawn_diag_b(color), color)
            },
            _ => false,
        }
    }

    /// An unmoved pawn's two-square advance stays on the board. This is
    /// the condition under which the pawn generator's unchecked double
    /// step is safe; it holds wherever pawns start on their own rank.
    pub open spec fn pawn_double_in_range(self, i: int) -> bool {
        match self.cell(i) {
            CellValue::Piece { kind: PieceType::Pawn, color, moved } => moved || in_board(
                i + 2 * step_offset(pawn_fwd(color)),
            ),
            _ => true,
        }
    }

    /// A king move from `i` to `j` by a piece of color `own`, castling
    /// aside: one step in any direction, onto a square that is empty or
    /// holds the opposite color.
    pub open spec fn king_step_ok(self, i: int, j: int, own: Color) -> bool {
        &&& adjacent(i, j)
        &&& (!self.occupied(j) || cell_color(self.cell(j)) != Some(own))
    }

    /// Castling with the rook on square `rsq`: that square holds a rook of
    /// the king's color that has not moved, and no square of `path` (the
    /// squares between the king's and the rook's home squares) is
    /// occupied. Castling is encoded as the king moving onto `rsq`.
    pub open spec fn castle_ok(self, own: Color, rsq: int, path: u64) -> bool {
        &&& self.cell(rsq) == (CellValue::Piece { kind: PieceType::Rook, color: own, moved: false })
        &&& path & self.occ_mask() == 0
    }

    /// A king move from `i` to `j`: a single step, or — when the king has
    /// not moved — castling onto the home square of either rook.
    pub open spec fn king_move_ok(self, i: int, j: int) -> bool {
        match self.cell(i) {
            CellValue::Piece { kind: PieceType::King, color, moved } => {
                ||| self.king_step_ok(i, j, color)
                ||| (!moved && j == low_rook_sq(color) && self.castle_ok(
                    color,
                    low_rook_sq(color),
                    low_castle_path(color),
                ))
                ||| (!moved && j == high_rook_sq(color) && self.castle_ok(
                    color,
                    high_rook_sq(color),
                    high_castle_path(color),
                ))
            },
            _ => false,
        }
    }

    /// A sliding move from `i` to `j` along direction `d` for a piece of
    /// color `own`: `j` lies on the ray, every square strictly between is
    /// empty, and `j` itself is empty or holds the opposite color.
    pub open spec fn slide_ok(self, i: int, j: int, d: Dir, own: Color) -> bool {
        &&& on_ray(i, j, d)
        &&& (forall|t: int| #[trigger] on_ray(i, t, d) && on_ray(t, j, d) ==> !self.occupied(t))
        &&& (!self.occupied(j) || cell_color(self.cell(j)) != Some(own))
    }

    /// A rook move: a sliding move along one of the four orthogonal rays.
    pub open spec fn rook_rays_ok(self, i: int, j: int, own: Color) -> bool {
        ||| self.slide_ok(i, j, Dir::North, own)
        ||| self.slide_ok(i, j, Dir::South, own)
        ||| self.slide_ok(i, j, Dir::East, own)
        ||| self.slide_ok(i, j, Dir::West, own)
    }

    /// A bishop move: a sliding move along one of the four diagonal rays.
    pub open spec fn bishop_rays_ok(self, i: int, j: int, own: Color) -> bool {
        ||| self.slide_ok(i, j, Dir::NorthEast, own)
        ||| self.slide_ok(i, j, Dir::NorthWest, own)
        ||| self.slide_ok(i, j, Dir::SouthEast, own)
        ||| self.slide_ok(i, j, Dir::SouthWest, own)
    }

    /// The ray walk's state: `cur` is the last square reached (the origin
    /// `i` before any step), every ray square up to `cur` is empty and
    /// collected, and nothing else is collected.
    spec fn ray_inv(self, i: u8, cur: u8, legal: BitBoard, d: Dir) -> bool {
        &&& self.wf()
        &&& i < 64
        &&& cur < 64
        &&& (cur == i || on_ray(i as int, cur as int, d))
        &&& (forall|t: int|
            #[trigger] on_ray(i as int, t, d) && (t == cur as int || on_ray(t, cur as int, d))
                ==> !self.occupied(t) && legal.has(t as u8))
        &&& (forall|j: u8|
            j < 64 && #[trigger] legal.has(j) ==> on_ray(i as int, j as int, d) && (j == cur
                || on_ray(j as int, cur as int, d)))
    }

    /// At the board's edge the walk is done: the collected squares are
    /// exactly the sliding moves.
    proof fn lemma_ray_done_edge(self, i: u8, cur: u8, legal: BitBoard, d: Dir, own: Color)
        requires
            self.ray_inv(i, cur, legal, d),
            !can_step(cur as int, d),
        ensures
            forall|j: u8|
                j < 64 ==> (#[trigger] legal.has(j) <==> self.slide_ok(i as int, j as int, d, own)),
    {
        lemma_no_step(cur as int, d);
        assert forall|j: u8| j < 64 implies (#[trigger] legal.has(j) <==> self.slide_ok(
            i as int,
            j as int,
            d,
            own,
        )) by {
            let ji = j as int;
            if self.slide_ok(i as int, ji, d, own) {
                if !(j == cur || on_ray(ji, cur as int, d)) {
                    if cur != i {
                        lemma_ray_total(i as int, ji, cur as int, d);
                    }
                    assert(on_ray(cur as int, ji, d));
                    assert(false);
                }
                assert(on_ray(i as int, ji, d) && (ji == cur as int || on_ray(ji, cur as int, d)));
                assert(legal.has(j));
            }
            if legal.has(j) {
                assert(on_ray(i as int, ji, d) && (ji == cur as int || on_ray(ji, cur as int, d)));
                assert(!self.occupied(ji));
                assert forall|t: int|
                    #[trigger] on_ray(i as int, t, d) && on_ray(t, ji, d) implies !self.occupied(
                    t,
                ) by {
                    if j != cur {
                        lemma_ray_trans(t, ji, cur as int, d);
                    }
                }
            }
        }
    }

    /// A blocked walk is done: the collected squares, plus the blocker's
    /// square when it holds the opposite color, are exactly the sliding
    /// moves.
    #[verifier::rlimit(50)]
    proof fn lemma_ray_done_blocker(
        self,
        i: u8,
        cur: u8,
        nx: u8,
        before: BitBoard,
        after: BitBoard,
        d: Dir,
        own: Color,
        capture: bool,
    )
        requires
            self.ray_inv(i, cur, before, d),
            can_step(cur as int, d),
            nx as int == cur as int + step_offset(d),
            self.occupied(nx as int),
            capture == (cell_color(self.cell(nx as int)) != Some(own)),
            capture ==> forall|j: u8| #[trigger] after.has(j) == (before.has(j) || j % 64 == nx
                % 64),
            !capture ==> after == before,
        ensures
            forall|j: u8|
                j < 64 ==> (#[trigger] after.has(j) <==> self.slide_ok(i as int, j as int, d, own)),
    {
        lemma_step(cur as int, d);
        lemma_ray_after_step(cur as int, d);
        if cur != i {
            lemma_ray_trans(i as int, cur as int, nx as int, d);
        }
        assert(on_ray(i as int, nx as int, d));
        assert forall|j: u8| j < 64 implies (#[trigger] after.has(j) <==> self.slide_ok(
            i as int,
            j as int,
            d,
            own,
        )) by {
            let ji = j as int;
            if self.slide_ok(i as int, ji, d, own) {
                if j != nx && !(j == cur || on_ray(ji, cur as int, d)) {
                    lemma_ray_total(i as int, ji, nx as int, d);
                    if on_ray(ji, nx as int, d) {
                        if cur != i {
                            lemma_ray_total(i as int, ji, cur as int, d);
                        }
                        assert(on_ray(cur as int, ji, d) && on_ray(ji, nx as int, d));
                        assert(false);
                    }
                    assert(on_ray(nx as int, ji, d));
                    assert(on_ray(i as int, nx as int, d) && on_ray(nx as int, ji, d));
                    assert(!self.occupied(nx as int));
                    assert(false);
                }
                if j == nx {
                    assert(capture);
                    assert(after.has(j));
                } else {
                    assert(before.has(j));
                    assert(after.has(j));
                }
            }
            if after.has(j) {
                if before.has(j) {
                    assert(on_ray(i as int, ji, d) && (ji == cur as int || on_ray(
                        ji,
                        cur as int,
                        d,
                    )));
                    assert(!self.occupied(ji));
                    assert forall|t: int|
                        #[trigger] on_ray(i as int, t, d) && on_ray(t, ji, d) implies !self.occupied(
                        t,
                    ) by {
                        if j != cur {
                            lemma_ray_trans(t, ji, cur as int, d);
                        }
                    }
                } else {
                    assert(capture && j == nx);
                    assert forall|t: int|
                        #[trigger] on_ray(i as int, t, d) && on_ray(t, ji, d) implies !self.occupied(
                        t,
                    ) by {
                        if t != cur as int {
                            if cur == i {
                                assert(false);
                            } else {
                                lemma_ray_total(i as int, t, cur as int, d);
                                if on_ray(cur as int, t, d) {
                                    assert(false);
                                }
                            }
                        }
                    }
                    assert(self.slide_ok(i as int, ji, d, own));
                }
            }
        }
    }

    /// One step onto an empty square keeps the walk's state, with the new
    /// square collected.
    #[verifier::rlimit(50)]
    proof fn lemma_ray_advance(
        self,
        i: u8,
        cur: u8,
        nx: u8,
        before: BitBoard,
        after: BitBoard,
        d: Dir,
    )
        requires
            self.ray_inv(i, cur, before, d),
            can_step(cur as int, d),
            nx as int == cur as int + step_offset(d),
            !self.occupied(nx as int),
            forall|j: u8| #[trigger] after.has(j) == (before.has(j) || j % 64 == nx % 64),
        ensures
            self.ray_inv(i, nx, after, d),
            nx < 64,
    {
        lemma_step(cur as int, d);
        lemma_ray_after_step(cur as int, d);
        if cur != i {
            lemma_ray_trans(i as int, cur as int, nx as int, d);
        }
        assert(on_ray(i as int, nx as int, d));
        lemma_square_id(nx as int);
        assert forall|t: int|
            #[trigger] on_ray(i as int, t, d) && (t == nx as int || on_ray(t, nx as int, d))
                implies !self.occupied(t) && after.has(t as u8) by {
            if t != nx as int {
                if t != cur as int {
                    if cur == i {
                        assert(false);
                    } else {
                        lemma_ray_total(i as int, t, cur as int, d);
                        if on_ray(cur as int, t, d) {
                            assert(false);
                        }
                    }
                }
                lemma_square_id(t);
                assert(before.has(t as u8));
            }
        }
        assert forall|j: u8| j < 64 && #[trigger] after.has(j) implies on_ray(i as int, j as int, d)
            && (j == nx || on_ray(j as int, nx as int, d)) by {
            if j != nx {
                assert(before.has(j));
                if j == cur {
                    assert(on_ray(cur as int, nx as int, d));
                } else {
                    lemma_ray_trans(j as int, cur as int, nx as int, d);
                }
            }
        }
    }

    /// Walks the ray from `i` in direction `d`: empty squares are
    /// collected and the walk goes on; an occupied square is collected
    /// only on an opposite color, and the walk stops; the board's edge
    /// stops it too.
    fn ray_moves(&self, i: u8, d: Dir, own: Color) -> (legal: BitBoard)
        requires
            self.wf(),
            i < 64,
        ensures
            forall|j: u8|
                j < 64 ==> (#[trigger] legal.has(j) <==> self.slide_ok(i as int, j as int, d, own)),
    {
        let mut legal = BitBoard::new();
        let mut cur: u8 = i;
        loop
            invariant_except_break
                self.ray_inv(i, cur, legal, d),
            ensures
                forall|j: u8|
                    j < 64 ==> (#[trigger] legal.has(j) <==> self.slide_ok(
                        i as int,
                        j as int,
                        d,
                        own,
                    )),
            decreases ray_fuel(cur as int, d),
        {
            let step = match d {
                Dir::North => Board::board_underflow_sub(cur, 8, false),
                Dir::South => Board::board_overflow_add(cur, 8, false),
                Dir::East => Board::board_overflow_add(cur, 1, false),
                Dir::West => Board::board_underflow_sub(cur, 1, false),
                Dir::NorthEast => Board::board_underflow_sub(cur, 7, true),
                Dir::NorthWest => Board::board_underflow_sub(cur, 9, true),
                Dir::SouthEast => Board::board_overflow_add(cur, 9, true),
                Dir::SouthWest => Board::board_overflow_add(cur, 7, true),
            };
            proof {
                lemma_step_matches(cur, d);
            }
            match step.get() {
                None => {
                    proof {
                        self.lemma_ray_done_edge(i, cur, legal, d, own);
                    }
                    break ;
                },
                Some(nx) => {
                    if self.is_occupied(nx) {
                        let ghost before = legal;
                        let stop = self.get_cell(nx);
                        let capture = match stop.get_color() {
                            Some(c) => c != own,
                            None => false,
                        };
                        if capture {
                            legal.insert(nx);
                        }
                        proof {
                            self.lemma_ray_done_blocker(i, cur, nx, before, legal, d, own, capture);
                        }
                        break ;
                    } else {
                        let ghost before = legal;
                        legal.insert(nx);
                        proof {
                            self.lemma_ray_advance(i, cur, nx, before, legal, d);
                            lemma_step(cur as int, d);
                        }
                        cur = nx;
                    }
                },
            }
        }
        legal
    }

    /// The rook's destinations: ray walks along the four orthogonal
    /// directions.
    pub(crate) fn get_rook_moves(&self, i: u8) -> (legal: BitBoard)
        requires
            self.wf(),
            i < 64,
            !cell_is_empty(self.cell(i as int)),
        ensures
            forall|j: u8|
                j < 64 ==> (#[trigger] legal.has(j) <==> self.rook_rays_ok(
                    i as int,
                    j as int,
                    self.color_of(i as int),
                )),
    {
        let own = match self.get_cell(i).get_color() {
            Some(c) => c,
            None => vstd::pervasive::unreached(),
        };
        let north = self.ray_moves(i, Dir::North, own);
        let south = self.ray_moves(i, Dir::South, own);
        let east = self.ray_moves(i, Dir::East, own);
        let west = self.ray_moves(i, Dir::West, own);
        north.union(south).union(east).union(west)
    }

    /// The bishop's destinations: ray walks along the four diagonals.
    pub(crate) fn get_bishop_moves(&self, i: u8) -> (legal: BitBoard)
        requires
            self.wf(),
            i < 64,
            !cell_is_empty(self.cell(i as int)),
        ensures
            forall|j: u8|
                j < 64 ==> (#[trigger] legal.has(j) <==> self.bishop_rays_ok(
                    i as int,
                    j as int,
                    self.color_of(i as int),
                )),
    {
        let own = match self.get_cell(i).get_color() {
            Some(c) => c,
            None => vstd::pervasive::unreached(),
        };
        let ne = self.ray_moves(i, Dir::NorthEast, own);
        let nw = self.ray_moves(i, Dir::NorthWest, own);
        let se = self.ray_moves(i, Dir::SouthEast, own);
        let sw = self.ray_moves(i, Dir::SouthWest, own);
        ne.union(nw).union(se).union(sw)
    }

    /// The knight's destinations: the eight fixed offsets, each kept only
    /// when it stays on the board without wrapping an edge. Occupancy is
    /// not consulted: a knight's destinations are not ray-blocked, and
    /// friendly-occupied squares are not filtered out.
    #[verifier::rlimit(100)]
    pub(crate) fn get_knight_moves(&self, i: u8) -> (legal: BitBoard)
        requires
            i < 64,
        ensures
            forall|j: u8|
                j < 64 ==> (#[trigger] legal.has(j) <==> knight_ok(i as int, j as int)),
    {
        let r = i / 8;
        let c = i % 8;
        let mut legal = BitBoard::new();
        proof {
            lemma_square_id(i as int);
        }
        if r >= 2 && c >= 1 {
            legal.insert(i - 17);
        }
        if r >= 2 && c <= 6 {
            legal.insert(i - 15);
        }
        if r >= 1 && c >= 2 {
            legal.insert(i - 10);
        }
        if r >= 1 && c <= 5 {
            legal.insert(i - 6);
        }
        if r <= 6 && c >= 2 {
            legal.insert(i + 6);
        }
        if r <= 6 && c <= 5 {
            legal.insert(i + 10);
        }
        if r <= 5 && c >= 1 {
            legal.insert(i + 15);
        }
        if r <= 5 && c <= 6 {
            legal.insert(i + 17);
        }
        proof {
            assert forall|j: u8| j < 64 implies (#[trigger] legal.has(j) <==> knight_ok(
                i as int,
                j as int,
            )) by {
                lemma_square_id(j as int);
            }
        }
        legal
    }

    /// Tries the pawn's one-square advance from `i` in direction `fwd`:
    /// the target square is added when the step stays on the board and the
    /// square is empty.
    fn pawn_forward(&self, i: u8, fwd: Dir, legal: &mut BitBoard)
        requires
            self.wf(),
            i < 64,
        ensures
            forall|j: u8|
                j < 64 ==> (#[trigger] final(legal).has(j) <==> (old(legal).has(j) || (can_step(
                    i as int,
                    fwd,
                ) && j as int == i as int + step_offset(fwd) && !self.occupied(j as int)))),
    {
        let st = match fwd {
            Dir::North => Board::board_underflow_sub(i, 8, false),
            Dir::South => Board::board_overflow_add(i, 8, false),
            Dir::East => Board::board_overflow_add(i, 1, false),
            Dir::West => Board::board_underflow_sub(i, 1, false),
            Dir::NorthEast => Board::board_underflow_sub(i, 7, true),
            Dir::NorthWest => Board::board_underflow_sub(i, 9, true),
            Dir::SouthEast => Board::board_overflow_add(i, 9, true),
            Dir::SouthWest => Board::board_overflow_add(i, 7, true),
        };
        proof {
            lemma_step_matches(i, fwd);
            if can_step(i as int, fwd) {
                lemma_step(i as int, fwd);
            }
        }
        if let Some(s) = st.get() {
            if !self.is_occupied(s) {
                legal.insert(s);
            }
        }
    }

    /// Tries one pawn capture from `i` along the diagonal `d`: the target
    /// square is added when the step stays on the board and the square
    /// holds the opposite color.
    fn pawn_take(&self, i: u8, d: Dir, own: Color, legal: &mut BitBoard)
        requires
            self.wf(),
            i < 64,
        ensures
            forall|j: u8|
                j < 64 ==> (#[trigger] final(legal).has(j) <==> (old(legal).has(j)
                    || self.pawn_capture_ok(i as int, j as int, d, own))),
    {
        let st = match d {
            Dir::North => Board::board_underflow_sub(i, 8, false),
            Dir::South => Board::board_overflow_add(i, 8, false),
            Dir::East => Board::board_overflow_add(i, 1, false),
            Dir::West => Board::board_underflow_sub(i, 1, false),
            Dir::NorthEast => Board::board_underflow_sub(i, 7, true),
            Dir::NorthWest => Board::board_underflow_sub(i, 9, true),
            Dir::SouthEast => Board::board_overflow_add(i, 9, true),
            Dir::SouthWest => Board::board_overflow_add(i, 7, true),
        };
        proof {
            lemma_step_matches(i, d);
            if can_step(i as int, d) {
                lemma_step(i as int, d);
            }
        }
        if let Some(s) = st.get() {
            if self.is_occupied(s) {
                let cap = match self.get_cell(s).get_color() {
                    Some(c) => c != own,
                    None => false,
                };
                if cap {
                    legal.insert(s);
                }
            }
        }
    }

    /// The pawn's destinations. The two-square advance of an unmoved pawn
    /// is inserted without an occupancy test; the one-square advance only
    /// onto an empty square; the two forward diagonals only as captures.
    #[verifier::rlimit(100)]
    pub(crate) fn get_pawn_moves(&self, i: u8) -> (legal: BitBoard)
        requires
            self.wf(),
            i < 64,
            cell_kind(self.cell(i as int)) == Some(PieceType::Pawn),
            self.pawn_double_in_range(i as int),
        ensures
            forall|j: u8|
                j < 64 ==> (#[trigger] legal.has(j) <==> self.pawn_move_ok(i as int, j as int)),
    {
        let cell = self.get_cell(i);
        let own = match cell.get_color() {
            Some(c) => c,
            None => vstd::pervasive::unreached(),
        };
        let moved = match cell.has_moved() {
            Some(m) => m,
            None => vstd::pervasive::unreached(),
        };
        let mut legal = BitBoard::new();
        let fwd: Dir = match own {
            Color::Black => Dir::South,
            Color::White => Dir::North,
        };
        let diag_a: Dir = match own {
            Color::Black => Dir::SouthWest,
            Color::White => Dir::NorthEast,
        };
        let diag_b: Dir = match own {
            Color::Black => Dir::SouthEast,
            Color::White => Dir::NorthWest,
        };
        if !moved {
            match own {
                Color::Black => legal.insert(i + 16),
                Color::White => legal.insert(i - 16),
            }
        }
        self.pawn_forward(i, fwd, &mut legal);
        self.pawn_take(i, diag_a, own, &mut legal);
        self.pawn_take(i, diag_b, own, &mut legal);
        legal
    }

    /// Tries one king step from `i` in direction `d`: the target square is
    /// added unless the step leaves the board or the square holds a piece
    /// of the king's own color.
    fn king_step(&self, i: u8, d: Dir, own: Color, legal: &mut BitBoard)
        requires
            self.wf(),
            i < 64,
        ensures
            forall|j: u8|
                j < 64 ==> (#[trigger] final(legal).has(j) <==> (old(legal).has(j) || (can_step(
                    i as int,
                    d,
                ) && j as int == i as int + step_offset(d) && self.king_step_ok(
                    i as int,
                    j as int,
                    own,
                )))),
    {
        let st = match d {
            Dir::North => Board::board_underflow_sub(i, 8, false),
            Dir::South => Board::board_overflow_add(i, 8, false),
            Dir::East => Board::board_overflow_add(i, 1, false),
            Dir::West => Board::board_underflow_sub(i, 1, false),
            Dir::NorthEast => Board::board_underflow_sub(i, 7, true),
            Dir::NorthWest => Board::board_underflow_sub(i, 9, true),
            Dir::SouthEast => Board::board_overflow_add(i, 9, true),
            Dir::SouthWest => Board::board_overflow_add(i, 7, true),
        };
        proof {
            lemma_step_matches(i, d);
            if can_step(i as int, d) {
                lemma_step(i as int, d);
                lemma_square_id(i as int);
            }
        }
        if let Some(s) = st.get() {
            let allowed = if !self.is_occupied(s) {
                true
            } else {
                match self.get_cell(s).get_color() {
                    Some(c) => c != own,
                    None => true,
                }
            };
            if allowed {
                legal.insert(s);
            }
        }
    }

    /// The king's destinations: the eight single steps, each included
    /// unless its square holds a friendly piece; and, while the king has
    /// not moved, castling onto either rook's home square, when that
    /// square holds an unmoved rook of the same color and every square
    /// between the two home squares is unoccupied.
    #[verifier::rlimit(100)]
    pub(crate) fn get_king_moves(&self, i: u8) -> (legal: BitBoard)
        requires
            self.wf(),
            i < 64,
            cell_kind(self.cell(i as int)) == Some(PieceType::King),
        ensures
            forall|j: u8|
                j < 64 ==> (#[trigger] legal.has(j) <==> self.king_move_ok(i as int, j as int)),
    {
        let cell = self.get_cell(i);
        let own = match cell.get_color() {
            Some(c) => c,
            None => vstd::pervasive::unreached(),
        };
        let moved = match cell.has_moved() {
            Some(m) => m,
            None => vstd::pervasive::unreached(),
        };
        let mut legal = BitBoard::new();
        self.king_step(i, Dir::SouthWest, own, &mut legal);
        self.king_step(i, Dir::South, own, &mut legal);
        self.king_step(i, Dir::SouthEast, own, &mut legal);
        self.king_step(i, Dir::West, own, &mut legal);
        self.king_step(i, Dir::East, own, &mut legal);
        self.king_step(i, Dir::NorthWest, own, &mut legal);
        self.king_step(i, Dir::North, own, &mut legal);
        self.king_step(i, Dir::NorthEast, own, &mut legal);
        if !moved {
            let low_sq: u8;
            let high_sq: u8;
            let low_mask: u64;
            let high_mask: u64;
            match own {
                Color::Black => {
                    low_sq = 0;
                    high_sq = 7;
                    low_mask = 0xe;
                    high_mask = 0x60;
                },
                Color::White => {
                    low_sq = 56;
                    high_sq = 63;
                    low_mask = 0xe00000000000000;
                    high_mask = 0x6000000000000000;
                },
            }
            let low_cell = self.get_cell(low_sq);
            let low_rook = match (low_cell.get_type(), low_cell.get_color(), low_cell.has_moved()) {
                (Some(PieceType::Rook), Some(c), Some(false)) => c == own,
                _ => false,
            };
            if low_rook && !BitBoard::from_mask(low_mask).intersects(self.occupancy()) {
                legal.insert(low_sq);
            }
            let high_cell = self.get_cell(high_sq);
            let high_rook = match (
                high_cell.get_type(),
                high_cell.get_color(),
                high_cell.has_moved(),
            ) {
                (Some(PieceType::Rook), Some(c), Some(false)) => c == own,
                _ => false,
            };
            if high_rook && !BitBoard::from_mask(high_mask).intersects(self.occupancy()) {
                legal.insert(high_sq);
            }
        }
        proof {
            assert forall|j: u8| j < 64 implies (#[trigger] legal.has(j) <==> self.king_move_ok(
                i as int,
                j as int,
            )) by {
                if self.king_step_ok(i as int, j as int, own) {
                    lemma_adjacent_step(i as int, j as int);
                }
            }
        }
        legal
    }

    /// A legal move from `i` to `j` under the movement rules, by the kind
    /// of the piece at `i`; an empty square allows no move at all.
    pub open spec fn legal_move_ok(self, i: int, j: int) -> bool {
        match self.cell(i) {
            CellValue::Empty => false,
            CellValue::Piece { kind, .. } => match kind {
                PieceType::Pawn => self.pawn_move_ok(i, j),
                PieceType::Knight => knight_ok(i, j),
                PieceType::Bishop => self.bishop_rays_ok(i, j, self.color_of(i)),
                PieceType::Rook => self.rook_rays_ok(i, j, self.color_of(i)),
                PieceType::Queen => self.rook_rays_ok(i, j, self.color_of(i))
                    || self.bishop_rays_ok(i, j, self.color_of(i)),
                PieceType::King => self.king_move_ok(i, j),
            },
        }
    }

    /// The destination squares of the piece at `i`, by its kind; the empty
    /// set when the square is empty.
    pub fn get_legal_moves(&self, i: u8) -> (legal: BitBoard)
        requires
            self.wf(),
            i < 64,
            self.pawn_double_in_range(i as int),
        ensures
            forall|j: u8|
                j < 64 ==> (#[trigger] legal.has(j) <==> self.legal_move_ok(i as int, j as int)),
    {
        let c = self.get_cell(i);
        match c.get_type() {
            Some(PieceType::Pawn) => self.get_pawn_moves(i),
            Some(PieceType::Knight) => self.get_knight_moves(i),
            Some(PieceType::Bishop) => self.get_bishop_moves(i),
            Some(PieceType::Rook) => self.get_rook_moves(i),
            Some(PieceType::Queen) => self.get_queen_moves(i),
            Some(PieceType::King) => self.get_king_moves(i),
            None => BitBoard::new(),
        }
    }

    /// The legality gate around [`Board::move_piece_unchecked`]: applies
    /// the move exactly when `target` is among the generated destinations
    /// of the piece at `index`, and says whether it did.
    pub fn move_piece_checked(&mut self, index: u8, target: u8) -> (r: bool)
        requires
            old(self).wf(),
            index < 64,
            target < 64,
            old(self).pawn_double_in_range(index as int),
        ensures
            final(self).wf(),
            r == old(self).legal_move_ok(index as int, target as int),
            r ==> final(self).cells() == old(self).cells().update(
                index as int,
                CellValue::Empty,
            ).update(target as int, crate::board::moved_cell(old(self).cell(index as int)))
                && final(self).occ_mask() == (old(self).occ_mask() & !(1u64 << (index as u64))) | (
            1u64 << (target as u64)),
            !r ==> final(self).cells() == old(self).cells() && final(self).occ_mask() == old(
                self,
            ).occ_mask(),
    {
        if self.get_legal_moves(index).contains(target) {
            self.move_piece_unchecked(index, target);
            true
        } else {
            false
        }
    }

    /// The queen's destinations: the union of the bishop's and the rook's.
    pub(crate) fn get_queen_moves(&self, i: u8) -> (legal: BitBoard)
        requires
            self.wf(),
            i < 64,
            !cell_is_empty(self.cell(i as int)),
        ensures
            forall|j: u8|
                j < 64 ==> (#[trigger] legal.has(j) <==> (self.rook_rays_ok(
                    i as int,
                    j as int,
                    self.color_of(i as int),
                ) || self.bishop_rays_ok(i as int, j as int, self.color_of(i as int)))),
    {
        let bishop = self.get_bishop_moves(i);
        bishop.union(self.get_rook_moves(i))
    }
}

} // verus!
