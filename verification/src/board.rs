//! The board: 64 cells and an occupancy set that always agree. Every
//! mutation updates both in one operation, so occupancy bit `i` is set
//! exactly when cell `i` holds a piece.

use vstd::prelude::*;

use crate::bitboard::BitBoard;
use crate::geometry::{in_board, spec_step_add, spec_step_sub};
use crate::piece::{cell_is_empty, CellValue, ChessCell, Color, Moved, PieceType};

verus! {

/// A square index that may be absent: values above 63 stand for "no such
/// square".
#[derive(Clone, Copy, Debug, PartialEq, Eq, Structural)]
pub struct BoardIndex {
    i: u8,
}

impl BoardIndex {
    /// The index as an option: `None` when it is out of the board.
    pub closed spec fn spec_get(self) -> Option<u8> {
        if self.i > 63 {
            None
        } else {
            Some(self.i)
        }
    }

    pub fn new(u: u8) -> (r: Self)
        ensures
            r.spec_get() == (if u > 63 {
                None::<u8>
            } else {
                Some(u)
            }),
    {
        BoardIndex { i: u }
    }

    /// The absent index.
    pub fn none() -> (r: Self)
        ensures
            r.spec_get() == None::<u8>,
    {
        BoardIndex { i: 255 }
    }

    pub fn get(&self) -> (r: Option<u8>)
        ensures
            r == self.spec_get(),
    {
        if self.i > 63 {
            None
        } else {
            Some(self.i)
        }
    }
}

/// The 64 cells of the standard starting position: back ranks on rows 0
/// (black) and 7 (white), pawn ranks next to them, nothing else.
pub open spec fn start_cell(i: int) -> CellValue {
    if i == 0 || i == 7 {
        CellValue::Piece { kind: PieceType::Rook, color: Color::Black, moved: false }
    } else if i == 1 || i == 6 {
        CellValue::Piece { kind: PieceType::Knight, color: Color::Black, moved: false }
    } else if i == 2 || i == 5 {
        CellValue::Piece { kind: PieceType::Bishop, color: Color::Black, moved: false }
    } else if i == 3 {
        CellValue::Piece { kind: PieceType::Queen, color: Color::Black, moved: false }
    } else if i == 4 {
        CellValue::Piece { kind: PieceType::King, color: Color::Black, moved: false }
    } else if 8 <= i < 16 {
        CellValue::Piece { kind: PieceType::Pawn, color: Color::Black, moved: false }
    } else if 48 <= i < 56 {
        CellValue::Piece { kind: PieceType::Pawn, color: Color::White, moved: false }
    } else if i == 56 || i == 63 {
        CellValue::Piece { kind: PieceType::Rook, color: Color::White, moved: false }
    } else if i == 57 || i == 62 {
        CellValue::Piece { kind: PieceType::Knight, color: Color::White, moved: false }
    } else if i == 58 || i == 61 {
        CellValue::Piece { kind: PieceType::Bishop, color: Color::White, moved: false }
    } else if i == 59 {
        CellValue::Piece { kind: PieceType::Queen, color: Color::White, moved: false }
    } else if i == 60 {
        CellValue::Piece { kind: PieceType::King, color: Color::White, moved: false }
    } else {
        CellValue::Empty
    }
}

pub open spec fn start_cells() -> Seq<CellValue> {
    Seq::new(64, |i: int| start_cell(i))
}

/// Occupancy of the starting position: the two 16-square bands.
pub open spec fn start_mask() -> u64 {
    0xffff00000000ffffu64
}

/// The moved copy of a cell's piece; an empty cell stays empty.
pub open spec fn moved_cell(c: CellValue) -> CellValue {
    match c {
        CellValue::Empty => CellValue::Empty,
        CellValue::Piece { kind, color, .. } => CellValue::Piece { kind, color, moved: true },
    }
}

/// A coordinate pair becomes a square index; row 0 of the index space is
/// the top of the `y` axis.
pub open spec fn spec_coords_to_index(x: u8, y: u8) -> Option<u8> {
    if x < 8 && y < 8 {
        Some(((7 - y as int) * 8 + x as int) as u8)
    } else {
        None
    }
}

/// The column letter of algebraic notation as a column number.
pub open spec fn spec_notation_to_x(x: char) -> Option<u8> {
    if 97 <= (x as int) && (x as int) < 105 {
        Some((x as int - 97) as u8)
    } else {
        None
    }
}

/// A notation square (column letter and rank number) as its index.
pub open spec fn spec_notation_to_index(x: char, y: u8) -> Option<u8> {
    if 97 <= (x as int) && (x as int) < 105 && 1 <= y && y <= 8 {
        Some((((8 - y as int) * 8) + (x as int - 97)) as u8)
    } else {
        None
    }
}

/// The board.
#[derive(Clone, Debug, PartialEq, Eq)]
pub struct Board {
    board: [ChessCell; 64],
    occupation: BitBoard,
}

impl Board {
    /// The 64 cell values, by square index.
    pub closed spec fn cells(self) -> Seq<CellValue> {
        self.board@.map(|k: int, c: ChessCell| c@)
    }

    /// The cell value at square `i`.
    pub open spec fn cell(self, i: int) -> CellValue {
        self.cells()[i]
    }

    /// The occupancy set.
    pub closed spec fn occ_set(self) -> BitBoard {
        self.occupation
    }

    /// The occupancy mask.
    pub open spec fn occ_mask(self) -> u64 {
        self.occ_set().mask()
    }

    /// Whether square `i` is occupied.
    pub open spec fn occupied(self, i: int) -> bool {
        in_board(i) && self.occ_set().has(i as u8)
    }

    /// The board's invariant: a square's occupancy bit is set exactly when
    /// its cell holds a piece.
    pub open spec fn wf(self) -> bool {
        self.cells().len() == 64 && forall|i: int|
            0 <= i < 64 ==> (self.occupied(i) <==> #[trigger] self.cell(i) != CellValue::Empty)
    }

    /// The color of the piece at `i`; white when the square is empty (the
    /// move generators only read it under a non-empty cell).
    pub open spec fn color_of(self, i: int) -> Color {
        match self.cell(i) {
            CellValue::Piece { color, .. } => color,
            CellValue::Empty => Color::White,
        }
    }

    /// A wholly empty board.
    pub fn empty() -> (r: Self)
        ensures
            r.wf(),
            r.occ_mask() == 0,
            r.cells() == Seq::new(64, |i: int| CellValue::Empty),
            forall|i: int| 0 <= i < 64 ==> #[trigger] r.cell(i) == CellValue::Empty,
    {
        let r = Board { board: [ChessCell::new();64], occupation: BitBoard::new() };
        proof {
            assert(r.cells() =~= Seq::new(64, |i: int| CellValue::Empty));
        }
        r
    }

    /// Writes `piece` into the cell at `position` and marks `position`
    /// occupied, in one operation.
    pub fn add_piece(&mut self, piece: ChessCell, position: u8)
        requires
            old(self).wf(),
            position < 64,
            !cell_is_empty(piece@),
        ensures
            final(self).wf(),
            final(self).cells() == old(self).cells().update(position as int, piece@),
            final(self).occ_mask() == old(self).occ_mask() | (1u64 << (position as u64)),
    {
        self.board[position as usize] = piece;
        self.occupation.insert(position);
        proof {
            assert(self.cells() =~= old(self).cells().update(position as int, piece@));
            assert((position % 64) as u64 == position as u64);
            assert forall|i: int|
                0 <= i < 64 implies (self.occupied(i) <==> #[trigger] self.cell(i)
                != CellValue::Empty) by {
                assert(self.occupation.has(i as u8) == (old(self).occupation.has(i as u8) || (
                i as u8) % 64 == position % 64));
                assert(self.cell(i) == (if i == position as int {
                    piece@
                } else {
                    old(self).cell(i)
                }));
                assert(old(self).occupied(i) <==> old(self).cell(i) != CellValue::Empty);
            }
        }
    }

    /// The standard starting position, nothing moved.
    #[verifier::rlimit(100)]
    pub fn new() -> (r: Self)
        ensures
            r.wf(),
            r.cells() == start_cells(),
            r.occ_mask() == start_mask(),
    {
        let mut board: [ChessCell; 64] = [ChessCell::new();64];
        board[0] = ChessCell::with_piece(PieceType::Rook, Color::Black, Moved::No);
        board[1] = ChessCell::with_piece(PieceType::Knight, Color::Black, Moved::No);
        board[2] = ChessCell::with_piece(PieceType::Bishop, Color::Black, Moved::No);
        board[3] = ChessCell::with_piece(PieceType::Queen, Color::Black, Moved::No);
        board[4] = ChessCell::with_piece(PieceType::King, Color::Black, Moved::No);
        board[5] = ChessCell::with_piece(PieceType::Bishop, Color::Black, Moved::No);
        board[6] = ChessCell::with_piece(PieceType::Knight, Color::Black, Moved::No);
        board[7] = ChessCell::with_piece(PieceType::Rook, Color::Black, Moved::No);
        proof {
            assert forall|t: int| 0 <= t < 64 implies board@[t]@ == (if t < 8 {
                start_cell(t)
            } else {
                CellValue::Empty
            }) by {}
        }
        let b_pawn = ChessCell::with_piece(PieceType::Pawn, Color::Black, Moved::No);
        let mut k: u8 = 8;
        while k < 16
            invariant
                8 <= k <= 16,
                b_pawn@ == (CellValue::Piece {
                    kind: PieceType::Pawn,
                    color: Color::Black,
                    moved: false,
                }),
                forall|t: int|
                    0 <= t < 64 ==> #[trigger] board@[t]@ == (if t < k {
                        start_cell(t)
                    } else {
                        CellValue::Empty
                    }),
            decreases 16 - k,
        {
            board[k as usize] = b_pawn;
            k = k + 1;
        }
        let w_pawn = ChessCell::with_piece(PieceType::Pawn, Color::White, Moved::No);
        let mut k: u8 = 48;
        while k < 56
            invariant
                48 <= k <= 56,
                w_pawn@ == (CellValue::Piece {
                    kind: PieceType::Pawn,
                    color: Color::White,
                    moved: false,
                }),
                forall|t: int|
                    0 <= t < 64 ==> #[trigger] board@[t]@ == (if t < 16 || 48 <= t < k {
                        start_cell(t)
                    } else {
                        CellValue::Empty
                    }),
            decreases 56 - k,
        {
            board[k as usize] = w_pawn;
            k = k + 1;
        }
        board[56] = ChessCell::with_piece(PieceType::Rook, Color::White, Moved::No);
        board[57] = ChessCell::with_piece(PieceType::Knight, Color::White, Moved::No);
        board[58] = ChessCell::with_piece(PieceType::Bishop, Color::White, Moved::No);
        board[59] = ChessCell::with_piece(PieceType::Queen, Color::White, Moved::No);
        board[60] = ChessCell::with_piece(PieceType::King, Color::White, Moved::No);
        board[61] = ChessCell::with_piece(PieceType::Bishop, Color::White, Moved::No);
        board[62] = ChessCell::with_piece(PieceType::Knight, Color::White, Moved::No);
        board[63] = ChessCell::with_piece(PieceType::Rook, Color::White, Moved::No);
        let r = Board { board, occupation: BitBoard::from_mask(0xffff00000000ffffu64) };
        proof {
            assert forall|i: int| 0 <= i < 64 implies r.cells()[i] == start_cell(i) by {}
            assert(r.cells() =~= start_cells());
            assert forall|i: int|
                0 <= i < 64 implies (r.occupied(i) <==> #[trigger] r.cell(i)
                != CellValue::Empty) by {
                let j = (i as u8 % 64) as u64;
                assert((0xffff00000000ffffu64 & (1u64 << j) != 0) <==> (j < 16 || 48 <= j < 64))
                    by (bit_vector)
                    requires
                        j < 64,
                ;
            }
        }
        r
    }

    /// Restores the starting position in place.
    pub fn reset(&mut self)
        ensures
            final(self).wf(),
            final(self).cells() == start_cells(),
            final(self).occ_mask() == start_mask(),
    {
        let n = Self::new();
        self.board = n.board;
        self.occupation = n.occupation;
        proof {
            assert(final(self).cells() =~= n.cells());
        }
    }

    /// The cell at square `index`.
    pub fn get_cell(&self, index: u8) -> (r: ChessCell)
        requires
            index < 64,
        ensures
            r@ == self.cell(index as int),
    {
        self.board[index as usize]
    }

    /// Whether square `index` is occupied.
    pub fn is_occupied(&self, index: u8) -> (r: bool)
        requires
            index < 64,
        ensures
            r == self.occupied(index as int),
    {
        self.occupation.contains(index)
    }

    /// The occupancy set, as a value.
    pub fn occupancy(&self) -> (r: BitBoard)
        ensures
            r == self.occ_set(),
    {
        self.occupation
    }

    /// The cell at coordinates `(x, y)`, or an empty cell when either
    /// coordinate is off the board.
    pub fn get_at_position(&self, x: u8, y: u8) -> (r: ChessCell)
        ensures
            r@ == (match spec_coords_to_index(x, y) {
                Some(i) => self.cell(i as int),
                None => CellValue::Empty,
            }),
    {
        let index = match Self::coords_to_index(x, y) {
            Some(i) => i,
            None => {
                return ChessCell::new();
            },
        };
        self.board[index as usize]
    }

    /// Coordinates to a square index; `None` off the board.
    pub fn coords_to_index(x: u8, y: u8) -> (r: Option<u8>)
        ensures
            r == spec_coords_to_index(x, y),
            r matches Some(i) ==> i < 64,
    {
        if x < 8 && y < 8 {
            Some((7 - y) * 8 + x)
        } else {
            None
        }
    }

    /// A notation column letter (`'a'` to `'h'`) to a column number.
    pub fn notation_to_x(x: char) -> (r: Option<u8>)
        ensures
            r == spec_notation_to_x(x),
    {
        let code = x as u32;
        if 97 <= code && code < 105 {
            Some((code - 97) as u8)
        } else {
            None
        }
    }

    /// A notation square (`'a'..='h'`, rank `1..=8`) to its index; `None`
    /// for anything else.
    pub fn notation_to_index(x: char, y: u8) -> (r: Option<u8>)
        ensures
            r == spec_notation_to_index(x, y),
            r matches Some(i) ==> i < 64,
    {
        let xv = match Self::notation_to_x(x) {
            Some(v) => v,
            None => {
                return None;
            },
        };
        Self::coords_to_index(xv, y.wrapping_sub(1))
    }

    /// Forward (index-increasing) step: checked addition, then the
    /// column-comparison wraparound rule of [`spec_step_add`].
    pub(crate) fn board_overflow_add(start: u8, b: u8, diag: bool) -> (r: BoardIndex)
        ensures
            r.spec_get() == spec_step_add(start, b, diag),
    {
        let res = match start.checked_add(b) {
            Some(r) => r,
            None => {
                return BoardIndex::none();
            },
        };
        if res > 63 {
            return BoardIndex::none();
        }
        let res_col = res % 8;
        let start_col = start % 8;
        if diag {
            if b > 8 {
                if res_col < start_col {
                    return BoardIndex::none();
                }
            } else {
                if res_col > start_col {
                    return BoardIndex::none();
                }
            }
        } else {
            if res_col < start_col {
                return BoardIndex::none();
            }
        }
        BoardIndex::new(res)
    }

    /// Backward (index-decreasing) step: checked subtraction, then the
    /// column-comparison wraparound rule of [`spec_step_sub`].
    pub(crate) fn board_underflow_sub(start: u8, b: u8, diag: bool) -> (r: BoardIndex)
        requires
            start < 64,
        ensures
            r.spec_get() == spec_step_sub(start, b, diag),
    {
        let res = match start.checked_sub(b) {
            Some(r) => r,
            None => {
                return BoardIndex::none();
            },
        };
        let res_col = res % 8;
        let start_col = start % 8;
        if diag {
            if b > 8 {
                if res_col > start_col {
                    return BoardIndex::none();
                }
            } else {
                if res_col < start_col {
                    return BoardIndex::none();
                }
            }
        } else {
            if res_col > start_col {
                return BoardIndex::none();
            }
        }
        BoardIndex::new(res)
    }

    /// Moves whatever stands at `index` to `target`, marking it moved and
    /// updating occupancy; a no-op when `index` is empty. No legality check
    /// is made: any destination square is accepted.
    pub fn move_piece_unchecked(&mut self, index: u8, target: u8)
        requires
            old(self).wf(),
            index < 64,
            target < 64,
        ensures
            final(self).wf(),
            cell_is_empty(old(self).cell(index as int)) ==> final(self).cells() == old(self).cells()
                && final(self).occ_mask() == old(self).occ_mask(),
            !cell_is_empty(old(self).cell(index as int)) ==> final(self).cells() == old(
                self).cells().update(index as int, CellValue::Empty).update(
                target as int,
                moved_cell(old(self).cell(index as int)),
            ) && final(self).occ_mask() == (old(self).occ_mask() & !(1u64 << (index as u64))) | (
            1u64 << (target as u64)),
    {
        let mut piece = self.board[index as usize];
        if !piece.is_empty() {
            piece.set_moved(true);
            self.board[index as usize] = ChessCell::new();
            self.board[target as usize] = piece;
            self.occupation.remove(index);
            self.occupation.insert(target);
            proof {
                assert((index % 64) as u64 == index as u64);
                assert((target % 64) as u64 == target as u64);
                assert(self.cells() =~= old(self).cells().update(
                    index as int,
                    CellValue::Empty,
                ).update(target as int, moved_cell(old(self).cell(index as int))));
                assert forall|i: int|
                    0 <= i < 64 implies (self.occupied(i) <==> #[trigger] self.cell(i)
                    != CellValue::Empty) by {
                    assert(self.occupation.has(i as u8) == ((old(self).occupation.has(i as u8) && (
                    i as u8) % 64 != index % 64) || (i as u8) % 64 == target % 64));
                    assert(self.cell(i) == (if i == target as int {
                        moved_cell(old(self).cell(index as int))
                    } else if i == index as int {
                        CellValue::Empty
                    } else {
                        old(self).cell(i)
                    }));
                    assert(old(self).occupied(i) <==> old(self).cell(i) != CellValue::Empty);
                }
            }
        } else {
            proof {
                assert(self.cells() =~= old(self).cells());
            }
        }
    }
}

} // verus!
