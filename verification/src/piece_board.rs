//! A board kept as two piece lists: 16 white and 16 black pieces, each
//! knowing its own position, with a 64-entry index array mapping squares
//! to list slots. An index entry packs the slot number with a color flag;
//! a reserved value marks an empty square.

use vstd::prelude::*;

use crate::board::start_cell;
use crate::piece::{CellValue, Color, PieceType};
use crate::piece_moves::Piece;

verus! {

/// A packed slot reference: a slot number 0..16 with a color flag, or the
/// reserved "none" byte for an empty square.
#[derive(Clone, Copy, Debug, PartialEq, Eq, Structural)]
pub struct BoardOption {
    raw: u8,
}

impl BoardOption {
    pub closed spec fn spec_raw(self) -> u8 {
        self.raw
    }

    /// Whether the reference is the reserved empty marker.
    pub open spec fn spec_is_none(self) -> bool {
        self.spec_raw() == 255
    }

    /// The side whose list the slot belongs to; absent for the marker.
    pub open spec fn spec_color(self) -> Option<Color> {
        if self.spec_is_none() {
            None
        } else if self.spec_raw() & 0x40 != 0 {
            Some(Color::Black)
        } else {
            Some(Color::White)
        }
    }

    /// The slot number, with the color flag stripped; 255 for the marker.
    pub open spec fn spec_index(self) -> u8 {
        if self.spec_is_none() {
            255
        } else {
            self.spec_raw() & 0xbf
        }
    }

    /// A reference into `col`'s list at slot `inner`; the empty marker
    /// when `inner` is no slot number.
    pub fn new(inner: u8, col: Color) -> (r: Self)
        ensures
            inner >= 16 ==> r.spec_is_none(),
            inner < 16 ==> !r.spec_is_none() && r.spec_color() == Some(col) && r.spec_index()
                == inner,
    {
        if inner >= 16 {
            return BoardOption { raw: 255 };
        }
        proof {
            assert(inner < 16 ==> (inner | 0x40u8) != 255 && ((inner | 0x40u8) & 0x40u8) != 0 && ((
            inner | 0x40u8) & 0xbfu8) == inner) by (bit_vector);
            assert(inner < 16 ==> (inner & 0x40u8) == 0 && (inner & 0xbfu8) == inner)
                by (bit_vector);
        }
        match col {
            Color::White => BoardOption { raw: inner },
            Color::Black => BoardOption { raw: inner | 0x40 },
        }
    }

    fn is_none(&self) -> (r: bool)
        ensures
            r == self.spec_is_none(),
    {
        self.raw == 255
    }

    fn get_color(&self) -> (r: Option<Color>)
        ensures
            r == self.spec_color(),
    {
        if self.is_none() {
            return None;
        }
        if (self.raw & 0x40) != 0 {
            Some(Color::Black)
        } else {
            Some(Color::White)
        }
    }

    fn get(&self) -> (r: u8)
        ensures
            r == self.spec_index(),
    {
        if self.is_none() {
            255
        } else {
            self.raw & 0xbf
        }
    }
}

/// A piece of `col` standing on `pos`, not yet moved.
fn placed_piece(pt: PieceType, col: Color, pos: u8) -> (r: Piece)
    ensures
        r.spec_kind() == pt,
        r.spec_color() == col,
        r.spec_position() == pos,
        !r.spec_moved(),
{
    let mut p = Piece::new(pt, col);
    p.force_position(pos);
    p
}

/// The board as two piece lists and a square-to-slot index.
#[derive(Debug)]
pub struct Board {
    board: [BoardOption; 64],
    white: [Piece; 16],
    black: [Piece; 16],
}

impl Board {
    pub closed spec fn opt_at(self, i: int) -> BoardOption {
        self.board@[i]
    }

    pub closed spec fn white_at(self, k: int) -> Piece {
        self.white@[k]
    }

    pub closed spec fn black_at(self, k: int) -> Piece {
        self.black@[k]
    }

    /// The piece a slot reference points to; absent for the empty marker.
    pub open spec fn from_option(self, o: BoardOption) -> Option<Piece> {
        match o.spec_color() {
            None => None,
            Some(Color::White) => Some(self.white_at(o.spec_index() as int)),
            Some(Color::Black) => Some(self.black_at(o.spec_index() as int)),
        }
    }

    /// The piece standing on square `i`, if any.
    pub open spec fn piece_at(self, i: int) -> Option<Piece> {
        self.from_option(self.opt_at(i))
    }

    /// Every slot reference of the index array is the empty marker or a
    /// slot number below 16.
    pub open spec fn wf(self) -> bool {
        forall|i: int|
            0 <= i < 64 ==> ((#[trigger] self.opt_at(i)).spec_is_none() || self.opt_at(
                i,
            ).spec_index() < 16)
    }

    fn coords_to_index(x: u8, y: u8) -> (r: Option<usize>)
        ensures
            r == (if x < 8 && y < 8 {
                Some((y * 8 + x) as usize)
            } else {
                None::<usize>
            }),
    {
        if x < 8 && y < 8 {
            Some((y as usize) * 8 + (x as usize))
        } else {
            None
        }
    }

    /// The standard starting position: each side's sixteen pieces on their
    /// home squares, nothing moved, every other square empty.
    pub fn new() -> (r: Self)
        ensures
            r.wf(),
            forall|i: int|
                0 <= i < 64 ==> (match #[trigger] start_cell(i) {
                    CellValue::Empty => r.piece_at(i) is None,
                    CellValue::Piece { kind, color, .. } => (match r.piece_at(i) {
                        Some(p) => p.spec_kind() == kind && p.spec_color() == color
                            && p.spec_position() == i as u8 && !p.spec_moved(),
                        None => false,
                    }),
                }),
    {
        let mut black: [Piece; 16] = [Piece::new(PieceType::Pawn, Color::Black);16];
        black[0] = placed_piece(PieceType::Rook, Color::Black, 0);
        black[1] = placed_piece(PieceType::Knight, Color::Black, 1);
        black[2] = placed_piece(PieceType::Bishop, Color::Black, 2);
        black[3] = placed_piece(PieceType::Queen, Color::Black, 3);
        black[4] = placed_piece(PieceType::King, Color::Black, 4);
        black[5] = placed_piece(PieceType::Bishop, Color::Black, 5);
        black[6] = placed_piece(PieceType::Knight, Color::Black, 6);
        black[7] = placed_piece(PieceType::Rook, Color::Black, 7);
        black[8] = placed_piece(PieceType::Pawn, Color::Black, 8);
        black[9] = placed_piece(PieceType::Pawn, Color::Black, 9);
        black[10] = placed_piece(PieceType::Pawn, Color::Black, 10);
        black[11] = placed_piece(PieceType::Pawn, Color::Black, 11);
        black[12] = placed_piece(PieceType::Pawn, Color::Black, 12);
        black[13] = placed_piece(PieceType::Pawn, Color::Black, 13);
        black[14] = placed_piece(PieceType::Pawn, Color::Black, 14);
        black[15] = placed_piece(PieceType::Pawn, Color::Black, 15);
        let mut white: [Piece; 16] = [Piece::new(PieceType::Pawn, Color::White);16];
        white[0] = placed_piece(PieceType::Rook, Color::White, 56);
        white[1] = placed_piece(PieceType::Knight, Color::White, 57);
        white[2] = placed_piece(PieceType::Bishop, Color::White, 58);
        white[3] = placed_piece(PieceType::Queen, Color::White, 59);
        white[4] = placed_piece(PieceType::King, Color::White, 60);
        white[5] = placed_piece(PieceType::Bishop, Color::White, 61);
        white[6] = placed_piece(PieceType::Knight, Color::White, 62);
        white[7] = placed_piece(PieceType::Rook, Color::White, 63);
        white[8] = placed_piece(PieceType::Pawn, Color::White, 48);
        white[9] = placed_piece(PieceType::Pawn, Color::White, 49);
        white[10] = placed_piece(PieceType::Pawn, Color::White, 50);
        white[11] = placed_piece(PieceType::Pawn, Color::White, 51);
        white[12] = placed_piece(PieceType::Pawn, Color::White, 52);
        white[13] = placed_piece(PieceType::Pawn, Color::White, 53);
        white[14] = placed_piece(PieceType::Pawn, Color::White, 54);
        white[15] = placed_piece(PieceType::Pawn, Color::White, 55);
        let mut board: [BoardOption; 64] = [BoardOption::new(255, Color::White);64];
        let mut k: u8 = 0;
        while k < 16
            invariant
                k <= 16,
                forall|t: int| 0 <= t < 64 ==> (#[trigger] board@[t]).spec_is_none() || (t < k
                    && board@[t].spec_color() == Some(Color::Black) && board@[t].spec_index() == t),
                forall|t: int| 0 <= t < k ==> !(#[trigger] board@[t]).spec_is_none(),
            decreases 16 - k,
        {
            board[k as usize] = BoardOption::new(k, Color::Black);
            k = k + 1;
        }
        let mut k: u8 = 48;
        while k < 64
            invariant
                48 <= k <= 64,
                forall|t: int|
                    0 <= t < 16 ==> !(#[trigger] board@[t]).spec_is_none() && board@[t].spec_color()
                        == Some(Color::Black) && board@[t].spec_index() == t,
                forall|t: int| 16 <= t < 64 ==> (#[trigger] board@[t]).spec_is_none() || (48 <= t
                    < k && board@[t].spec_color() == Some(Color::White) && board@[t].spec_index()
                    == (if t >= 56 {
                        t - 56
                    } else {
                        t - 40
                    })),
                forall|t: int| 48 <= t < k ==> !(#[trigger] board@[t]).spec_is_none(),
            decreases 64 - k,
        {
            let slot = if k >= 56 {
                k - 56
            } else {
                k - 40
            };
            board[k as usize] = BoardOption::new(slot, Color::White);
            k = k + 1;
        }
        let r = Board { board, white, black };
        proof {
            assert forall|i: int| 0 <= i < 64 implies (match #[trigger] start_cell(i) {
                CellValue::Empty => r.piece_at(i) is None,
                CellValue::Piece { kind, color, .. } => (match r.piece_at(i) {
                    Some(p) => p.spec_kind() == kind && p.spec_color() == color
                        && p.spec_position() == i as u8 && !p.spec_moved(),
                    None => false,
                }),
            }) by {
                if i < 16 {
                    assert(r.piece_at(i) == Some(r.black_at(i)));
                } else if i >= 56 {
                    assert(r.piece_at(i) == Some(r.white_at(i - 56)));
                } else if i >= 48 {
                    assert(r.piece_at(i) == Some(r.white_at(i - 40)));
                }
            }
        }
        r
    }

    /// The piece a slot reference points to.
    fn get_from_option(&self, option: BoardOption) -> (r: Option<Piece>)
        requires
            option.spec_is_none() || option.spec_index() < 16,
        ensures
            r == self.from_option(option),
    {
        let col = match option.get_color() {
            Some(c) => c,
            None => {
                return None;
            },
        };
        let index = option.get() as usize;
        match col {
            Color::Black => Some(self.black[index]),
            Color::White => Some(self.white[index]),
        }
    }

    /// The piece standing at coordinates `(x, y)`, or `None` when the
    /// square is empty or off the board.
    pub fn get_at_position(&self, x: u8, y: u8) -> (r: Option<Piece>)
        requires
            self.wf(),
        ensures
            r == (if x < 8 && y < 8 {
                self.piece_at(y as int * 8 + x as int)
            } else {
                None::<Piece>
            }),
    {
        let index = match Self::coords_to_index(x, y) {
            Some(i) => i,
            None => {
                return None;
            },
        };
        let piece = self.board[index];
        self.get_from_option(piece)
    }
}

} // verus!
