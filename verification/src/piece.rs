//! Per-square piece encoding: a cell is empty or holds one piece together
//! with its color and a flag recording whether it has moved.

use vstd::prelude::*;

verus! {

/// The six chess piece kinds.
#[derive(Clone, Copy, Debug, PartialEq, Eq, Structural)]
pub enum PieceType {
    Pawn,
    Knight,
    Bishop,
    Rook,
    Queen,
    King,
}

/// The two sides.
#[derive(Clone, Copy, Debug, PartialEq, Eq, Structural)]
pub enum Color {
    White,
    Black,
}

/// Whether a freshly placed piece counts as already moved.
#[derive(Clone, Copy, Debug, PartialEq, Eq, Structural)]
pub enum Moved {
    No,
    Yes,
}

/// The state of one square: empty, or a piece with its color and
/// has-moved flag. The empty state is a distinct variant, so it can never
/// be confused with any piece.
#[derive(Clone, Copy, Debug, PartialEq, Eq, Structural)]
pub enum CellValue {
    Empty,
    Piece { kind: PieceType, color: Color, moved: bool },
}

/// One square of the board.
#[derive(Clone, Copy, Debug, PartialEq, Eq, Structural)]
pub struct ChessCell {
    state: CellValue,
}

pub open spec fn cell_is_empty(c: CellValue) -> bool {
    c == CellValue::Empty
}

/// The kind held by a cell; absent for an empty cell.
pub open spec fn cell_kind(c: CellValue) -> Option<PieceType> {
    match c {
        CellValue::Empty => None,
        CellValue::Piece { kind, .. } => Some(kind),
    }
}

/// The color held by a cell; absent for an empty cell.
pub open spec fn cell_color(c: CellValue) -> Option<Color> {
    match c {
        CellValue::Empty => None,
        CellValue::Piece { color, .. } => Some(color),
    }
}

/// The has-moved flag of a cell; absent for an empty cell.
pub open spec fn cell_moved(c: CellValue) -> Option<bool> {
    match c {
        CellValue::Empty => None,
        CellValue::Piece { moved, .. } => Some(moved),
    }
}

pub open spec fn moved_flag(m: Moved) -> bool {
    m == Moved::Yes
}

/// The error of [`PieceType::from_char`]: the character was not a piece
/// letter.
#[derive(Clone, Copy, Debug, PartialEq, Eq, Structural)]
pub struct PieceTypeError {
    invalid_char: char,
}

impl PieceTypeError {
    /// The rejected character.
    pub closed spec fn spec_invalid_char(self) -> char {
        self.invalid_char
    }

    pub fn invalid_char(&self) -> (r: char)
        ensures
            r == self.spec_invalid_char(),
    {
        self.invalid_char
    }
}

/// The piece kind named by a letter of algebraic notation, either case.
pub open spec fn piece_of_char(c: char) -> Option<PieceType> {
    if c == 'P' || c == 'p' {
        Some(PieceType::Pawn)
    } else if c == 'N' || c == 'n' {
        Some(PieceType::Knight)
    } else if c == 'B' || c == 'b' {
        Some(PieceType::Bishop)
    } else if c == 'R' || c == 'r' {
        Some(PieceType::Rook)
    } else if c == 'Q' || c == 'q' {
        Some(PieceType::Queen)
    } else if c == 'K' || c == 'k' {
        Some(PieceType::King)
    } else {
        None
    }
}

impl PieceType {
    /// Reads a piece letter of algebraic notation, either case; any other
    /// character is an error carrying that character.
    pub fn from_char(value: char) -> (r: Result<PieceType, PieceTypeError>)
        ensures
            match r {
                Ok(t) => piece_of_char(value) == Some(t),
                Err(e) => piece_of_char(value) is None && e.spec_invalid_char() == value,
            },
    {
        match value {
            'P' | 'p' => Ok(PieceType::Pawn),
            'N' | 'n' => Ok(PieceType::Knight),
            'B' | 'b' => Ok(PieceType::Bishop),
            'R' | 'r' => Ok(PieceType::Rook),
            'Q' | 'q' => Ok(PieceType::Queen),
            'K' | 'k' => Ok(PieceType::King),
            _ => Err(PieceTypeError { invalid_char: value }),
        }
    }
}

impl View for ChessCell {
    type V = CellValue;

    closed spec fn view(&self) -> CellValue {
        self.state
    }
}

impl ChessCell {
    /// A new, empty cell.
    pub fn new() -> (r: Self)
        ensures
            r@ == CellValue::Empty,
    {
        ChessCell { state: CellValue::Empty }
    }

    pub fn is_empty(&self) -> (r: bool)
        ensures
            r == cell_is_empty(self@),
    {
        match self.state {
            CellValue::Empty => true,
            CellValue::Piece { .. } => false,
        }
    }

    /// A cell holding the given piece.
    pub fn with_piece(pt: PieceType, col: Color, moved: Moved) -> (r: Self)
        ensures
            r@ == (CellValue::Piece { kind: pt, color: col, moved: moved_flag(moved) }),
    {
        ChessCell {
            state: CellValue::Piece {
                kind: pt,
                color: col,
                moved: match moved {
                    Moved::No => false,
                    Moved::Yes => true,
                },
            },
        }
    }

    /// Overwrites the cell with the given piece.
    pub fn set_piece(&mut self, pt: PieceType, col: Color, moved: Moved)
        ensures
            final(self)@ == (CellValue::Piece { kind: pt, color: col, moved: moved_flag(moved) }),
    {
        *self = ChessCell::with_piece(pt, col, moved);
    }

    /// The cell's color, or `None` if the cell is empty.
    pub fn get_color(&self) -> (r: Option<Color>)
        ensures
            r == cell_color(self@),
    {
        match self.state {
            CellValue::Empty => None,
            CellValue::Piece { color, .. } => Some(color),
        }
    }

    /// Whether the piece has moved, or `None` if the cell is empty.
    pub fn has_moved(&self) -> (r: Option<bool>)
        ensures
            r == cell_moved(self@),
    {
        match self.state {
            CellValue::Empty => None,
            CellValue::Piece { moved, .. } => Some(moved),
        }
    }

    /// The cell's piece kind, or `None` if the cell is empty.
    pub fn get_type(&self) -> (r: Option<PieceType>)
        ensures
            r == cell_kind(self@),
    {
        match self.state {
            CellValue::Empty => None,
            CellValue::Piece { kind, .. } => Some(kind),
        }
    }

    /// Empties the cell.
    pub fn clear(&mut self)
        ensures
            final(self)@ == CellValue::Empty,
    {
        self.state = CellValue::Empty;
    }

    /// Replaces the piece kind, keeping color and has-moved flag. On an
    /// empty cell this creates a white piece that has not moved.
    pub fn set_type(&mut self, t: PieceType)
        ensures
            final(self)@ == (match old(self)@ {
                CellValue::Empty => CellValue::Piece { kind: t, color: Color::White, moved: false },
                CellValue::Piece { color, moved, .. } => CellValue::Piece {
                    kind: t,
                    color,
                    moved,
                },
            }),
    {
        self.state = match self.state {
            CellValue::Empty => CellValue::Piece { kind: t, color: Color::White, moved: false },
            CellValue::Piece { color, moved, .. } => CellValue::Piece { kind: t, color, moved },
        };
    }

    /// Replaces the color of the piece; an empty cell is left unchanged.
    pub fn set_color(&mut self, col: Color)
        ensures
            final(self)@ == (match old(self)@ {
                CellValue::Empty => CellValue::Empty,
                CellValue::Piece { kind, moved, .. } => CellValue::Piece { kind, color: col, moved },
            }),
    {
        self.state = match self.state {
            CellValue::Empty => CellValue::Empty,
            CellValue::Piece { kind, moved, .. } => CellValue::Piece { kind, color: col, moved },
        };
    }

    /// Replaces the has-moved flag of the piece; an empty cell is left
    /// unchanged.
    pub fn set_moved(&mut self, moved: bool)
        ensures
            final(self)@ == (match old(self)@ {
                CellValue::Empty => CellValue::Empty,
                CellValue::Piece { kind, color, .. } => CellValue::Piece { kind, color, moved },
            }),
    {
        self.state = match self.state {
            CellValue::Empty => CellValue::Empty,
            CellValue::Piece { kind, color, .. } => CellValue::Piece { kind, color, moved },
        };
    }
}

} // verus!
