//! Core of a chess engine: a 64-square board holding a compact per-square
//! piece encoding next to an occupancy bit set, and per-piece-kind move
//! generation with edge and wraparound detection. Around the core stand an
//! algebraic-notation reader, the board's sparse serialized form, and a
//! simpler open-board move model kept as two per-color piece lists.
//!
//! Move generation covers movement rules only: check detection, en passant,
//! promotion and draw rules are out of scope. Castling is encoded as the king
//! moving onto the rook's square.

pub mod bitboard;
pub mod bits;
pub mod board;
pub mod board_hash;
pub mod geometry;
pub mod laws;
pub mod moves;
pub mod notation;
pub mod piece;
pub mod piece_board;
pub mod piece_moves;
pub mod sparse;
