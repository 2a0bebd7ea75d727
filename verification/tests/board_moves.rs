use chess_rs::bitboard::BitBoard;
use chess_rs::board::Board;
use chess_rs::piece::{ChessCell, Color, Moved, PieceType};

fn squares(b: BitBoard) -> Vec<u8> {
    let mut v: Vec<u8> = Vec::new();
    let mut it = b.iter();
    while let Some(x) = it.next() {
        v.push(x);
    }
    v
}

#[test]
fn occupancy_matches_cells() {
    let mut b = Board::new();
    b.move_piece_unchecked(52, 36);
    b.add_piece(
        ChessCell::with_piece(PieceType::Knight, Color::Black, Moved::Yes),
        30,
    );
    for i in 0..64 {
        assert_eq!(b.is_occupied(i), !b.get_cell(i).is_empty());
    }
}

#[test]
fn reset_restores_start() {
    let mut b = Board::new();
    b.move_piece_unchecked(52, 36);
    b.move_piece_unchecked(6, 21);
    b.reset();
    assert!(b == Board::new());

    let mut e = Board::empty();
    e.add_piece(
        ChessCell::with_piece(PieceType::Queen, Color::White, Moved::Yes),
        0,
    );
    e.reset();
    assert!(e == Board::new());
}

#[test]
fn knight_counts() {
    let mut b = Board::empty();
    b.add_piece(
        ChessCell::with_piece(PieceType::Knight, Color::White, Moved::No),
        27,
    );
    let central = squares(b.get_legal_moves(27));
    assert_eq!(central, vec![10, 12, 17, 21, 33, 37, 42, 44]);
    assert_eq!(central.len(), 8);

    let mut c = Board::empty();
    c.add_piece(
        ChessCell::with_piece(PieceType::Knight, Color::White, Moved::No),
        0,
    );
    let corner = squares(c.get_legal_moves(0));
    assert_eq!(corner, vec![10, 17]);
    assert_eq!(corner.len(), 2);
}

#[test]
fn pawn_double_step_gating() {
    let mut b = Board::new();
    let before = b.get_legal_moves(52);
    assert!(before.contains(44));
    assert!(before.contains(36));
    b.move_piece_unchecked(52, 44);
    let after = b.get_legal_moves(44);
    assert!(after.contains(36));
    assert!(!after.contains(28));
    assert_eq!(squares(after), vec![36]);
}

#[test]
fn pawn_captures_only_diagonally() {
    let mut b = Board::empty();
    b.add_piece(
        ChessCell::with_piece(PieceType::Pawn, Color::White, Moved::Yes),
        36,
    );
    b.add_piece(
        ChessCell::with_piece(PieceType::Pawn, Color::Black, Moved::Yes),
        28,
    );
    b.add_piece(
        ChessCell::with_piece(PieceType::Pawn, Color::Black, Moved::Yes),
        27,
    );
    b.add_piece(
        ChessCell::with_piece(PieceType::Pawn, Color::White, Moved::Yes),
        29,
    );
    // forward blocked by the enemy pawn; one enemy diagonal; one friendly
    assert_eq!(squares(b.get_legal_moves(36)), vec![27]);
}

#[test]
fn rook_capture_vs_block() {
    let mut b = Board::empty();
    b.add_piece(
        ChessCell::with_piece(PieceType::Rook, Color::White, Moved::No),
        24,
    );
    b.add_piece(
        ChessCell::with_piece(PieceType::Pawn, Color::White, Moved::No),
        28,
    );
    let blocked = b.get_legal_moves(24);
    // east: exactly the three empty squares before the friendly pawn
    assert!(blocked.contains(25) && blocked.contains(26) && blocked.contains(27));
    assert!(!blocked.contains(28) && !blocked.contains(29));

    let mut e = Board::empty();
    e.add_piece(
        ChessCell::with_piece(PieceType::Rook, Color::White, Moved::No),
        24,
    );
    e.add_piece(
        ChessCell::with_piece(PieceType::Pawn, Color::Black, Moved::No),
        28,
    );
    let capture = e.get_legal_moves(24);
    // east: the three empty squares plus the enemy square, nothing beyond
    assert!(capture.contains(25) && capture.contains(26) && capture.contains(27));
    assert!(capture.contains(28));
    assert!(!capture.contains(29) && !capture.contains(30) && !capture.contains(31));
}

#[test]
fn bishop_stays_on_diagonal() {
    let mut b = Board::empty();
    b.add_piece(
        ChessCell::with_piece(PieceType::Bishop, Color::Black, Moved::No),
        0,
    );
    assert_eq!(squares(b.get_legal_moves(0)), vec![9, 18, 27, 36, 45, 54, 63]);
}

#[test]
fn queen_is_rook_plus_bishop() {
    let mut b = Board::empty();
    b.add_piece(
        ChessCell::with_piece(PieceType::Queen, Color::White, Moved::No),
        0,
    );
    let q = b.get_legal_moves(0);
    let mut expect: Vec<u8> = Vec::new();
    for j in 1..8 {
        expect.push(j); // the row
    }
    for r in 1..8 {
        expect.push(8 * r); // the column
        expect.push(9 * r); // the diagonal
    }
    expect.sort();
    assert_eq!(squares(q), expect);
}

#[test]
fn castle_gating() {
    let mut b = Board::new();
    // in the starting position the white king has no destinations at all:
    // every neighbor is friendly and both castling paths are blocked
    assert!(b.get_legal_moves(60).is_empty());

    // clear the kingside path (bishop f1, knight g1 move away)
    b.move_piece_unchecked(61, 20);
    b.move_piece_unchecked(62, 21);
    let moves = b.get_legal_moves(60);
    // the kingside rook's home square is now a king destination
    assert!(moves.contains(63));
    // the queenside path is still blocked
    assert!(!moves.contains(56));
    // the vacated bishop square is an ordinary king step
    assert!(moves.contains(61));
}

#[test]
fn castle_needs_unmoved_rook() {
    let mut b = Board::new();
    b.move_piece_unchecked(61, 20);
    b.move_piece_unchecked(62, 21);
    // move the kingside rook away and back: the path is free but the rook
    // has moved
    b.move_piece_unchecked(63, 39);
    b.move_piece_unchecked(39, 63);
    assert!(!b.get_legal_moves(60).contains(63));
}

#[test]
fn sparse_round_trip() {
    let mut b = Board::new();
    b.move_piece_unchecked(52, 36);
    b.move_piece_unchecked(12, 28);
    let sparse = b.to_sparse();
    assert_eq!(sparse.len(), 32);
    let rebuilt = Board::from_sparse(&sparse);
    assert!(rebuilt == b);

    let empty_sparse = Board::empty().to_sparse();
    assert_eq!(empty_sparse.len(), 0);
    assert!(Board::from_sparse(&empty_sparse) == Board::empty());
}

#[test]
fn sparse_is_ascending_and_occupied() {
    let b = Board::new();
    let sparse = b.to_sparse();
    for w in sparse.windows(2) {
        assert!(w[0].0 < w[1].0);
    }
    for (i, cell) in &sparse {
        assert!(b.is_occupied(*i));
        assert!(!cell.is_empty());
    }
}

#[test]
fn move_piece_unchecked_semantics() {
    let mut b = Board::new();
    // moving from an empty square is a no-op
    b.move_piece_unchecked(36, 0);
    assert!(b == Board::new());
    // an unchecked move accepts any destination and marks the piece moved
    b.move_piece_unchecked(48, 30);
    assert!(b.get_cell(48).is_empty());
    assert_eq!(b.get_cell(30).get_type(), Some(PieceType::Pawn));
    assert_eq!(b.get_cell(30).has_moved(), Some(true));
    assert!(!b.is_occupied(48));
    assert!(b.is_occupied(30));
}

#[test]
fn get_at_position_reads_coordinates() {
    let b = Board::new();
    // (4, 0) is the white king's home square
    assert_eq!(b.get_at_position(4, 0).get_type(), Some(PieceType::King));
    assert_eq!(b.get_at_position(4, 0).get_color(), Some(Color::White));
    // (3, 7) is the black queen's home square
    assert_eq!(b.get_at_position(3, 7).get_type(), Some(PieceType::Queen));
    assert_eq!(b.get_at_position(3, 7).get_color(), Some(Color::Black));
    // off the board: an empty cell, never a panic
    assert!(b.get_at_position(8, 0).is_empty());
    assert!(b.get_at_position(0, 255).is_empty());
    // an empty in-range square
    assert!(b.get_at_position(4, 4).is_empty());
}

#[test]
fn notation_conversions() {
    assert_eq!(Board::notation_to_x('a'), Some(0));
    assert_eq!(Board::notation_to_x('h'), Some(7));
    assert_eq!(Board::notation_to_x('i'), None);
    assert_eq!(Board::notation_to_x('A'), None);
    assert_eq!(Board::notation_to_index('e', 1), Some(60));
    assert_eq!(Board::notation_to_index('e', 2), Some(52));
    assert_eq!(Board::notation_to_index('a', 8), Some(0));
    assert_eq!(Board::notation_to_index('h', 1), Some(63));
    assert_eq!(Board::notation_to_index('e', 0), None);
    assert_eq!(Board::notation_to_index('e', 9), None);
    assert_eq!(Board::notation_to_index('z', 4), None);
    assert_eq!(Board::coords_to_index(0, 0), Some(56));
    assert_eq!(Board::coords_to_index(7, 7), Some(7));
    assert_eq!(Board::coords_to_index(8, 0), None);
}

#[test]
fn empty_square_has_no_moves() {
    let b = Board::new();
    assert!(b.get_legal_moves(36).is_empty());
}

#[test]
fn king_steps_avoid_friends() {
    let mut b = Board::empty();
    b.add_piece(
        ChessCell::with_piece(PieceType::King, Color::White, Moved::Yes),
        27,
    );
    b.add_piece(
        ChessCell::with_piece(PieceType::Pawn, Color::White, Moved::Yes),
        28,
    );
    b.add_piece(
        ChessCell::with_piece(PieceType::Pawn, Color::Black, Moved::Yes),
        26,
    );
    let m = b.get_legal_moves(27);
    assert!(!m.contains(28)); // friendly
    assert!(m.contains(26)); // capture
    assert_eq!(squares(m), vec![18, 19, 20, 26, 34, 35, 36]);
}

#[test]
fn move_to_same_square_marks_moved() {
    let mut b = Board::new();
    b.move_piece_unchecked(48, 48);
    assert_eq!(b.get_cell(48).get_type(), Some(PieceType::Pawn));
    assert_eq!(b.get_cell(48).has_moved(), Some(true));
    assert!(b.is_occupied(48));
}

#[test]
fn add_piece_overwrites_square() {
    let mut b = Board::empty();
    b.add_piece(
        ChessCell::with_piece(PieceType::Pawn, Color::White, Moved::No),
        33,
    );
    b.add_piece(
        ChessCell::with_piece(PieceType::Queen, Color::Black, Moved::Yes),
        33,
    );
    assert_eq!(b.get_cell(33).get_type(), Some(PieceType::Queen));
    assert_eq!(b.get_cell(33).get_color(), Some(Color::Black));
    assert!(b.is_occupied(33));
    assert_eq!(b.to_sparse().len(), 1);
}

#[test]
fn rook_on_edge_squares() {
    let mut b = Board::empty();
    b.add_piece(
        ChessCell::with_piece(PieceType::Rook, Color::Black, Moved::No),
        63,
    );
    let m = b.get_legal_moves(63);
    // the full last row and last column, nothing wrapped
    assert_eq!(
        squares(m),
        vec![7, 15, 23, 31, 39, 47, 55, 56, 57, 58, 59, 60, 61, 62]
    );
}

#[test]
fn checked_move_gates_on_legality() {
    let mut b = Board::new();
    // a knight's jump is accepted
    assert!(b.move_piece_checked(62, 45));
    assert_eq!(b.get_cell(45).get_type(), Some(PieceType::Knight));
    assert!(b.get_cell(62).is_empty());
    // a rook cannot jump over pawns: the board is unchanged
    let before = b.clone();
    assert!(!b.move_piece_checked(63, 39));
    assert!(b == before);
    // moving from an empty square is rejected
    assert!(!b.move_piece_checked(36, 28));
}
