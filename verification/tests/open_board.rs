use chess_rs::board_hash::BoardHash;
use chess_rs::piece::{Color, PieceType};
use chess_rs::piece_board::Board;
use chess_rs::piece_moves::{
    chk_move_bishop, chk_move_king, chk_move_knight, chk_move_pawn, chk_move_queen, chk_move_rook,
    Piece,
};

fn squares(b: BoardHash) -> Vec<u8> {
    let mut v: Vec<u8> = Vec::new();
    let mut it = b.iter();
    while let Some(x) = it.next() {
        v.push(x);
    }
    v
}

#[test]
fn open_knight_keeps_all_in_range_offsets() {
    assert_eq!(squares(chk_move_knight(27)), vec![10, 12, 17, 21, 33, 37, 42, 44]);
    // plain checked arithmetic: offsets that wrap an edge are kept
    assert_eq!(squares(chk_move_knight(0)), vec![6, 10, 15, 17]);
}

#[test]
fn open_rook_covers_row_and_column() {
    let r = squares(chk_move_rook(0));
    assert_eq!(r, vec![1, 2, 3, 4, 5, 6, 7, 8, 16, 24, 32, 40, 48, 56]);
    let c = squares(chk_move_rook(27));
    assert_eq!(c.len(), 14);
    assert!(c.contains(&24) && c.contains(&31) && c.contains(&3) && c.contains(&59));
    assert!(!c.contains(&36));
}

#[test]
fn open_bishop_covers_diagonals() {
    assert_eq!(squares(chk_move_bishop(0)), vec![9, 18, 27, 36, 45, 54, 63]);
    let d = squares(chk_move_bishop(27));
    assert_eq!(d, vec![0, 6, 9, 13, 18, 20, 34, 36, 41, 45, 48, 54, 63]);
}

#[test]
fn open_queen_unions_both() {
    let q = squares(chk_move_queen(0));
    assert_eq!(q.len(), 21);
    assert!(q.contains(&7) && q.contains(&56) && q.contains(&63));
}

#[test]
fn open_king_keeps_all_in_range_offsets() {
    assert_eq!(squares(chk_move_king(27)), vec![18, 19, 20, 26, 28, 34, 35, 36]);
    // plain checked arithmetic: the wrap onto 7 is kept
    assert_eq!(squares(chk_move_king(0)), vec![1, 7, 8, 9]);
}

#[test]
fn open_pawn_moves() {
    assert_eq!(squares(chk_move_pawn(52, Color::White, false)), vec![36, 44]);
    assert_eq!(squares(chk_move_pawn(44, Color::White, true)), vec![36]);
    assert_eq!(squares(chk_move_pawn(12, Color::Black, false)), vec![20, 28]);
    assert_eq!(squares(chk_move_pawn(4, Color::White, true)), vec![]);
}

#[test]
fn piece_try_to_move() {
    let mut q = Piece::new(PieceType::Queen, Color::Black);
    assert!(q.try_to_move(7));
    assert_eq!(q.get_position(), 7);
    let mut n = Piece::new(PieceType::Knight, Color::White);
    assert!(!n.try_to_move(1));
    assert_eq!(n.get_position(), 0);
    assert!(n.try_to_move(17));
    assert_eq!(n.get_position(), 17);
}

#[test]
fn piece_board_start_position() {
    let b = Board::new();
    let king = b.get_at_position(4, 0).unwrap();
    assert_eq!(king.get_type(), PieceType::King);
    assert_eq!(king.get_color(), Color::Black);
    assert_eq!(king.get_position(), 4);
    let pawn = b.get_at_position(2, 6).unwrap();
    assert_eq!(pawn.get_type(), PieceType::Pawn);
    assert_eq!(pawn.get_color(), Color::White);
    assert_eq!(pawn.get_position(), 50);
    let rook = b.get_at_position(7, 7).unwrap();
    assert_eq!(rook.get_type(), PieceType::Rook);
    assert_eq!(rook.get_color(), Color::White);
    assert!(b.get_at_position(3, 3).is_none());
    assert!(b.get_at_position(8, 0).is_none());
}
