use chess_rs::piece::{ChessCell, Color, Moved, PieceType};
use chess_rs::piece_moves::Piece;

#[test]
fn piece_test_pieces() {
    let all_types = [
        PieceType::Pawn,
        PieceType::Knight,
        PieceType::Bishop,
        PieceType::Rook,
        PieceType::Queen,
        PieceType::King,
    ];
    let colors = [Color::White, Color::Black];

    for col in colors {
        for piece_type in all_types {
            let piece = ChessCell::with_piece(piece_type, col, Moved::Yes);
            assert_eq!(piece.get_color(), Some(col));
            assert_eq!(piece.get_type(), Some(piece_type));
            assert_eq!(piece.has_moved(), Some(true));
        }
    }
}

#[test]
fn test_pieces() {
    let all_types = [
        PieceType::Pawn,
        PieceType::Knight,
        PieceType::Bishop,
        PieceType::Rook,
        PieceType::Queen,
        PieceType::King,
    ];
    let colors = [Color::White, Color::Black];

    for col in colors {
        for piece_type in all_types {
            let piece = Piece::new(piece_type, col);
            assert_eq!(piece.get_color(), col);
            assert_eq!(piece.get_type(), piece_type);
        }
    }
}

#[test]
fn cell_empty_has_no_piece() {
    let c = ChessCell::new();
    assert!(c.is_empty());
    assert_eq!(c.get_color(), None);
    assert_eq!(c.get_type(), None);
    assert_eq!(c.has_moved(), None);
}

#[test]
fn cell_setters() {
    let mut c = ChessCell::new();
    c.set_type(PieceType::Bishop);
    assert_eq!(c.get_type(), Some(PieceType::Bishop));
    assert_eq!(c.get_color(), Some(Color::White));
    assert_eq!(c.has_moved(), Some(false));
    c.set_color(Color::Black);
    assert_eq!(c.get_color(), Some(Color::Black));
    c.set_moved(true);
    assert_eq!(c.has_moved(), Some(true));
    c.set_piece(PieceType::Queen, Color::White, Moved::No);
    assert_eq!(c.get_type(), Some(PieceType::Queen));
    c.clear();
    assert!(c.is_empty());

    let mut e = ChessCell::new();
    e.set_color(Color::Black);
    assert!(e.is_empty());
    e.set_moved(true);
    assert!(e.is_empty());
}

#[test]
fn piece_letter_round_trip() {
    assert_eq!(PieceType::from_char('q'), Ok(PieceType::Queen));
    assert_eq!(PieceType::from_char('K'), Ok(PieceType::King));
    assert_eq!(PieceType::from_char('n'), Ok(PieceType::Knight));
    let e = PieceType::from_char('x').unwrap_err();
    assert_eq!(e.invalid_char(), 'x');
}

#[test]
fn piece_packed_byte() {
    assert_eq!(Piece::new(PieceType::Pawn, Color::White).get_i8(), 0);
    assert_eq!(Piece::new(PieceType::King, Color::White).get_i8(), 5);
    assert_eq!(Piece::new(PieceType::Pawn, Color::Black).get_i8(), 8);
    assert_eq!(Piece::new(PieceType::Queen, Color::Black).get_i8(), 12);
}
