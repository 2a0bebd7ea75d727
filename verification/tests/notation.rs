use chess_rs::notation::{
    get_index_from_chars, parse_notation, parse_simple_pawn, parse_simple_piece, start_notation,
    GameResult, Move, SpecialMove, CAPTURE, PROMOTE_QUEEN,
};
use chess_rs::piece::{Color, PieceType};

#[test]
fn index_from_chars() {
    assert_eq!(get_index_from_chars(['e', '2']), Some(52));
    assert_eq!(get_index_from_chars(['a', '8']), Some(0));
    assert_eq!(get_index_from_chars(['h', '1']), Some(63));
    assert_eq!(get_index_from_chars(['e', '9']), None);
    assert_eq!(get_index_from_chars(['e', '0']), None);
    assert_eq!(get_index_from_chars(['i', '2']), None);
}

#[test]
fn simple_moves() {
    match parse_simple_pawn(['e', '4']) {
        Some(Move::Move(data, i)) => {
            assert_eq!(i, 36);
            assert_eq!(data.piece, Some(PieceType::Pawn));
            assert_eq!(data.x, None);
            assert_eq!(data.y, None);
        },
        other => panic!("unexpected parse: {:?}", other),
    }
    assert_eq!(parse_simple_pawn(['e', 'x']), None);
    match parse_simple_piece(['Q', 'd', '3']) {
        Some(Move::Move(data, i)) => {
            assert_eq!(i, 43);
            assert_eq!(data.piece, Some(PieceType::Queen));
        },
        other => panic!("unexpected parse: {:?}", other),
    }
    assert_eq!(parse_simple_piece(['z', 'd', '3']), None);
}

#[test]
fn parse_pawn_and_piece() {
    match parse_notation("e4", Color::White) {
        Some(Move::Move(data, i)) => {
            assert_eq!(i, 36);
            assert_eq!(data.piece, Some(PieceType::Pawn));
        },
        other => panic!("unexpected parse: {:?}", other),
    }
    match parse_notation("Nf3", Color::White) {
        Some(Move::Move(data, i)) => {
            assert_eq!(i, 45);
            assert_eq!(data.piece, Some(PieceType::Knight));
        },
        other => panic!("unexpected parse: {:?}", other),
    }
}

#[test]
fn parse_castles() {
    match parse_notation("0-0", Color::White) {
        Some(Move::Castle(data, i)) => {
            assert_eq!(i, 62);
            assert_eq!(data.piece, Some(PieceType::King));
            assert_eq!(data.x, Some('e'));
            assert_eq!(data.y, Some(1));
        },
        other => panic!("unexpected parse: {:?}", other),
    }
    match parse_notation("o-o-o", Color::Black) {
        Some(Move::Castle(data, i)) => {
            assert_eq!(i, 2);
            assert_eq!(data.y, Some(8));
        },
        other => panic!("unexpected parse: {:?}", other),
    }
}

#[test]
fn parse_game_results() {
    assert_eq!(parse_notation("1-0", Color::White), Some(Move::End(GameResult::White)));
    assert_eq!(parse_notation("0-1", Color::White), Some(Move::End(GameResult::Black)));
    assert_eq!(
        parse_notation("\u{00bd}-\u{00bd}", Color::White),
        Some(Move::End(GameResult::Draw))
    );
}

#[test]
fn parse_general_forms() {
    // a capture with the destination named
    match parse_notation("Qxd3", Color::White) {
        Some(Move::Move(data, i)) => {
            assert_eq!(i, 43);
            assert_eq!(data.piece, Some(PieceType::Queen));
            assert!(data.special.contains(CAPTURE));
        },
        other => panic!("unexpected parse: {:?}", other),
    }
    // a check mark ahead of the destination
    match parse_notation("Q+d3", Color::White) {
        Some(Move::Check(data, i)) => {
            assert_eq!(i, 43);
            assert_eq!(data.piece, Some(PieceType::Queen));
        },
        other => panic!("unexpected parse: {:?}", other),
    }
    // a column disambiguation
    match parse_notation("Rad1", Color::White) {
        Some(Move::Move(data, i)) => {
            assert_eq!(i, 59);
            assert_eq!(data.x, Some('a'));
        },
        other => panic!("unexpected parse: {:?}", other),
    }
    // the destination scan keeps the latest column candidate, so a mark
    // after the destination makes the move unreadable
    assert_eq!(parse_notation("Qd3+", Color::White), None);
    assert_eq!(parse_notation("Pe8(Q)", Color::White), None);
    // no destination at all
    assert_eq!(parse_notation("Qxxx", Color::White), None);
}

#[test]
fn special_move_flags() {
    let mut s = SpecialMove::empty();
    assert!(!s.contains(CAPTURE));
    s.set(CAPTURE, true);
    assert!(s.contains(CAPTURE));
    assert!(!s.contains(PROMOTE_QUEEN));
    s.set(CAPTURE, false);
    assert!(!s.contains(CAPTURE));
}

#[test]
fn start_notation_places_pieces() {
    let b = start_notation("Ke1 Ra4", Color::White).unwrap();
    let king = b.get_at_position(4, 0);
    assert_eq!(king.get_type(), Some(PieceType::King));
    assert_eq!(king.get_color(), Some(Color::White));
    assert_eq!(king.has_moved(), Some(false));
    let rook = b.get_at_position(0, 3);
    assert_eq!(rook.get_type(), Some(PieceType::Rook));
    assert_eq!(b.to_sparse().len(), 2);

    assert!(start_notation("", Color::White).is_none());
    assert!(start_notation("Ke1 ", Color::White).is_none());
    assert!(start_notation("Ke9", Color::White).is_none());
    assert!(start_notation("Xe1", Color::White).is_none());
}
