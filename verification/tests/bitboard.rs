use chess_rs::bitboard::BitBoard;

fn collect_bits(b: BitBoard) -> Vec<u8> {
    let mut v: Vec<u8> = Vec::new();
    let mut it = b.iter();
    while let Some(x) = it.next() {
        v.push(x);
    }
    v
}

#[test]
fn bitboard_test_board_hash() {
    let mut hasher = BitBoard::new();

    for i in 0..62 {
        hasher.insert(i);
        assert_eq!(hasher.contains(i), true);
    }

    assert_eq!(hasher.contains(63), false);

    hasher.remove(1);

    assert_eq!(hasher.contains(1), false);

    let v: Vec<u8> = collect_bits(hasher);

    assert_eq!(v.len(), 61)
}

#[test]
fn bitboard_iter_ascending_and_len() {
    let mut b = BitBoard::new();
    b.insert(9);
    b.insert(63);
    b.insert(0);
    b.insert(40);
    let mut it = b.iter();
    assert_eq!(it.len(), 4);
    assert_eq!(collect_bits(b), vec![0, 9, 40, 63]);
    assert_eq!(it.next(), Some(0));
    assert_eq!(it.len(), 3);
}

#[test]
fn bitboard_union_and_intersects() {
    let mut a = BitBoard::new();
    a.insert(3);
    a.insert(17);
    let mut b = BitBoard::new();
    b.insert(17);
    b.insert(60);
    let u = a.union(b);
    assert!(u.contains(3) && u.contains(17) && u.contains(60));
    assert!(!u.contains(4));
    assert!(a.intersects(b));
    let mut c = BitBoard::new();
    c.insert(2);
    assert!(!a.intersects(c));
    assert!(BitBoard::new().is_empty());
    assert!(!a.is_empty());
}

#[test]
fn bitboard_index_wraps_modulo_64() {
    let mut b = BitBoard::new();
    b.insert(64);
    assert!(b.contains(0));
    assert!(b.contains(64));
    b.remove(128);
    assert!(!b.contains(0));
    assert!(b.is_empty());
}
