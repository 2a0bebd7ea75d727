use chess_rs::board_hash::BoardHash;

fn collect_hash(b: BoardHash) -> Vec<u8> {
    let mut v: Vec<u8> = Vec::new();
    let mut it = b.iter();
    while let Some(x) = it.next() {
        v.push(x);
    }
    v
}

#[test]
fn board_hash_test_board_hash() {
    let mut hasher = BoardHash::new();

    for i in 0..62 {
        hasher.insert(i);
        assert_eq!(hasher.contains(i), true);
    }

    assert_eq!(hasher.contains(63), false);

    hasher.remove(1);

    assert_eq!(hasher.contains(1), false);

    let v: Vec<u8> = collect_hash(hasher);

    assert_eq!(v.len(), 61)
}

#[test]
fn test_board_hash() {
    let mut hasher = BoardHash::new();

    for i in 0..62 {
        hasher.insert(i);
        assert_eq!(hasher.contains(i), true);
    }

    assert_eq!(hasher.contains(63), false);

    hasher.remove(1);

    assert_eq!(hasher.contains(1), false);
}
