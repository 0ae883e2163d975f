use konig::bitboard::BitBoard;

#[test]
fn bitboard_combinators() {
    let a = BitBoard::from(0b1100u64);
    let b = BitBoard::from(0b1010u64);
    assert_eq!(u64::from(a & b), 0b1000);
    assert_eq!(u64::from(a | b), 0b1110);
    assert_eq!(u64::from(a ^ b), 0b0110);
    assert_eq!(u64::from(!a), !0b1100u64);

    let mut c = a;
    c &= b;
    assert_eq!(u64::from(c), 0b1000);
    let mut c = a;
    c |= b;
    assert_eq!(u64::from(c), 0b1110);
    let mut c = a;
    c ^= b;
    assert_eq!(u64::from(c), 0b0110);
}

#[test]
fn bitboard_membership() {
    let board = BitBoard::from((1u64 << 63) | (1u64 << 7) | 1);
    assert!(board.get(0));
    assert!(!board.get(1));
    assert!(board.get(7));
    assert!(board.get(63));
    assert!(!board.get(62));
}

#[test]
fn bitboard_walk_visits_sixty_four_squares_in_order() {
    let word = 0x8000_0001_0000_0021u64;
    let board = BitBoard::from(word);
    let mut walk = board.into_iter();
    for i in 0..64 {
        assert_eq!(walk.next(), Some((word >> i) & 1 == 1));
    }
    assert_eq!(walk.next(), None);
    assert_eq!(walk.next(), None);
}

#[test]
fn bitboard_to_and_from_bools() {
    let word = 0xDEAD_BEEF_0123_4567u64;
    let board = BitBoard::from(word);
    let bits = board.to_bools();
    assert_eq!(bits.len(), 64);
    for i in 0..64 {
        assert_eq!(bits[i], (word >> i) & 1 == 1);
    }
    assert_eq!(BitBoard::from_bools(&bits), board);
    let none = vec![false; 64];
    assert_eq!(u64::from(BitBoard::from_bools(&none)), 0);
    let all = vec![true; 64];
    assert_eq!(u64::from(BitBoard::from_bools(&all)), u64::MAX);
}
