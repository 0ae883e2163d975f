use konig::bitboard::BitBoard;
use konig::piece::{Piece, PieceColor, PieceRepresentationError, PieceType};
use konig::position::Position;
use konig::quadboard::{
    Nibble, NibbleDecode, NibbleDecodingError, NibbleEncode, QuadBoard, RawQuadBoard,
};

#[test]
fn quadboard_new_is_all_zero() {
    // the channels will all be zero iff their product is zero
    let qb = QuadBoard::<u8>::empty();
    let prod: u64 = qb
        .into_channels()
        .into_iter()
        .map(|board| u64::from(board))
        .product();

    assert!(prod == 0);
}

#[test]
fn quadboard_set_unchecked_is_correct() {
    let mut qb = QuadBoard::<u8>::empty();

    qb.set_unchecked(0b1111, 0);
    qb.set_unchecked(0b1101, 5);
    qb.set_unchecked(0b1111, 32);
    qb.set_unchecked(0b0111, 63);

    let lanes = qb.into_channels().map(|board| u64::from(board));
    for (i, lane) in lanes.iter().enumerate() {
        println!("channel {}: 0x{:016x}", i, lane);
    }

    // these values were chosen to match with the particular
    // values set above; changes to either will break the test
    assert_eq!(lanes[0], 0x8000000100000021);
    assert_eq!(lanes[1], 0x8000000100000001);
    assert_eq!(lanes[2], 0x8000000100000021);
    assert_eq!(lanes[3], 0x0000000100000021);
}

#[test]
fn quadboard_get_unchecked_is_correct() {
    let mut qb = QuadBoard::<u8>::empty();

    qb.set_unchecked(0b1111, 17);
    qb.set_unchecked(0b1001, 3);
    qb.set_unchecked(0b0100, 38);

    assert_eq!(0b1111, qb.get_unchecked(17));
    assert_eq!(0b1001, qb.get_unchecked(3));
    assert_eq!(0b0100, qb.get_unchecked(38));
}

#[test]
fn raw_quadboard_new_is_all_zero() {
    // the channels will all be zero iff their product is zero
    let qb = RawQuadBoard::default();
    let prod: u64 = qb
        .into_channels()
        .into_iter()
        .map(|board| u64::from(board))
        .product();

    assert!(prod == 0);
}

#[test]
fn raw_quadboard_set_unchecked_is_correct() {
    let mut rqb = RawQuadBoard::default();

    rqb.set_unchecked(Nibble::try_from(0b1111).unwrap(), 0);
    rqb.set_unchecked(Nibble::try_from(0b1101).unwrap(), 5);
    rqb.set_unchecked(Nibble::try_from(0b1111).unwrap(), 32);
    rqb.set_unchecked(Nibble::try_from(0b0111).unwrap(), 63);

    let lanes = rqb.into_channels().map(|board| u64::from(board));
    for (i, lane) in lanes.iter().enumerate() {
        println!("channel {}: 0x{:016x}", i, lane);
    }

    // these values were chosen to match with the particular
    // values set above; changes to either will break the test
    assert_eq!(lanes[0], 0x8000000100000021);
    assert_eq!(lanes[1], 0x8000000100000001);
    assert_eq!(lanes[2], 0x8000000100000021);
    assert_eq!(lanes[3], 0x0000000100000021);
}

#[test]
fn raw_quadboard_get_unchecked_is_correct() {
    let mut rqb = RawQuadBoard::default();

    rqb.set_unchecked(Nibble::try_from(0b1111).unwrap(), 17);
    rqb.set_unchecked(Nibble::try_from(0b1001).unwrap(), 3);
    rqb.set_unchecked(Nibble::try_from(0b0100).unwrap(), 38);

    assert_eq!(0b1111, rqb.get_unchecked(17).get());
    assert_eq!(0b1001, rqb.get_unchecked(3).get());
    assert_eq!(0b0100, rqb.get_unchecked(38).get());
}

#[test]
fn validate_position_try_get_and_try_write() {
    let mut pos = Position::empty();
    pos.try_write(
        4,
        Piece {
            color: PieceColor::White,
            kind: PieceType::Knight,
        },
    )
    .unwrap();

    let piece = pos.try_get(4).unwrap();
    assert_eq!(
        piece,
        Piece {
            color: PieceColor::White,
            kind: PieceType::Knight,
        }
    );
}

#[test]
fn position_refuses_squares_off_the_board() {
    let mut pos = Position::empty();
    let king = Piece { color: PieceColor::Black, kind: PieceType::King };
    assert_eq!(pos.try_write(64, king), Err(()));
    assert_eq!(pos.try_write(255, king), Err(()));
    assert_eq!(pos.try_write(63, king), Ok(()));
    assert_eq!(pos.try_get(63), Ok(king));
    assert_eq!(
        pos.try_get(62),
        Ok(Piece { color: PieceColor::Black, kind: PieceType::Empty })
    );
}

#[test]
fn write_then_read_every_square_and_nibble() {
    for index in 0u8..64 {
        for value in 0u8..16 {
            let mut qb = QuadBoard::<u8>::empty();
            // a background that differs from square to square
            for other in 0u8..64 {
                qb.write((other * 7 + 3) % 16, other);
            }
            qb.write(value, index);
            assert_eq!(qb.read(index), Ok(value));
            for other in 0u8..64 {
                if other != index {
                    assert_eq!(qb.read(other), Ok((other * 7 + 3) % 16));
                }
            }
        }
    }
}

#[test]
fn channel_layout_is_bit_i_of_nibble_in_channel_i() {
    let mut qb = QuadBoard::<u8>::empty();
    qb.write(0b0101, 9);
    let lanes = qb.into_channels().map(|board| u64::from(board));
    assert_eq!(lanes[0], 1 << 9);
    assert_eq!(lanes[1], 0);
    assert_eq!(lanes[2], 1 << 9);
    assert_eq!(lanes[3], 0);
    let back: QuadBoard<u8> = QuadBoard::from(lanes);
    assert_eq!(back.read(9), Ok(0b0101));
    let sets = [
        BitBoard::from(lanes[0]),
        BitBoard::from(lanes[1]),
        BitBoard::from(lanes[2]),
        BitBoard::from(lanes[3]),
    ];
    let again: QuadBoard<u8> = QuadBoard::from(sets);
    assert_eq!(again.read(9), Ok(0b0101));
    assert_eq!(again.read(8), Ok(0));
}

#[test]
fn overwriting_clears_the_old_nibble() {
    let mut qb = QuadBoard::<u8>::empty();
    qb.write(0b1111, 40);
    qb.write(0b0010, 40);
    assert_eq!(qb.read(40), Ok(0b0010));
    let lanes = qb.into_channels().map(|board| u64::from(board));
    assert_eq!(lanes, [0, 1 << 40, 0, 0]);
}

#[test]
fn typed_board_of_pieces() {
    let mut qb = QuadBoard::<Piece>::empty();
    let queen = Piece { color: PieceColor::White, kind: PieceType::Queen };
    qb.write(queen, 3);
    assert_eq!(qb.read(3), Ok(queen));
    assert_eq!(qb.get_unchecked(3), 13);
    assert_eq!(
        qb.read(4),
        Ok(Piece { color: PieceColor::Black, kind: PieceType::Empty })
    );
    // a nibble with all three kind bits set stands for no piece
    qb.set_unchecked(7, 5);
    assert_eq!(qb.read(5), Err(NibbleDecodingError::Undefined(7)));
    qb.set_unchecked(15, 6);
    assert_eq!(qb.read(6), Err(NibbleDecodingError::Undefined(15)));
    let all = qb.into_array();
    assert_eq!(all.len(), 64);
    assert_eq!(all[3], Ok(queen));
    assert_eq!(all[5], Err(NibbleDecodingError::Undefined(7)));
    assert_eq!(Piece::try_from(7u8), Err(PieceRepresentationError::InvalidTypeBits));
}

#[test]
fn nibble_codecs() {
    assert_eq!(<u8 as NibbleDecode>::decode(15), Ok(15));
    assert_eq!(<u8 as NibbleDecode>::decode(16), Err(NibbleDecodingError::TooLarge(16)));
    assert_eq!(<Piece as NibbleDecode>::decode(16), Err(NibbleDecodingError::TooLarge(16)));
    assert_eq!(NibbleEncode::encode(9u8), 9);
    let king = Piece { color: PieceColor::White, kind: PieceType::King };
    assert_eq!(NibbleEncode::encode(king), 14);
    assert!(Nibble::new(16).is_none());
    assert_eq!(Nibble::new(15).unwrap().get(), 15);
    assert_eq!(Nibble::try_from(200u8), Err(NibbleDecodingError::TooLarge(200)));
    assert_eq!(<Nibble as NibbleDecode>::decode(3).unwrap().get(), 3);
    assert_eq!(NibbleEncode::encode(Nibble::new(11).unwrap()), 11);
    let as_number: u8 = Nibble::new(4).unwrap().into();
    assert_eq!(as_number, 4);
}

#[test]
fn splat_fills_every_square() {
    let board = RawQuadBoard::splat(Nibble::new(0b1010).unwrap());
    for index in 0u8..64 {
        assert_eq!(board.get_unchecked(index).get(), 0b1010);
    }
    let lanes = board.into_channels().map(|b| u64::from(b));
    assert_eq!(lanes, [0, u64::MAX, 0, u64::MAX]);
}
