use konig::piece::{Piece, PieceColor, PieceRepresentationError, PieceType};
use konig::standard::{StandardColor, StandardPiece, StandardPieceKind};

#[test]
fn piece_validate_piece_into_u8() {
    let black_king = Piece {
        color: PieceColor::Black,
        kind: PieceType::King,
    };

    let white_rook = Piece {
        color: PieceColor::White,
        kind: PieceType::Rook,
    };

    let black_king_value: u8 = black_king.into();
    let white_rook_value: u8 = white_rook.into();

    assert_eq!(black_king_value, 6);
    assert_eq!(white_rook_value, 10);
}

#[test]
fn piece_validate_piece_try_from_u8() {
    let black_king = Piece {
        color: PieceColor::Black,
        kind: PieceType::King,
    };

    let white_rook = Piece {
        color: PieceColor::White,
        kind: PieceType::Rook,
    };

    assert_eq!(black_king, Piece::try_from(6).unwrap());
    assert_eq!(white_rook, Piece::try_from(10).unwrap());
}

#[test]
fn pieces_validate_piece_into_u8() {
    let black_king = Piece {
        color: PieceColor::Black,
        kind: PieceType::King,
    };

    let white_rook = Piece {
        color: PieceColor::White,
        kind: PieceType::Rook,
    };

    let black_king_value: u8 = black_king.into();
    let white_rook_value: u8 = white_rook.into();

    assert_eq!(black_king_value, 6);
    assert_eq!(white_rook_value, 10);
}

#[test]
fn pieces_validate_piece_try_from_u8() {
    let black_king = Piece {
        color: PieceColor::Black,
        kind: PieceType::King,
    };

    let white_rook = Piece {
        color: PieceColor::White,
        kind: PieceType::Rook,
    };

    assert_eq!(black_king, Piece::try_from(6).unwrap());
    assert_eq!(white_rook, Piece::try_from(10).unwrap());
}

#[test]
fn every_nibble_decodes_or_fails_as_stated() {
    for value in 0u8..=255 {
        let read = Piece::try_from(value);
        if value >= 16 {
            assert_eq!(read, Err(PieceRepresentationError::InvalidColorBit));
        } else if value % 8 == 7 {
            assert_eq!(read, Err(PieceRepresentationError::InvalidTypeBits));
        } else {
            let piece = read.unwrap();
            let back: u8 = piece.into();
            assert_eq!(back, value);
        }
    }
}

#[test]
fn every_piece_has_its_own_code() {
    let colors = [PieceColor::Black, PieceColor::White];
    let kinds = [
        PieceType::Empty,
        PieceType::Pawn,
        PieceType::Rook,
        PieceType::Knight,
        PieceType::Bishop,
        PieceType::Queen,
        PieceType::King,
    ];
    let mut seen = [false; 16];
    for (c, color) in colors.iter().enumerate() {
        for (k, kind) in kinds.iter().enumerate() {
            let piece = Piece { color: *color, kind: *kind };
            let code: u8 = piece.into();
            assert_eq!(code as usize, c * 8 + k);
            assert!(!seen[code as usize]);
            seen[code as usize] = true;
            assert_eq!(Piece::try_from(code), Ok(piece));
        }
    }
}

#[test]
fn piece_from_letter() {
    assert_eq!(
        Piece::try_from('n'),
        Ok(Piece { color: PieceColor::Black, kind: PieceType::Knight })
    );
    assert_eq!(
        Piece::try_from('Q'),
        Ok(Piece { color: PieceColor::White, kind: PieceType::Queen })
    );
    assert_eq!(Piece::try_from('x'), Err(PieceRepresentationError::InvalidChar));
    assert_eq!(Piece::try_from('1'), Err(PieceRepresentationError::InvalidChar));
}

#[test]
fn piece_code_as_text() {
    let white_rook = Piece { color: PieceColor::White, kind: PieceType::Rook };
    assert_eq!(white_rook.to_string(), "10");
    let nothing = Piece { color: PieceColor::Black, kind: PieceType::Empty };
    assert_eq!(nothing.to_string(), "0");
}

#[test]
fn standard_pieces_and_codes() {
    assert_eq!(Piece::from_standard(None).to_standard(), None);
    let all = [
        StandardPiece::BlackPawn,
        StandardPiece::BlackRook,
        StandardPiece::BlackKnight,
        StandardPiece::BlackBishop,
        StandardPiece::BlackQueen,
        StandardPiece::BlackKing,
        StandardPiece::WhitePawn,
        StandardPiece::WhiteRook,
        StandardPiece::WhiteKnight,
        StandardPiece::WhiteBishop,
        StandardPiece::WhiteQueen,
        StandardPiece::WhiteKing,
    ];
    for piece in all {
        assert_eq!(Piece::from_standard(Some(piece)).to_standard(), Some(piece));
        assert_eq!(StandardPiece::new(piece.color(), piece.kind()), piece);
        let letter: char = piece.into();
        assert_eq!(StandardPiece::try_from(letter), Ok(piece));
        assert_eq!(letter.is_uppercase(), piece.color() == StandardColor::White);
    }
    let code: u8 = Piece::from_standard(Some(StandardPiece::WhiteBishop)).into();
    assert_eq!(code, 12);
    assert_eq!(StandardPiece::try_from('x'), Err(()));
}

#[test]
fn chess_symbols() {
    assert_eq!(StandardPiece::WhiteKing.into_utf8_chess_symbol(), '\u{2654}');
    assert_eq!(StandardPiece::WhitePawn.into_utf8_chess_symbol(), '\u{2659}');
    assert_eq!(StandardPiece::BlackKing.into_utf8_chess_symbol(), '\u{265A}');
    assert_eq!(StandardPiece::BlackKnight.into_utf8_chess_symbol(), '\u{265E}');
    assert_eq!(StandardPiece::BlackPawn.into_utf8_chess_symbol(), '\u{265F}');
    assert_eq!(StandardPiece::BlackQueen.kind(), StandardPieceKind::Queen);
}
