use konig::san::{
    abbreviated_pawn_move, annotation, capture, castle_move, check, checkmate,
    disambiguation_field, normal_move, pawn_move, piece, promotion, san_literal, target,
    AbbreviatedPawnMove, CastleMove, DisambiguationField, NormalMove, ParseError, Parsed,
    PawnMove, San, SanMove, SuffixAnnotation,
};
use konig::standard::StandardPieceKind;
use konig::text::to_chars;

fn literal(text: &str) -> Result<San, ParseError> {
    san_literal(&to_chars(text))
}

#[test]
fn basic_san_parsing() {
    literal("e5").unwrap();
    literal("Kxd3??").unwrap();
    literal("fxg=Q+#!").unwrap();
    literal("0-0").unwrap();
    literal("O-O").unwrap();
    literal("0-0-0").unwrap();
    literal("O-O-O").unwrap();
    literal("ab").unwrap();
    literal("dxe=R?!").unwrap();
    literal("O-O-O#!").unwrap();
}

#[test]
fn correct_errors_from_san_parsing() {
    literal("fxd=+#!").expect_err("should fail without a promotion piece");
    literal("fd!!!").expect_err("should fail because of too many exclamation marks");
    literal("").expect_err("should fail because it's empty");
    literal("D:e7").expect_err("should fail because it's not a real piece");
    literal("0-0-0-0").expect_err("should fail because it's not a valid castling move");
    literal("0-0-0x!").expect_err("castle moves cannot be captures");
}

fn promotion_of(text: &str) -> Result<StandardPieceKind, ()> {
    match promotion(&to_chars(text), 0) {
        Parsed::Match(kind, _) => Ok(kind),
        _ => Err(()),
    }
}

#[test]
fn parse_promotion_chunk_correctly() {
    promotion_of("=Q").expect("should return a StandardPieceKind::Queen.");
    promotion_of("=").expect_err("should fail with no piece kind");
    promotion_of("=A").expect_err("should fail");
    promotion_of("B").expect_err("should fail");
    promotion_of("").expect_err("should fail");
}

fn castle(text: &str) -> Result<CastleMove, ()> {
    castle_move(&to_chars(text), 0).map(|(side, _)| side).ok_or(())
}

#[test]
fn parse_castle_move_correctly() {
    // valid moves
    castle("0-0").expect("should be valid");
    castle("0-0-0").expect("should be valid");
    castle("O-O").expect("should be valid");
    castle("O-O-O").expect("should be valid");
    castle("0-0+").expect("should be valid");
    castle("0-0-0+").expect("should be valid");
    castle("O-O+").expect("should be valid");
    castle("O-O-O+").expect("should be valid");
    castle("0-0#").expect("should be valid");
    castle("0-0-0#").expect("should be valid");
    castle("O-O#").expect("should be valid");
    castle("O-O-O#").expect("should be valid");
    castle("0-0+#").expect("should be valid");
    castle("0-0-0+#").expect("should be valid");
    castle("O-O+#").expect("should be valid");
    castle("O-O-O+#").expect("should be valid");
    castle("0-0").expect("should be valid");
    castle("0-0-0").expect("should be valid");
    castle("O-O").expect("should be valid");
    castle("O-O-O").expect("should be valid");
    castle("0-0+").expect("should be valid");
    castle("0-0-0+").expect("should be valid");
    castle("O-O+").expect("should be valid");
    castle("O-O-O+").expect("should be valid");
    castle("0-0#").expect("should be valid");
    castle("0-0-0#").expect("should be valid");
    castle("O-O#?!").expect("should be valid");
    castle("O-O-O#?").expect("should be valid");
    castle("0-0+#??").expect("should be valid");
    castle("0-0-0+#!").expect("should be valid");
    castle("O-O+#!?").expect("should be valid");
    castle("O-O-O+#!!").expect("should be valid");

    // invalid moves
    castle("xO-O-O").expect_err("castle moves cannot capture");
    castle("x0-0").expect_err("castle moves cannot capture");

    // valid parses with trailing garbage
    castle("O-Ox+!!").expect("valid move with trailing garbage");
    castle("O-O-O=Q").expect("valid move with trailing garbage");
    castle("0-0=R#").expect("valid move with trailing garbage");
}

fn normal(text: &str) -> Result<SanMove, ()> {
    normal_move(&to_chars(text), 0).map(|(data, _)| data).ok_or(())
}

#[test]
fn parse_normal_moves_correctly() {
    // valid moves
    normal("Bxe7").expect("should be a valid move");
    normal("Ka1").expect("should be a valid move");

    // invalid moves
    normal("Fxe7").expect_err("should fail at the first letter");
    normal("Kax1").expect_err("should fail at the invalid capture");

    // valid moves with trailing garbage
    normal("R:d4=Q").expect("valid move with trailing garbage");
}

#[test]
fn mixed_top_level_parsing_is_correct() {
    // valid moves
    San::try_from("O-O-O#!!").expect("should be a valid move");
    San::try_from("K:e7?").expect("should be a valid move");
    San::try_from("e8=Q").expect("should be a valid move");
    San::try_from("d4").expect("should be a valid move");
    San::try_from("fg").expect("should be a valid move");
    San::try_from("Rg3+?!").expect("should be a valid move");
    San::try_from("b8=R+??").expect("should be a valid move");
    San::try_from("c2").expect("should be a valid move");
    San::try_from("Nf3h4").expect("should be a valid move");
    San::try_from("Rb2xb7#").expect("should be a valid move");
}

#[test]
fn king_side_castle() {
    assert_eq!(
        San::decode("O-O"),
        Ok(San {
            data: SanMove::CastleMove(CastleMove::KingSide),
            is_check: false,
            is_checkmate: false,
            annotation: None,
        })
    );
    assert_eq!(San::decode("0-0"), San::decode("O-O"));
    assert_eq!(
        San::decode("0-0-0").unwrap().data,
        SanMove::CastleMove(CastleMove::QueenSide)
    );
    assert_eq!(San::decode("O-O-O"), San::decode("0-0-0"));
}

#[test]
fn promotion_with_check() {
    assert_eq!(
        San::decode("e8=Q+"),
        Ok(San {
            data: SanMove::PawnMove(PawnMove {
                target: ('e', '8'),
                is_capture: false,
                capture_file: None,
                promotion_piece: Some(StandardPieceKind::Queen),
            }),
            is_check: true,
            is_checkmate: false,
            annotation: None,
        })
    );
}

#[test]
fn rook_captures_with_mate_and_praise() {
    assert_eq!(
        San::decode("Rxe7#!!"),
        Ok(San {
            data: SanMove::NormalMove(NormalMove {
                piece: StandardPieceKind::Rook,
                disambiguation_field: None,
                target: ('e', '7'),
                is_capture: true,
            }),
            is_check: false,
            is_checkmate: true,
            annotation: Some(SuffixAnnotation::BangBang),
        })
    );
}

#[test]
fn four_zeros_and_the_empty_literal_fail() {
    assert_eq!(San::decode("0-0-0-0"), Err(ParseError::InvalidCastlingField(5)));
    assert_eq!(San::decode(""), Err(ParseError::Unknown));
}

#[test]
fn each_error_has_its_literal() {
    assert_eq!(San::decode("D:e7"), Err(ParseError::InvalidLeadingPiece('D')));
    assert_eq!(San::decode("+"), Err(ParseError::InvalidLeadingPiece('+')));
    assert_eq!(San::decode("xO-O-O"), Err(ParseError::InvalidLeadingPiece('x')));
    assert_eq!(San::decode(" e4"), Err(ParseError::InvalidLeadingPiece(' ')));

    assert_eq!(San::decode("e"), Err(ParseError::InvalidTargetSquare(0)));
    assert_eq!(San::decode("e9"), Err(ParseError::InvalidTargetSquare(0)));
    assert_eq!(San::decode("ex"), Err(ParseError::InvalidTargetSquare(2)));
    assert_eq!(San::decode("ex9"), Err(ParseError::InvalidTargetSquare(2)));
    assert_eq!(San::decode("K"), Err(ParseError::InvalidTargetSquare(1)));
    assert_eq!(San::decode("Kx"), Err(ParseError::InvalidTargetSquare(2)));
    assert_eq!(San::decode("Kax1"), Err(ParseError::InvalidTargetSquare(3)));
    assert_eq!(San::decode("Kab"), Err(ParseError::InvalidTargetSquare(2)));
    assert_eq!(San::decode("Ka"), Err(ParseError::InvalidTargetSquare(2)));
    assert_eq!(San::decode("K1a"), Err(ParseError::InvalidTargetSquare(2)));

    assert_eq!(San::decode("Kz"), Err(ParseError::InvalidCaptureField('z')));
    assert_eq!(San::decode("K-e4"), Err(ParseError::InvalidCaptureField('-')));
    assert_eq!(San::decode("Ra-e4"), Err(ParseError::InvalidCaptureField('-')));
    assert_eq!(San::decode("K+"), Err(ParseError::InvalidCaptureField('+')));

    assert_eq!(San::decode("K11e4"), Err(ParseError::InvalidDisambiguationField(2)));
    assert_eq!(San::decode("R12e4"), Err(ParseError::InvalidDisambiguationField(2)));
    assert_eq!(San::decode("Ra12e4"), Err(ParseError::TrailingGarbage(3)));

    assert_eq!(San::decode("fd!!!"), Err(ParseError::InvalidAnnotationSuffixField(4)));
    assert_eq!(San::decode("e4?!?"), Err(ParseError::InvalidAnnotationSuffixField(4)));
    assert_eq!(San::decode("O-O!!!"), Err(ParseError::InvalidAnnotationSuffixField(5)));

    assert_eq!(San::decode("fxd=+#!"), Err(ParseError::InvalidPromotionField(3)));
    assert_eq!(San::decode("e8="), Err(ParseError::InvalidPromotionField(2)));
    assert_eq!(San::decode("e8=K"), Err(ParseError::InvalidPromotionField(2)));
    assert_eq!(San::decode("e8=q"), Err(ParseError::InvalidPromotionField(2)));
    assert_eq!(San::decode("ab=+"), Err(ParseError::InvalidPromotionField(2)));

    assert_eq!(San::decode("0-0-0x!"), Err(ParseError::InvalidCastlingField(5)));
    assert_eq!(San::decode("O-O=Q"), Err(ParseError::InvalidCastlingField(3)));
    assert_eq!(San::decode("O-Ox+!!"), Err(ParseError::InvalidCastlingField(3)));
    assert_eq!(San::decode("0-"), Err(ParseError::InvalidCastlingField(0)));
    assert_eq!(San::decode("O-0"), Err(ParseError::InvalidCastlingField(0)));
    assert_eq!(San::decode("0"), Err(ParseError::InvalidCastlingField(0)));
    assert_eq!(San::decode("O-O-"), Err(ParseError::InvalidCastlingField(3)));

    assert_eq!(San::decode("R:d4=Q"), Err(ParseError::TrailingGarbage(4)));
    assert_eq!(San::decode("e4 "), Err(ParseError::TrailingGarbage(2)));
    assert_eq!(San::decode("e4++"), Err(ParseError::TrailingGarbage(3)));
    assert_eq!(San::decode("e4##"), Err(ParseError::TrailingGarbage(3)));
    assert_eq!(San::decode("e4!+"), Err(ParseError::TrailingGarbage(3)));
    assert_eq!(San::decode("exd9"), Err(ParseError::TrailingGarbage(3)));
    assert_eq!(San::decode("exd5x"), Err(ParseError::TrailingGarbage(4)));
    assert_eq!(San::decode("ed5"), Err(ParseError::InvalidTargetSquare(0)));
    assert_eq!(San::decode("ab1"), Err(ParseError::InvalidTargetSquare(0)));
    assert_eq!(San::decode("Ka12"), Err(ParseError::TrailingGarbage(3)));
    assert_eq!(San::decode("e4e5"), Err(ParseError::TrailingGarbage(2)));
}

#[test]
fn the_order_of_the_shapes_decides() {
    // two files are an abbreviated pawn move, not a piece move gone wrong
    assert_eq!(
        San::decode("ab").unwrap().data,
        SanMove::AbbreviatedPawnMove(AbbreviatedPawnMove {
            source_file: 'a',
            target_file: 'b',
            is_capture: false,
            promotion_piece: None,
        })
    );
    assert_eq!(
        San::decode("fxg=Q+#!"),
        Ok(San {
            data: SanMove::AbbreviatedPawnMove(AbbreviatedPawnMove {
                source_file: 'f',
                target_file: 'g',
                is_capture: true,
                promotion_piece: Some(StandardPieceKind::Queen),
            }),
            is_check: true,
            is_checkmate: true,
            annotation: Some(SuffixAnnotation::Bang),
        })
    );
    // a file, a capture mark and a square are a pawn move with its file
    assert_eq!(
        San::decode("exd5").unwrap().data,
        SanMove::PawnMove(PawnMove {
            target: ('d', '5'),
            is_capture: true,
            capture_file: Some('e'),
            promotion_piece: None,
        })
    );
    assert_eq!(
        San::decode("e4").unwrap().data,
        SanMove::PawnMove(PawnMove {
            target: ('e', '4'),
            is_capture: false,
            capture_file: None,
            promotion_piece: None,
        })
    );
    // the bishop's letter is a file too, in lower case only
    assert_eq!(
        San::decode("bxc3").unwrap().data,
        SanMove::PawnMove(PawnMove {
            target: ('c', '3'),
            is_capture: true,
            capture_file: Some('b'),
            promotion_piece: None,
        })
    );
    assert_eq!(
        San::decode("Bxc3").unwrap().data,
        SanMove::NormalMove(NormalMove {
            piece: StandardPieceKind::Bishop,
            disambiguation_field: None,
            target: ('c', '3'),
            is_capture: true,
        })
    );
}

#[test]
fn disambiguation_is_read_as_long_as_possible_first() {
    assert_eq!(
        San::decode("Nf3").unwrap().data,
        SanMove::NormalMove(NormalMove {
            piece: StandardPieceKind::Knight,
            disambiguation_field: None,
            target: ('f', '3'),
            is_capture: false,
        })
    );
    assert_eq!(
        San::decode("Nbd7").unwrap().data,
        SanMove::NormalMove(NormalMove {
            piece: StandardPieceKind::Knight,
            disambiguation_field: Some(DisambiguationField::FileLetter('b')),
            target: ('d', '7'),
            is_capture: false,
        })
    );
    assert_eq!(
        San::decode("R1xa3").unwrap().data,
        SanMove::NormalMove(NormalMove {
            piece: StandardPieceKind::Rook,
            disambiguation_field: Some(DisambiguationField::RankDigit('1')),
            target: ('a', '3'),
            is_capture: true,
        })
    );
    assert_eq!(
        San::decode("Nf3h4").unwrap().data,
        SanMove::NormalMove(NormalMove {
            piece: StandardPieceKind::Knight,
            disambiguation_field: Some(DisambiguationField::SourceSquare(('f', '3'))),
            target: ('h', '4'),
            is_capture: false,
        })
    );
    assert_eq!(
        San::decode("Rb2xb7#"),
        Ok(San {
            data: SanMove::NormalMove(NormalMove {
                piece: StandardPieceKind::Rook,
                disambiguation_field: Some(DisambiguationField::SourceSquare(('b', '2'))),
                target: ('b', '7'),
                is_capture: true,
            }),
            is_check: false,
            is_checkmate: true,
            annotation: None,
        })
    );
    assert_eq!(
        San::decode("Qh4xe1").unwrap().data,
        SanMove::NormalMove(NormalMove {
            piece: StandardPieceKind::Queen,
            disambiguation_field: Some(DisambiguationField::SourceSquare(('h', '4'))),
            target: ('e', '1'),
            is_capture: true,
        })
    );
}

#[test]
fn check_and_mate_in_either_order() {
    let both = |text: &str| {
        let san = San::decode(text).unwrap();
        (san.is_check, san.is_checkmate)
    };
    assert_eq!(both("e4"), (false, false));
    assert_eq!(both("e4+"), (true, false));
    assert_eq!(both("e4#"), (false, true));
    assert_eq!(both("e4+#"), (true, true));
    assert_eq!(both("e4#+"), (true, true));
    assert_eq!(both("O-O-O#+?"), (true, true));
}

#[test]
fn all_six_annotations() {
    let tag = |text: &str| San::decode(text).unwrap().annotation;
    assert_eq!(tag("e4"), None);
    assert_eq!(tag("e4!"), Some(SuffixAnnotation::Bang));
    assert_eq!(tag("e4?"), Some(SuffixAnnotation::Hook));
    assert_eq!(tag("e4!!"), Some(SuffixAnnotation::BangBang));
    assert_eq!(tag("e4!?"), Some(SuffixAnnotation::BangHook));
    assert_eq!(tag("e4?!"), Some(SuffixAnnotation::HookBang));
    assert_eq!(tag("e4??"), Some(SuffixAnnotation::HookHook));
    assert_eq!(tag("e4+#??"), Some(SuffixAnnotation::HookHook));
}

#[test]
fn capture_marks() {
    for mark in ['x', 'X', ':', '\u{d7}'] {
        let text = format!("N{}e5", mark);
        let san = San::decode(&text).unwrap();
        assert_eq!(
            san.data,
            SanMove::NormalMove(NormalMove {
                piece: StandardPieceKind::Knight,
                disambiguation_field: None,
                target: ('e', '5'),
                is_capture: true,
            })
        );
        let text = format!("d{}e5", mark);
        assert!(matches!(San::decode(&text).unwrap().data, SanMove::PawnMove(_)));
    }
    assert_eq!(San::decode("N\u{d7}e5#").unwrap().is_checkmate, true);
    // offsets count characters, not bytes
    assert_eq!(San::decode("N\u{d7}e5 "), Err(ParseError::TrailingGarbage(4)));
}

#[test]
fn the_parts_of_a_literal() {
    let s = to_chars("Qa1xh8=N+#!?");
    assert_eq!(piece(&s, 0), Some((StandardPieceKind::Queen, 1)));
    assert_eq!(piece(&s, 1), None);
    assert_eq!(piece(&s, 100), None);
    assert_eq!(konig::san::file(&s, 1), Some(('a', 2)));
    assert_eq!(konig::san::file(&s, 2), None);
    assert_eq!(target(&s, 1), Some((('a', '1'), 3)));
    assert_eq!(target(&s, 4), Some((('h', '8'), 6)));
    assert_eq!(target(&s, 3), None);
    assert_eq!(capture(&s, 3), Some(('x', 4)));
    assert_eq!(capture(&s, 4), None);
    assert_eq!(
        disambiguation_field(&s, 1),
        (Some(DisambiguationField::SourceSquare(('a', '1'))), 3)
    );
    assert_eq!(disambiguation_field(&s, 3), (None, 3));
    assert_eq!(disambiguation_field(&s, 2), (Some(DisambiguationField::RankDigit('1')), 3));
    assert_eq!(disambiguation_field(&s, 4), (Some(DisambiguationField::SourceSquare(('h', '8'))), 6));
    assert_eq!(promotion(&s, 6), Parsed::Match(StandardPieceKind::Knight, 8));
    assert_eq!(promotion(&s, 5), Parsed::NoMatch);
    assert_eq!(check(&s, 8), Some((true, 9)));
    assert_eq!(check(&s, 9), None);
    assert_eq!(checkmate(&s, 9), Some((true, 10)));
    assert_eq!(checkmate(&s, 8), None);
    assert_eq!(annotation(&s, 10), (Some(SuffixAnnotation::BangHook), 12));
    assert_eq!(annotation(&s, 11), (Some(SuffixAnnotation::Hook), 12));
    assert_eq!(annotation(&s, 12), (None, 12));
    assert_eq!(annotation(&s, 0), (None, 0));

    let p = to_chars("exd8=R");
    assert_eq!(
        pawn_move(&p, 0),
        Parsed::Match(
            SanMove::PawnMove(PawnMove {
                target: ('d', '8'),
                is_capture: true,
                capture_file: Some('e'),
                promotion_piece: Some(StandardPieceKind::Rook),
            }),
            6
        )
    );
    // a square follows the capture mark, so the move names a rank
    assert_eq!(abbreviated_pawn_move(&p, 0), Parsed::NoMatch);
    assert_eq!(
        abbreviated_pawn_move(&to_chars("exd=R+"), 0),
        Parsed::Match(
            SanMove::AbbreviatedPawnMove(AbbreviatedPawnMove {
                source_file: 'e',
                target_file: 'd',
                is_capture: true,
                promotion_piece: Some(StandardPieceKind::Rook),
            }),
            5
        )
    );
    assert_eq!(pawn_move(&to_chars("e8=x"), 0), Parsed::Fail(2));
    assert_eq!(abbreviated_pawn_move(&to_chars("ab="), 0), Parsed::Fail(2));
    assert_eq!(promotion(&to_chars("="), 0), Parsed::Fail(0));
    assert_eq!(pawn_move(&to_chars("Ke2"), 0), Parsed::NoMatch);
    assert_eq!(castle_move(&to_chars("O-O-O"), 0), Some((CastleMove::QueenSide, 5)));
    assert_eq!(castle_move(&to_chars("O-O-0"), 0), Some((CastleMove::KingSide, 3)));
    assert_eq!(castle_move(&to_chars("xO-O"), 1), Some((CastleMove::KingSide, 4)));
}
