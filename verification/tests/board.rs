use konig::board::{Board, CastlingPermissions, StandardBoard};
use konig::fen::Fen;
use konig::square::Square;
use konig::standard::{StandardColor, StandardPiece};

#[test]
fn board_standard_board_iterator_produces_correct_order() {
    let board = StandardBoard::default();
    let mut board_iter = board.into_iter();

    // first rank
    assert_eq!(board_iter.next(), Some(Some(StandardPiece::WhiteRook)));
    assert_eq!(board_iter.next(), Some(Some(StandardPiece::WhiteKnight)));
    assert_eq!(board_iter.next(), Some(Some(StandardPiece::WhiteBishop)));
    assert_eq!(board_iter.next(), Some(Some(StandardPiece::WhiteQueen)));
    assert_eq!(board_iter.next(), Some(Some(StandardPiece::WhiteKing)));
    assert_eq!(board_iter.next(), Some(Some(StandardPiece::WhiteBishop)));
    assert_eq!(board_iter.next(), Some(Some(StandardPiece::WhiteKnight)));
    assert_eq!(board_iter.next(), Some(Some(StandardPiece::WhiteRook)));

    // second rank
    assert_eq!(board_iter.next(), Some(Some(StandardPiece::WhitePawn)));
    assert_eq!(board_iter.next(), Some(Some(StandardPiece::WhitePawn)));
    assert_eq!(board_iter.next(), Some(Some(StandardPiece::WhitePawn)));
    assert_eq!(board_iter.next(), Some(Some(StandardPiece::WhitePawn)));
    assert_eq!(board_iter.next(), Some(Some(StandardPiece::WhitePawn)));
    assert_eq!(board_iter.next(), Some(Some(StandardPiece::WhitePawn)));
    assert_eq!(board_iter.next(), Some(Some(StandardPiece::WhitePawn)));
    assert_eq!(board_iter.next(), Some(Some(StandardPiece::WhitePawn)));

    // third rank
    assert_eq!(board_iter.next(), Some(None));
    assert_eq!(board_iter.next(), Some(None));
    assert_eq!(board_iter.next(), Some(None));
    assert_eq!(board_iter.next(), Some(None));
    assert_eq!(board_iter.next(), Some(None));
    assert_eq!(board_iter.next(), Some(None));
    assert_eq!(board_iter.next(), Some(None));
    assert_eq!(board_iter.next(), Some(None));

    // fourth rank
    assert_eq!(board_iter.next(), Some(None));
    assert_eq!(board_iter.next(), Some(None));
    assert_eq!(board_iter.next(), Some(None));
    assert_eq!(board_iter.next(), Some(None));
    assert_eq!(board_iter.next(), Some(None));
    assert_eq!(board_iter.next(), Some(None));
    assert_eq!(board_iter.next(), Some(None));
    assert_eq!(board_iter.next(), Some(None));

    // fifth rank
    assert_eq!(board_iter.next(), Some(None));
    assert_eq!(board_iter.next(), Some(None));
    assert_eq!(board_iter.next(), Some(None));
    assert_eq!(board_iter.next(), Some(None));
    assert_eq!(board_iter.next(), Some(None));
    assert_eq!(board_iter.next(), Some(None));
    assert_eq!(board_iter.next(), Some(None));
    assert_eq!(board_iter.next(), Some(None));

    // sixth rank
    assert_eq!(board_iter.next(), Some(None));
    assert_eq!(board_iter.next(), Some(None));
    assert_eq!(board_iter.next(), Some(None));
    assert_eq!(board_iter.next(), Some(None));
    assert_eq!(board_iter.next(), Some(None));
    assert_eq!(board_iter.next(), Some(None));
    assert_eq!(board_iter.next(), Some(None));
    assert_eq!(board_iter.next(), Some(None));

    // seventh rank
    assert_eq!(board_iter.next(), Some(Some(StandardPiece::BlackPawn)));
    assert_eq!(board_iter.next(), Some(Some(StandardPiece::BlackPawn)));
    assert_eq!(board_iter.next(), Some(Some(StandardPiece::BlackPawn)));
    assert_eq!(board_iter.next(), Some(Some(StandardPiece::BlackPawn)));
    assert_eq!(board_iter.next(), Some(Some(StandardPiece::BlackPawn)));
    assert_eq!(board_iter.next(), Some(Some(StandardPiece::BlackPawn)));
    assert_eq!(board_iter.next(), Some(Some(StandardPiece::BlackPawn)));
    assert_eq!(board_iter.next(), Some(Some(StandardPiece::BlackPawn)));

    // eighth rank
    assert_eq!(board_iter.next(), Some(Some(StandardPiece::BlackRook)));
    assert_eq!(board_iter.next(), Some(Some(StandardPiece::BlackKnight)));
    assert_eq!(board_iter.next(), Some(Some(StandardPiece::BlackBishop)));
    assert_eq!(board_iter.next(), Some(Some(StandardPiece::BlackQueen)));
    assert_eq!(board_iter.next(), Some(Some(StandardPiece::BlackKing)));
    assert_eq!(board_iter.next(), Some(Some(StandardPiece::BlackBishop)));
    assert_eq!(board_iter.next(), Some(Some(StandardPiece::BlackKnight)));
    assert_eq!(board_iter.next(), Some(Some(StandardPiece::BlackRook)));

    // end of iterator
    assert_eq!(board_iter.next(), None);
}

#[test]
fn std_ops_index_into_standard_board_is_correct() {
    let board = Board::default();
    let i = Square::try_from(0u8).unwrap();
    let j = Square::try_from(63u8).unwrap();
    let k = Square::try_from(33u8).unwrap();

    assert_eq!(board.get_piece_at(i), Some(StandardPiece::WhiteRook));
    assert_eq!(board.get_piece_at(j), Some(StandardPiece::BlackRook));
    assert_eq!(board.get_piece_at(k), None);
}

#[test]
fn standard_board_walk_counts_down() {
    let board = StandardBoard::default();
    let mut walk = board.into_iter();
    assert_eq!(walk.len(), 64);
    walk.next();
    assert_eq!(walk.len(), 63);
    for _ in 0..63 {
        assert!(walk.next().is_some());
    }
    assert_eq!(walk.len(), 0);
    assert_eq!(walk.next(), None);
    assert_eq!(walk.len(), 0);
    assert_eq!(board.piece_at(Square::new(4)), Some(StandardPiece::WhiteKing));
    assert_eq!(board.piece_at(Square::new(59)), Some(StandardPiece::BlackQueen));
}

#[test]
fn packed_board_holds_what_the_record_holds() {
    let text = "r3k2r/p1pp1pb1/bn2Qnp1/2qPN3/1p2P3/2N5/PPPBBPPP/R3K2R b Kq e3 3 2";
    let fen = Fen::decode(text).unwrap();
    let board = Board::from(fen);
    for i in 0u8..64 {
        let sq = Square::new(i);
        assert_eq!(board.get_piece_at(sq), fen.piece_at(sq));
    }
    assert_eq!(board.side_to_move(), StandardColor::Black);
    assert_eq!(
        board.castling_permissions(),
        CastlingPermissions {
            white_king_side: true,
            white_queen_side: false,
            black_king_side: false,
            black_queen_side: true,
        }
    );
    assert_eq!(board.en_passant_target_square(), Some(Square::new(20)));
    assert_eq!(board.get_piece_at(Square::new(44)), Some(StandardPiece::WhiteQueen));
}

#[test]
fn ranks_of_the_packed_board() {
    let board = Board::default();
    let first = board.rank(0);
    assert_eq!(first[0], Some(StandardPiece::WhiteRook));
    assert_eq!(first[4], Some(StandardPiece::WhiteKing));
    assert_eq!(board.rank(1), [Some(StandardPiece::WhitePawn); 8]);
    assert_eq!(board.rank(3), [None; 8]);
    assert_eq!(board.rank(6), [Some(StandardPiece::BlackPawn); 8]);
    assert_eq!(board.rank(7)[3], Some(StandardPiece::BlackQueen));

    let mut walk = board.rank_iter();
    assert_eq!(walk.len(), 8);
    assert_eq!(walk.next_back(), None);
    assert_eq!(walk.next(), Some(board.rank(0)));
    assert_eq!(walk.next(), Some(board.rank(1)));
    assert_eq!(walk.len(), 6);
    assert_eq!(walk.next_back(), Some(board.rank(1)));
    assert_eq!(walk.len(), 7);
    for rank in 1..8 {
        assert_eq!(walk.next(), Some(board.rank(rank)));
    }
    assert_eq!(walk.next(), None);
    assert_eq!(walk.len(), 0);
    assert_eq!(walk.next_back(), Some(board.rank(7)));
}

#[test]
fn castling_permission_constructors() {
    let none = CastlingPermissions::none();
    assert!(!none.white_king_side && !none.white_queen_side);
    assert!(!none.black_king_side && !none.black_queen_side);
    let all = CastlingPermissions::default();
    assert!(all.white_king_side && all.white_queen_side);
    assert!(all.black_king_side && all.black_queen_side);
}

#[test]
fn moves_hold_their_squares() {
    let e2 = Square::try_from("e2").unwrap();
    let e4 = Square::try_from("e4").unwrap();
    let advance = konig::moves::Move::from((e2, e4));
    assert_eq!(advance.source(), e2);
    assert_eq!(advance.target(), e4);
    assert_eq!(advance.as_pair(), (e2, e4));
    assert_ne!(advance, konig::moves::Move::from((e4, e2)));
}

#[test]
fn packed_board_walk_gives_the_squares_in_order() {
    let board = Board::default();
    let plain = StandardBoard::default();
    let mut packed = board.into_iter();
    let mut unpacked = plain.into_iter();
    assert_eq!(packed.len(), 64);
    for left in (0..64).rev() {
        assert_eq!(packed.next(), unpacked.next());
        assert_eq!(packed.len(), left);
    }
    assert_eq!(packed.next(), None);
    assert_eq!(packed.next(), None);
}

#[test]
fn record_as_board() {
    let text = "rn1k1b1r/1pp1ppp1/8/pBp2b1p/4P3/1P5N/P1PB2PP/RN1Q1RK1 w Kkq - 3 6";
    let fen = Fen::decode(text).unwrap();
    let view = fen.into_position();
    let packed = fen.to_standard_board();
    for i in 0u8..64 {
        let sq = Square::new(i);
        assert_eq!(view.get_piece_at(sq), fen.piece_at(sq));
        assert_eq!(packed.get_piece_at(sq), fen.piece_at(sq));
    }
    assert_eq!(view.side_to_move(), StandardColor::White);
    assert_eq!(view.castling_permissions().white_queen_side, false);
    assert_eq!(view.castling_permissions().black_queen_side, true);
    assert_eq!(view.en_passant_target_square(), None);
    assert_eq!(konig::fen::FenBoard::default(), konig::fen::FenBoard::from(Fen::default()));
}
