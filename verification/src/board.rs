//! Boards of the standard game and the rights that go with a position.

use vstd::prelude::*;
use vstd::std_specs::convert::FromSpecImpl;
use crate::fen::Fen;
use crate::piece::Piece;
use crate::piece::piece_of_code;
use crate::quadboard::QuadBoard;
use crate::square::Square;
use crate::standard::StandardColor;
use crate::standard::StandardPiece;
use crate::standard::StandardPieceKind;

verus! {

/// Which of the four castling moves are still allowed.
#[derive(Debug, PartialEq, Eq, Clone, Copy, Structural)]
pub struct CastlingPermissions {
    /// White may castle towards the h-file.
    pub white_king_side: bool,
    /// White may castle towards the a-file.
    pub white_queen_side: bool,
    /// Black may castle towards the h-file.
    pub black_king_side: bool,
    /// Black may castle towards the a-file.
    pub black_queen_side: bool,
}

impl CastlingPermissions {
    /// No castling move is allowed.
    pub fn none() -> (r: CastlingPermissions)
        ensures
            r == (CastlingPermissions {
                white_king_side: false,
                white_queen_side: false,
                black_king_side: false,
                black_queen_side: false,
            }),
    {
        CastlingPermissions {
            white_king_side: false,
            white_queen_side: false,
            black_king_side: false,
            black_queen_side: false,
        }
    }
}

impl Default for CastlingPermissions {
    /// All four castling moves are allowed, as at the start of a game.
    fn default() -> (r: Self)
        ensures
            r == (CastlingPermissions {
                white_king_side: true,
                white_queen_side: true,
                black_king_side: true,
                black_queen_side: true,
            }),
    {
        Self {
            white_king_side: true,
            white_queen_side: true,
            black_king_side: true,
            black_queen_side: true,
        }
    }
}

/// The kind of piece that starts on the given file of a back rank.
pub open spec fn back_rank_kind(file: int) -> StandardPieceKind {
    if file == 0 || file == 7 {
        StandardPieceKind::Rook
    } else if file == 1 || file == 6 {
        StandardPieceKind::Knight
    } else if file == 2 || file == 5 {
        StandardPieceKind::Bishop
    } else if file == 3 {
        StandardPieceKind::Queen
    } else {
        StandardPieceKind::King
    }
}

/// The piece of a side and a kind.
pub open spec fn piece_of(color: StandardColor, kind: StandardPieceKind) -> StandardPiece {
    match (color, kind) {
        (StandardColor::Black, StandardPieceKind::Pawn) => StandardPiece::BlackPawn,
        (StandardColor::Black, StandardPieceKind::Rook) => StandardPiece::BlackRook,
        (StandardColor::Black, StandardPieceKind::Knight) => StandardPiece::BlackKnight,
        (StandardColor::Black, StandardPieceKind::Bishop) => StandardPiece::BlackBishop,
        (StandardColor::Black, StandardPieceKind::Queen) => StandardPiece::BlackQueen,
        (StandardColor::Black, StandardPieceKind::King) => StandardPiece::BlackKing,
        (StandardColor::White, StandardPieceKind::Pawn) => StandardPiece::WhitePawn,
        (StandardColor::White, StandardPieceKind::Rook) => StandardPiece::WhiteRook,
        (StandardColor::White, StandardPieceKind::Knight) => StandardPiece::WhiteKnight,
        (StandardColor::White, StandardPieceKind::Bishop) => StandardPiece::WhiteBishop,
        (StandardColor::White, StandardPieceKind::Queen) => StandardPiece::WhiteQueen,
        (StandardColor::White, StandardPieceKind::King) => StandardPiece::WhiteKing,
    }
}

/// What stands on square `index` when a game starts: White's pieces on the
/// first rank and pawns on the second, Black's pawns on the seventh rank and
/// pieces on the eighth, nothing in between.
pub open spec fn starting_piece(index: int) -> Option<StandardPiece> {
    let rank = index / 8;
    let file = index % 8;
    if rank == 0 {
        Some(piece_of(StandardColor::White, back_rank_kind(file)))
    } else if rank == 1 {
        Some(StandardPiece::WhitePawn)
    } else if rank == 6 {
        Some(StandardPiece::BlackPawn)
    } else if rank == 7 {
        Some(piece_of(StandardColor::Black, back_rank_kind(file)))
    } else {
        None
    }
}

/// The sixty-four squares of the starting position, a1 first.
pub open spec fn starting_placement() -> Seq<Option<StandardPiece>> {
    Seq::new(64, |i: int| starting_piece(i))
}

/// The squares of the starting position.
pub fn starting_pieces() -> (r: [Option<StandardPiece>; 64])
    ensures
        r@ == starting_placement(),
{
    let r = [
        Some(StandardPiece::WhiteRook),
        Some(StandardPiece::WhiteKnight),
        Some(StandardPiece::WhiteBishop),
        Some(StandardPiece::WhiteQueen),
        Some(StandardPiece::WhiteKing),
        Some(StandardPiece::WhiteBishop),
        Some(StandardPiece::WhiteKnight),
        Some(StandardPiece::WhiteRook),
        Some(StandardPiece::WhitePawn),
        Some(StandardPiece::WhitePawn),
        Some(StandardPiece::WhitePawn),
        Some(StandardPiece::WhitePawn),
        Some(StandardPiece::WhitePawn),
        Some(StandardPiece::WhitePawn),
        Some(StandardPiece::WhitePawn),
        Some(StandardPiece::WhitePawn),
        None,
        None,
        None,
        None,
        None,
        None,
        None,
        None,
        None,
        None,
        None,
        None,
        None,
        None,
        None,
        None,
        None,
        None,
        None,
        None,
        None,
        None,
        None,
        None,
        None,
        None,
        None,
        None,
        None,
        None,
        None,
        None,
        Some(StandardPiece::BlackPawn),
        Some(StandardPiece::BlackPawn),
        Some(StandardPiece::BlackPawn),
        Some(StandardPiece::BlackPawn),
        Some(StandardPiece::BlackPawn),
        Some(StandardPiece::BlackPawn),
        Some(StandardPiece::BlackPawn),
        Some(StandardPiece::BlackPawn),
        Some(StandardPiece::BlackRook),
        Some(StandardPiece::BlackKnight),
        Some(StandardPiece::BlackBishop),
        Some(StandardPiece::BlackQueen),
        Some(StandardPiece::BlackKing),
        Some(StandardPiece::BlackBishop),
        Some(StandardPiece::BlackKnight),
        Some(StandardPiece::BlackRook),
    ];
    assert(r@ =~= starting_placement());
    r
}

/// A board of sixty-four squares with the state that a game carries along.
#[derive(Debug, Clone, Copy, PartialEq, Eq)]
pub struct StandardBoard {
    pieces: [Option<StandardPiece>; 64],
    white_turn: bool,
    castling_rights: [bool; 4],
    en_passant_square: Option<Square>,
}

impl StandardBoard {
    /// What stands on each square, a1 first.
    pub closed spec fn placement(&self) -> Seq<Option<StandardPiece>> {
        self.pieces@
    }

    /// Whether it is White's turn.
    pub closed spec fn spec_white_turn(&self) -> bool {
        self.white_turn
    }

    /// The castling rights: White's king side and queen side, then Black's.
    pub closed spec fn castling(&self) -> Seq<bool> {
        self.castling_rights@
    }

    /// The number of the en passant target square, if there is one.
    pub closed spec fn en_passant(&self) -> Option<int> {
        match self.en_passant_square {
            Some(sq) => Some(sq@),
            None => None,
        }
    }

    /// What stands on the given square.
    pub fn piece_at(&self, square: Square) -> (r: Option<StandardPiece>)
        ensures
            0 <= square@ < 64,
            r == self.placement()[square@],
    {
        self.pieces[square.index() as usize]
    }

    /// The squares of the board in order, a1 first.
    pub fn into_iter(&self) -> (r: StandardBoardIterator<'_>)
        ensures
            r.board() == self,
            r.position() == 0,
    {
        StandardBoardIterator { board: self, index: 0 }
    }
}

impl Default for StandardBoard {
    /// The board at the start of a game: White to move, every castling
    /// right, no en passant target.
    fn default() -> (r: Self)
        ensures
            r.placement() == starting_placement(),
            r.spec_white_turn(),
            r.castling() == seq![true, true, true, true],
            r.en_passant() is None,
    {
        let r = Self {
            pieces: starting_pieces(),
            white_turn: true,
            castling_rights: [true, true, true, true],
            en_passant_square: None,
        };
        assert(r.castling_rights@ =~= seq![true, true, true, true]);
        r
    }
}

/// A walk over the squares of a [`StandardBoard`], from a1 to h8.
pub struct StandardBoardIterator<'a> {
    board: &'a StandardBoard,
    index: usize,
}

impl<'a> StandardBoardIterator<'a> {
    /// At most sixty-four squares have been given out.
    #[verifier::type_invariant]
    spec fn in_bounds(self) -> bool {
        self.index <= 64
    }

    /// The board that is walked over.
    pub closed spec fn board(&self) -> &'a StandardBoard {
        self.board
    }

    /// The number of squares already given out.
    pub closed spec fn position(&self) -> int {
        self.index as int
    }

    /// What stands on the next square, or `None` when all sixty-four have
    /// been given out.
    pub fn next(&mut self) -> (r: Option<Option<StandardPiece>>)
        ensures
            final(self).board() == old(self).board(),
            old(self).position() < 64 ==> r == Some(
                old(self).board().placement()[old(self).position()],
            ) && final(self).position() == old(self).position() + 1,
            old(self).position() >= 64 ==> r is None && final(self).position() == old(
                self,
            ).position(),
    {
        proof {
            use_type_invariant(&*self);
        }
        if self.index == 64 {
            None
        } else {
            let result = Some(self.board.pieces[self.index]);
            self.index += 1;
            result
        }
    }

    /// The number of squares still to come.
    pub fn len(&self) -> (r: usize)
        ensures
            r == 64 - self.position(),
    {
        proof {
            use_type_invariant(self);
        }
        64 - self.index
    }
}

/// A position of the standard game with its pieces packed into four words.
#[derive(Debug, Clone, Copy, PartialEq, Eq)]
pub struct Board {
    side_to_move: StandardColor,
    pieces: QuadBoard<Piece>,
    castling_rights: CastlingPermissions,
    en_passant_square: Option<Square>,
}

impl Board {
    /// Every square holds the code of a piece.
    #[verifier::type_invariant]
    spec fn readable(self) -> bool {
        forall|index: int| 0 <= index < 64 ==> piece_of_code(#[trigger] self.pieces@[index]) is Ok
    }

    /// What stands on each square, a1 first.
    pub closed spec fn placement(&self) -> Seq<Option<StandardPiece>> {
        Seq::new(64, |index: int| piece_of_code(self.pieces@[index])->Ok_0.standard())
    }

    /// The side whose turn it is.
    pub closed spec fn spec_side_to_move(&self) -> StandardColor {
        self.side_to_move
    }

    /// The castling moves that are still allowed.
    pub closed spec fn spec_castling_permissions(&self) -> CastlingPermissions {
        self.castling_rights
    }

    /// The number of the en passant target square, if there is one.
    pub closed spec fn en_passant(&self) -> Option<int> {
        match self.en_passant_square {
            Some(sq) => Some(sq@),
            None => None,
        }
    }

    /// What stands on the given square.
    pub fn get_piece_at(&self, index: Square) -> (r: Option<StandardPiece>)
        ensures
            0 <= index@ < 64,
            r == self.placement()[index@],
    {
        proof {
            use_type_invariant(self);
        }
        match self.pieces.read(index.index()) {
            Ok(piece) => piece.to_standard(),
            Err(_) => None,
        }
    }

    /// The side whose turn it is.
    #[verifier::when_used_as_spec(spec_side_to_move)]
    pub fn side_to_move(&self) -> (r: StandardColor)
        ensures
            r == self.spec_side_to_move(),
    {
        self.side_to_move
    }

    /// The castling moves that are still allowed.
    #[verifier::when_used_as_spec(spec_castling_permissions)]
    pub fn castling_permissions(&self) -> (r: CastlingPermissions)
        ensures
            r == self.spec_castling_permissions(),
    {
        self.castling_rights
    }

    /// The en passant target square, if there is one.
    pub fn en_passant_target_square(&self) -> (r: Option<Square>)
        ensures
            match r {
                Some(sq) => self.en_passant() == Some(sq@),
                None => self.en_passant() is None,
            },
    {
        self.en_passant_square
    }

    /// The eight squares of rank `rank`, the a-file first; rank 0 is the
    /// first rank.
    pub fn rank(&self, rank: u8) -> (r: [Option<StandardPiece>; 8])
        requires
            rank < 8,
        ensures
            r@ == self.placement().subrange(rank * 8, rank * 8 + 8),
    {
        let mut out: [Option<StandardPiece>; 8] = [None; 8];
        let mut file: u8 = 0;
        while file < 8
            invariant
                0 <= file <= 8,
                rank < 8,
                forall|j: int| 0 <= j < file ==> #[trigger] out@[j] == self.placement()[rank * 8 + j],
            decreases 8 - file,
        {
            let square = Square::new(rank * 8 + file);
            out[file as usize] = self.get_piece_at(square);
            file += 1;
        }
        assert(out@ =~= self.placement().subrange(rank * 8, rank * 8 + 8));
        out
    }

    /// The squares of the board in order, a1 first.
    pub fn into_iter(&self) -> (r: BoardIterator<'_>)
        ensures
            r.board() == self,
            r.position() == 0,
    {
        BoardIterator { board: self, index: 0 }
    }

    /// A walk over the ranks of the board that starts before the first
    /// rank.
    pub fn rank_iter(self) -> (r: BoardRankIterator)
        ensures
            r.board() == self,
            r.position() == 0,
    {
        BoardRankIterator { board: self, index: 0 }
    }
}

impl From<Fen> for Board {
    /// The board that holds what the record holds. The two counters of the
    /// record are not kept.
    fn from(value: Fen) -> (r: Self)
        ensures
            r.placement() == value@.pieces,
            r.spec_side_to_move() == value@.side_to_move,
            r.spec_castling_permissions() == value@.castling_permissions,
            r.en_passant() == value@.en_passant_square,
    {
        let squares = value.pieces();
        let mut pieces: QuadBoard<Piece> = QuadBoard::empty();
        let mut i: u8 = 0;
        while i < 64
            invariant
                0 <= i <= 64,
                squares@ == value@.pieces,
                forall|j: int|
                    0 <= j < i ==> #[trigger] pieces@[j] == Piece::of_standard(squares@[j]).code(),
                forall|j: int| i <= j < 64 ==> #[trigger] pieces@[j] == 0,
            decreases 64 - i,
        {
            let piece = Piece::from_standard(squares[i as usize]);
            proof {
                crate::piece::lemma_code_round_trip(piece, 0);
            }
            pieces.write(piece, i);
            i += 1;
        }
        proof {
            assert forall|j: int| 0 <= j < 64 implies piece_of_code(#[trigger] pieces@[j]) == Ok::<
                Piece,
                crate::piece::PieceRepresentationError,
            >(Piece::of_standard(squares@[j])) by {
                crate::piece::lemma_code_round_trip(Piece::of_standard(squares@[j]), 0);
            }
            assert forall|j: int| 0 <= j < 64 implies piece_of_code(
                pieces@[j],
            )->Ok_0.standard() == squares@[j] by {
                crate::piece::lemma_standard_round_trip(squares@[j]);
            }
        }
        let r = Board {
            side_to_move: value.side_to_move(),
            pieces,
            castling_rights: value.castling_permissions(),
            en_passant_square: value.en_passant_square(),
        };
        assert(r.placement() =~= value@.pieces);
        r
    }
}

impl FromSpecImpl<Fen> for Board {
    /// The contract stands on the function itself.
    /// What the conversion gives.
    open spec fn obeys_from_spec() -> bool {
        false
    }

    /// Left open: the contract of the function says what it gives.
    closed spec fn from_spec(v: Fen) -> Self {
        arbitrary()
    }
}

impl Default for Board {
    /// The board at the start of a game.
    fn default() -> (r: Self)
        ensures
            r.placement() == starting_placement(),
            r.spec_side_to_move() == StandardColor::White,
            r.spec_castling_permissions() == (CastlingPermissions {
                white_king_side: true,
                white_queen_side: true,
                black_king_side: true,
                black_queen_side: true,
            }),
            r.en_passant() is None,
    {
        Board::from(Fen::default())
    }
}

impl Fen {
    /// The board that holds what the record holds, its pieces packed into
    /// four words.
    pub fn to_standard_board(self) -> (r: Board)
        ensures
            r.placement() == self@.pieces,
            r.spec_side_to_move() == self@.side_to_move,
            r.spec_castling_permissions() == self@.castling_permissions,
            r.en_passant() == self@.en_passant_square,
    {
        Board::from(self)
    }
}

/// A walk over the squares of a [`Board`], from a1 to h8.
pub struct BoardIterator<'a> {
    board: &'a Board,
    index: usize,
}

impl<'a> BoardIterator<'a> {
    /// At most sixty-four squares have been given out.
    #[verifier::type_invariant]
    spec fn in_bounds(self) -> bool {
        self.index <= 64
    }

    /// The board that is walked over.
    pub closed spec fn board(&self) -> &'a Board {
        self.board
    }

    /// The number of squares already given out.
    pub closed spec fn position(&self) -> int {
        self.index as int
    }

    /// What stands on the next square, or `None` when all sixty-four have
    /// been given out.
    pub fn next(&mut self) -> (r: Option<Option<StandardPiece>>)
        ensures
            0 <= old(self).position() <= 64,
            final(self).board() == old(self).board(),
            old(self).position() < 64 ==> r == Some(
                old(self).board().placement()[old(self).position()],
            ) && final(self).position() == old(self).position() + 1,
            old(self).position() == 64 ==> r is None && final(self).position() == 64,
    {
        proof {
            use_type_invariant(&*self);
        }
        if self.index == 64 {
            return None;
        }
        let square = Square::new(self.index as u8);
        let result = self.board.get_piece_at(square);
        *self = BoardIterator { board: self.board, index: self.index + 1 };
        Some(result)
    }

    /// The number of squares still to come.
    pub fn len(&self) -> (r: usize)
        ensures
            r == 64 - self.position(),
    {
        proof {
            use_type_invariant(self);
        }
        64 - self.index
    }
}

/// A walk over the ranks of a [`Board`], up from the first rank and back
/// down. The walk stands between two ranks, or before the first or behind
/// the eighth.
pub struct BoardRankIterator {
    board: Board,
    index: usize,
}

impl BoardRankIterator {
    /// The walk stands at the start of a rank, or behind the last.
    #[verifier::type_invariant]
    spec fn on_rank_boundary(self) -> bool {
        self.index <= 64 && self.index % 8 == 0
    }

    /// The board that is walked over.
    pub closed spec fn board(&self) -> Board {
        self.board
    }

    /// The number of ranks below the place where the walk stands.
    pub closed spec fn position(&self) -> int {
        self.index as int / 8
    }

    /// The rank above the place where the walk stands, and a step up; or
    /// `None` behind the eighth rank.
    pub fn next(&mut self) -> (r: Option<[Option<StandardPiece>; 8]>)
        ensures
            0 <= old(self).position() <= 8,
            final(self).board() == old(self).board(),
            old(self).position() < 8 ==> r is Some && r->Some_0@ == old(
                self,
            ).board().placement().subrange(
                old(self).position() * 8,
                old(self).position() * 8 + 8,
            ) && final(self).position() == old(self).position() + 1,
            old(self).position() == 8 ==> r is None && final(self).position() == 8,
    {
        proof {
            use_type_invariant(&*self);
        }
        if self.index == 64 {
            return None;
        }
        let rank: u8 = (self.index / 8) as u8;
        let result = self.board.rank(rank);
        *self = BoardRankIterator { board: self.board, index: self.index + 8 };
        Some(result)
    }

    /// The rank below the place where the walk stands, and a step down; or
    /// `None` before the first rank.
    pub fn next_back(&mut self) -> (r: Option<[Option<StandardPiece>; 8]>)
        ensures
            0 <= old(self).position() <= 8,
            final(self).board() == old(self).board(),
            old(self).position() > 0 ==> r is Some && r->Some_0@ == old(
                self,
            ).board().placement().subrange(
                (old(self).position() - 1) * 8,
                old(self).position() * 8,
            ) && final(self).position() == old(self).position() - 1,
            old(self).position() == 0 ==> r is None && final(self).position() == 0,
    {
        proof {
            use_type_invariant(&*self);
        }
        if self.index == 0 {
            return None;
        }
        let rank: u8 = (self.index / 8 - 1) as u8;
        let result = self.board.rank(rank);
        *self = BoardRankIterator { board: self.board, index: self.index - 8 };
        Some(result)
    }

    /// The number of ranks above the place where the walk stands.
    pub fn len(&self) -> (r: usize)
        ensures
            r == 8 - self.position(),
    {
        proof {
            use_type_invariant(self);
        }
        8 - (self.index / 8)
    }
}

} // verus!
