//! The pieces of the standard game.

use vstd::prelude::*;
use vstd::std_specs::convert::FromSpecImpl;
use vstd::std_specs::convert::TryFromSpecImpl;

verus! {

/// One of the twelve pieces of the standard game.
#[derive(Debug, Copy, Clone, Eq, PartialEq, Structural)]
pub enum StandardPiece {
    /// A black pawn.
    BlackPawn,
    /// A black rook.
    BlackRook,
    /// A black knight.
    BlackKnight,
    /// A black bishop.
    BlackBishop,
    /// A black queen.
    BlackQueen,
    /// A black king.
    BlackKing,
    /// A white pawn.
    WhitePawn,
    /// A white rook.
    WhiteRook,
    /// A white knight.
    WhiteKnight,
    /// A white bishop.
    WhiteBishop,
    /// A white queen.
    WhiteQueen,
    /// A white king.
    WhiteKing,
}

/// The two sides.
#[derive(Debug, Eq, PartialEq, Clone, Copy, Structural)]
pub enum StandardColor {
    /// The side that moves second.
    Black,
    /// The side that moves first.
    White,
}

/// The six kinds of piece.
#[derive(Debug, Eq, PartialEq, Clone, Copy, Structural)]
pub enum StandardPieceKind {
    /// A pawn.
    Pawn,
    /// A rook.
    Rook,
    /// A knight.
    Knight,
    /// A bishop.
    Bishop,
    /// A queen.
    Queen,
    /// A king.
    King,
}

/// The piece that a placement letter stands for: lower case is black, upper
/// case is white.
pub open spec fn piece_of_letter(c: char) -> Option<StandardPiece> {
    if c == 'p' {
        Some(StandardPiece::BlackPawn)
    } else if c == 'r' {
        Some(StandardPiece::BlackRook)
    } else if c == 'n' {
        Some(StandardPiece::BlackKnight)
    } else if c == 'b' {
        Some(StandardPiece::BlackBishop)
    } else if c == 'q' {
        Some(StandardPiece::BlackQueen)
    } else if c == 'k' {
        Some(StandardPiece::BlackKing)
    } else if c == 'P' {
        Some(StandardPiece::WhitePawn)
    } else if c == 'R' {
        Some(StandardPiece::WhiteRook)
    } else if c == 'N' {
        Some(StandardPiece::WhiteKnight)
    } else if c == 'B' {
        Some(StandardPiece::WhiteBishop)
    } else if c == 'Q' {
        Some(StandardPiece::WhiteQueen)
    } else if c == 'K' {
        Some(StandardPiece::WhiteKing)
    } else {
        None
    }
}

impl StandardPiece {
    /// The side that the piece belongs to.
    pub open spec fn spec_color(&self) -> StandardColor {
        match self {
            Self::BlackPawn
            | Self::BlackRook
            | Self::BlackKnight
            | Self::BlackBishop
            | Self::BlackQueen
            | Self::BlackKing => StandardColor::Black,
            _ => StandardColor::White,
        }
    }

    /// The kind of the piece.
    pub open spec fn spec_kind(&self) -> StandardPieceKind {
        match self {
            Self::BlackPawn | Self::WhitePawn => StandardPieceKind::Pawn,
            Self::BlackRook | Self::WhiteRook => StandardPieceKind::Rook,
            Self::BlackKnight | Self::WhiteKnight => StandardPieceKind::Knight,
            Self::BlackBishop | Self::WhiteBishop => StandardPieceKind::Bishop,
            Self::BlackQueen | Self::WhiteQueen => StandardPieceKind::Queen,
            Self::BlackKing | Self::WhiteKing => StandardPieceKind::King,
        }
    }

    /// The letter that stands for the piece in a piece placement.
    pub open spec fn spec_letter(self) -> char {
        match self {
            Self::BlackPawn => 'p',
            Self::BlackRook => 'r',
            Self::BlackKnight => 'n',
            Self::BlackBishop => 'b',
            Self::BlackQueen => 'q',
            Self::BlackKing => 'k',
            Self::WhitePawn => 'P',
            Self::WhiteRook => 'R',
            Self::WhiteKnight => 'N',
            Self::WhiteBishop => 'B',
            Self::WhiteQueen => 'Q',
            Self::WhiteKing => 'K',
        }
    }

    /// The figurine of the piece: white king to white pawn are U+2654 to
    /// U+2659, black king to black pawn U+265A to U+265F.
    pub open spec fn spec_symbol(self) -> char {
        match self {
            Self::WhiteKing => '\u{2654}',
            Self::WhiteQueen => '\u{2655}',
            Self::WhiteRook => '\u{2656}',
            Self::WhiteBishop => '\u{2657}',
            Self::WhiteKnight => '\u{2658}',
            Self::WhitePawn => '\u{2659}',
            Self::BlackKing => '\u{265A}',
            Self::BlackQueen => '\u{265B}',
            Self::BlackRook => '\u{265C}',
            Self::BlackBishop => '\u{265D}',
            Self::BlackKnight => '\u{265E}',
            Self::BlackPawn => '\u{265F}',
        }
    }

    /// The side that the piece belongs to.
    #[verifier::when_used_as_spec(spec_color)]
    pub fn color(&self) -> (r: StandardColor)
        ensures
            r == self.spec_color(),
    {
        match self {
            Self::BlackPawn => StandardColor::Black,
            Self::BlackRook => StandardColor::Black,
            Self::BlackKnight => StandardColor::Black,
            Self::BlackBishop => StandardColor::Black,
            Self::BlackQueen => StandardColor::Black,
            Self::BlackKing => StandardColor::Black,
            Self::WhitePawn => StandardColor::White,
            Self::WhiteRook => StandardColor::White,
            Self::WhiteKnight => StandardColor::White,
            Self::WhiteBishop => StandardColor::White,
            Self::WhiteQueen => StandardColor::White,
            Self::WhiteKing => StandardColor::White,
        }
    }

    /// The kind of the piece.
    #[verifier::when_used_as_spec(spec_kind)]
    pub fn kind(&self) -> (r: StandardPieceKind)
        ensures
            r == self.spec_kind(),
    {
        match self {
            Self::BlackPawn => StandardPieceKind::Pawn,
            Self::BlackRook => StandardPieceKind::Rook,
            Self::BlackKnight => StandardPieceKind::Knight,
            Self::BlackBishop => StandardPieceKind::Bishop,
            Self::BlackQueen => StandardPieceKind::Queen,
            Self::BlackKing => StandardPieceKind::King,
            Self::WhitePawn => StandardPieceKind::Pawn,
            Self::WhiteRook => StandardPieceKind::Rook,
            Self::WhiteKnight => StandardPieceKind::Knight,
            Self::WhiteBishop => StandardPieceKind::Bishop,
            Self::WhiteQueen => StandardPieceKind::Queen,
            Self::WhiteKing => StandardPieceKind::King,
        }
    }

    /// The piece of the given side and kind. It is the only piece with that
    /// side and kind.
    pub fn new(color: StandardColor, kind: StandardPieceKind) -> (r: Self)
        ensures
            r.spec_color() == color,
            r.spec_kind() == kind,
            forall|p: StandardPiece| p.spec_color() == color && p.spec_kind() == kind ==> p == r,
    {
        match (color, kind) {
            (StandardColor::Black, StandardPieceKind::Pawn) => Self::BlackPawn,
            (StandardColor::Black, StandardPieceKind::Rook) => Self::BlackRook,
            (StandardColor::Black, StandardPieceKind::Knight) => Self::BlackKnight,
            (StandardColor::Black, StandardPieceKind::Bishop) => Self::BlackBishop,
            (StandardColor::Black, StandardPieceKind::Queen) => Self::BlackQueen,
            (StandardColor::Black, StandardPieceKind::King) => Self::BlackKing,
            (StandardColor::White, StandardPieceKind::Pawn) => Self::WhitePawn,
            (StandardColor::White, StandardPieceKind::Rook) => Self::WhiteRook,
            (StandardColor::White, StandardPieceKind::Knight) => Self::WhiteKnight,
            (StandardColor::White, StandardPieceKind::Bishop) => Self::WhiteBishop,
            (StandardColor::White, StandardPieceKind::Queen) => Self::WhiteQueen,
            (StandardColor::White, StandardPieceKind::King) => Self::WhiteKing,
        }
    }

    /// The figurine of the piece.
    pub fn into_utf8_chess_symbol(self) -> (r: char)
        ensures
            r == self.spec_symbol(),
    {
        match self {
            Self::WhiteKing => '\u{2654}',
            Self::WhiteQueen => '\u{2655}',
            Self::WhiteRook => '\u{2656}',
            Self::WhiteBishop => '\u{2657}',
            Self::WhiteKnight => '\u{2658}',
            Self::WhitePawn => '\u{2659}',
            Self::BlackKing => '\u{265A}',
            Self::BlackQueen => '\u{265B}',
            Self::BlackRook => '\u{265C}',
            Self::BlackBishop => '\u{265D}',
            Self::BlackKnight => '\u{265E}',
            Self::BlackPawn => '\u{265F}',
        }
    }
}

impl TryFrom<char> for StandardPiece {
    type Error = ();

    /// Reads a placement letter. Any other character is refused.
    fn try_from(value: char) -> (r: Result<Self, Self::Error>)
        ensures
            r == (match piece_of_letter(value) {
                Some(p) => Ok::<StandardPiece, ()>(p),
                None => Err(()),
            }),
    {
        match value {
            'p' => Ok(StandardPiece::BlackPawn),
            'r' => Ok(StandardPiece::BlackRook),
            'n' => Ok(StandardPiece::BlackKnight),
            'b' => Ok(StandardPiece::BlackBishop),
            'q' => Ok(StandardPiece::BlackQueen),
            'k' => Ok(StandardPiece::BlackKing),
            'P' => Ok(StandardPiece::WhitePawn),
            'R' => Ok(StandardPiece::WhiteRook),
            'N' => Ok(StandardPiece::WhiteKnight),
            'B' => Ok(StandardPiece::WhiteBishop),
            'Q' => Ok(StandardPiece::WhiteQueen),
            'K' => Ok(StandardPiece::WhiteKing),
            _ => Err(()),
        }
    }
}

impl TryFromSpecImpl<char> for StandardPiece {
    /// The conversion does what its spec function says.
    /// What the conversion gives.
    open spec fn obeys_try_from_spec() -> bool {
        true
    }

    /// What the conversion gives.
    open spec fn try_from_spec(v: char) -> Result<Self, Self::Error> {
        match piece_of_letter(v) {
            Some(p) => Ok(p),
            None => Err(()),
        }
    }
}

impl From<StandardPiece> for char {
    /// The placement letter of the piece.
    fn from(value: StandardPiece) -> (r: char)
        ensures
            r == value.spec_letter(),
    {
        match value {
            StandardPiece::BlackPawn => 'p',
            StandardPiece::BlackRook => 'r',
            StandardPiece::BlackKnight => 'n',
            StandardPiece::BlackBishop => 'b',
            StandardPiece::BlackQueen => 'q',
            StandardPiece::BlackKing => 'k',
            StandardPiece::WhitePawn => 'P',
            StandardPiece::WhiteRook => 'R',
            StandardPiece::WhiteKnight => 'N',
            StandardPiece::WhiteBishop => 'B',
            StandardPiece::WhiteQueen => 'Q',
            StandardPiece::WhiteKing => 'K',
        }
    }
}

impl FromSpecImpl<StandardPiece> for char {
    /// The conversion does what its spec function says.
    /// What the conversion gives.
    open spec fn obeys_from_spec() -> bool {
        true
    }

    /// What the conversion gives.
    open spec fn from_spec(v: StandardPiece) -> char {
        v.spec_letter()
    }
}

/// A letter and its piece determine each other.
pub proof fn lemma_letter_round_trip(p: StandardPiece, c: char)
    ensures
        piece_of_letter(p.spec_letter()) == Some(p),
        piece_of_letter(c) == Some(p) ==> p.spec_letter() == c,
{
}

} // verus!
