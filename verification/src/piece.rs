//! Pieces as four-bit codes.
//!
//! A square of a packed board holds a side and a kind, the kind `Empty`
//! standing for an empty square. The code of such a value is a number below
//! sixteen: bit 3 is the side, bits 0 to 2 are the kind.

use vstd::prelude::*;
use vstd::std_specs::convert::FromSpecImpl;
use vstd::std_specs::convert::TryFromSpecImpl;
use crate::standard::StandardColor;
use crate::standard::StandardPiece;
use crate::standard::StandardPieceKind;

verus! {

/// Why a value stands for no piece.
#[derive(Debug, Clone, Copy, PartialEq, Eq, Structural)]
pub enum PieceRepresentationError {
    /// The number does not fit in four bits.
    InvalidColorBit,
    /// The low three bits of the number are all set, which is no kind.
    InvalidTypeBits,
    /// The character is no piece letter.
    InvalidChar,
}

/// The side of a piece.
#[derive(Debug, PartialEq, Eq, Clone, Copy, Structural)]
pub enum PieceColor {
    /// The side that moves second, bit 3 clear.
    Black,
    /// The side that moves first, bit 3 set.
    White,
}

/// The kind of a piece.
#[derive(Debug, PartialEq, Eq, Clone, Copy, Structural)]
pub enum PieceType {
    /// No piece, number 0.
    Empty,
    /// A pawn, number 1.
    Pawn,
    /// A rook, number 2.
    Rook,
    /// A knight, number 3.
    Knight,
    /// A bishop, number 4.
    Bishop,
    /// A queen, number 5.
    Queen,
    /// A king, number 6.
    King,
}

/// A side and a kind.
#[derive(Debug, PartialEq, Eq, Clone, Copy, Structural)]
pub struct Piece {
    /// The side.
    pub color: PieceColor,
    /// The kind.
    pub kind: PieceType,
}

impl PieceColor {
    /// The value of bit 3 of the code.
    pub open spec fn bit(self) -> int {
        match self {
            PieceColor::Black => 0,
            PieceColor::White => 1,
        }
    }
}

impl PieceType {
    /// The value of bits 0 to 2 of the code.
    pub open spec fn number(self) -> int {
        match self {
            PieceType::Empty => 0,
            PieceType::Pawn => 1,
            PieceType::Rook => 2,
            PieceType::Knight => 3,
            PieceType::Bishop => 4,
            PieceType::Queen => 5,
            PieceType::King => 6,
        }
    }
}

/// The kind with the given number, where there is one.
pub open spec fn kind_of_number(number: int) -> Option<PieceType> {
    if number == 0 {
        Some(PieceType::Empty)
    } else if number == 1 {
        Some(PieceType::Pawn)
    } else if number == 2 {
        Some(PieceType::Rook)
    } else if number == 3 {
        Some(PieceType::Knight)
    } else if number == 4 {
        Some(PieceType::Bishop)
    } else if number == 5 {
        Some(PieceType::Queen)
    } else if number == 6 {
        Some(PieceType::King)
    } else {
        None
    }
}

/// The piece with the given code. A number of sixteen or more has no side;
/// below that, a number whose low three bits are all set has no kind.
pub open spec fn piece_of_code(value: u8) -> Result<Piece, PieceRepresentationError> {
    if value >= 16 {
        Err(PieceRepresentationError::InvalidColorBit)
    } else if value % 8 == 7 {
        Err(PieceRepresentationError::InvalidTypeBits)
    } else {
        Ok(
            Piece {
                color: if value / 8 == 1 {
                    PieceColor::White
                } else {
                    PieceColor::Black
                },
                kind: kind_of_number((value % 8) as int)->Some_0,
            },
        )
    }
}

/// The piece that a letter names: lower case for Black, upper case for
/// White, `p`, `r`, `n`, `b`, `q`, `k` for the kinds.
pub open spec fn piece_of_char(c: char) -> Result<Piece, PieceRepresentationError> {
    match crate::standard::piece_of_letter(c) {
        Some(p) => Ok(Piece::of_standard(Some(p))),
        None => Err(PieceRepresentationError::InvalidChar),
    }
}

impl Piece {
    /// The code of the piece: eight times the side's bit plus the kind's
    /// number.
    pub open spec fn code(self) -> int {
        self.color.bit() * 8 + self.kind.number()
    }

    /// The value for what stands on a square of the standard game; an empty
    /// square counts as Black's.
    pub open spec fn of_standard(piece: Option<StandardPiece>) -> Piece {
        match piece {
            None => Piece { color: PieceColor::Black, kind: PieceType::Empty },
            Some(p) => Piece {
                color: match p.spec_color() {
                    StandardColor::Black => PieceColor::Black,
                    StandardColor::White => PieceColor::White,
                },
                kind: match p.spec_kind() {
                    StandardPieceKind::Pawn => PieceType::Pawn,
                    StandardPieceKind::Rook => PieceType::Rook,
                    StandardPieceKind::Knight => PieceType::Knight,
                    StandardPieceKind::Bishop => PieceType::Bishop,
                    StandardPieceKind::Queen => PieceType::Queen,
                    StandardPieceKind::King => PieceType::King,
                },
            },
        }
    }

    /// What the value means on a board of the standard game: nothing for
    /// the kind `Empty`, else the piece of its side and kind.
    pub open spec fn standard(self) -> Option<StandardPiece> {
        let color = match self.color {
            PieceColor::Black => StandardColor::Black,
            PieceColor::White => StandardColor::White,
        };
        match self.kind {
            PieceType::Empty => None,
            PieceType::Pawn => Some(crate::board::piece_of(color, StandardPieceKind::Pawn)),
            PieceType::Rook => Some(crate::board::piece_of(color, StandardPieceKind::Rook)),
            PieceType::Knight => Some(crate::board::piece_of(color, StandardPieceKind::Knight)),
            PieceType::Bishop => Some(crate::board::piece_of(color, StandardPieceKind::Bishop)),
            PieceType::Queen => Some(crate::board::piece_of(color, StandardPieceKind::Queen)),
            PieceType::King => Some(crate::board::piece_of(color, StandardPieceKind::King)),
        }
    }

    /// The value for what stands on a square of the standard game.
    pub fn from_standard(piece: Option<StandardPiece>) -> (r: Piece)
        ensures
            r == Piece::of_standard(piece),
    {
        match piece {
            None => Piece { color: PieceColor::Black, kind: PieceType::Empty },
            Some(p) => Piece {
                color: match p.color() {
                    StandardColor::Black => PieceColor::Black,
                    StandardColor::White => PieceColor::White,
                },
                kind: match p.kind() {
                    StandardPieceKind::Pawn => PieceType::Pawn,
                    StandardPieceKind::Rook => PieceType::Rook,
                    StandardPieceKind::Knight => PieceType::Knight,
                    StandardPieceKind::Bishop => PieceType::Bishop,
                    StandardPieceKind::Queen => PieceType::Queen,
                    StandardPieceKind::King => PieceType::King,
                },
            },
        }
    }

    /// What the value means on a board of the standard game.
    pub fn to_standard(self) -> (r: Option<StandardPiece>)
        ensures
            r == self.standard(),
    {
        let color = match self.color {
            PieceColor::Black => StandardColor::Black,
            PieceColor::White => StandardColor::White,
        };
        match self.kind {
            PieceType::Empty => None,
            PieceType::Pawn => Some(StandardPiece::new(color, StandardPieceKind::Pawn)),
            PieceType::Rook => Some(StandardPiece::new(color, StandardPieceKind::Rook)),
            PieceType::Knight => Some(StandardPiece::new(color, StandardPieceKind::Knight)),
            PieceType::Bishop => Some(StandardPiece::new(color, StandardPieceKind::Bishop)),
            PieceType::Queen => Some(StandardPiece::new(color, StandardPieceKind::Queen)),
            PieceType::King => Some(StandardPiece::new(color, StandardPieceKind::King)),
        }
    }

    /// The code of the piece, written in decimal.
    pub fn to_string(&self) -> (r: String)
        ensures
            r@ == crate::text::decimal_text(self.code() as nat),
    {
        let code: u8 = (*self).into();
        let mut chars: Vec<char> = Vec::new();
        crate::text::push_decimal(&mut chars, code as u32);
        crate::text::to_text(&chars)
    }
}

impl TryFrom<u8> for Piece {
    type Error = PieceRepresentationError;

    /// The piece with the given code.
    fn try_from(value: u8) -> (r: Result<Self, Self::Error>)
        ensures
            r == piece_of_code(value),
    {
        assert(value >> 3 == value / 8) by (bit_vector);
        let color = match value >> 3 {
            0 => PieceColor::Black,
            1 => PieceColor::White,
            _ => {
                return Err(PieceRepresentationError::InvalidColorBit);
            },
        };
        let kind = match value % 8 {
            0 => PieceType::Empty,
            1 => PieceType::Pawn,
            2 => PieceType::Rook,
            3 => PieceType::Knight,
            4 => PieceType::Bishop,
            5 => PieceType::Queen,
            6 => PieceType::King,
            _ => {
                return Err(PieceRepresentationError::InvalidTypeBits);
            },
        };
        Ok(Piece { color, kind })
    }
}

impl TryFromSpecImpl<u8> for Piece {
    /// The conversion does what its spec function says.
    /// What the conversion gives.
    open spec fn obeys_try_from_spec() -> bool {
        true
    }

    /// What the conversion gives.
    open spec fn try_from_spec(v: u8) -> Result<Self, Self::Error> {
        piece_of_code(v)
    }
}

impl TryFrom<char> for Piece {
    type Error = PieceRepresentationError;

    /// The piece that a letter names.
    fn try_from(value: char) -> (r: Result<Self, Self::Error>)
        ensures
            r == piece_of_char(value),
    {
        match StandardPiece::try_from(value) {
            Ok(p) => Ok(Piece::from_standard(Some(p))),
            Err(_) => Err(PieceRepresentationError::InvalidChar),
        }
    }
}

impl TryFromSpecImpl<char> for Piece {
    /// The conversion does what its spec function says.
    /// What the conversion gives.
    open spec fn obeys_try_from_spec() -> bool {
        true
    }

    /// What the conversion gives.
    open spec fn try_from_spec(v: char) -> Result<Self, Self::Error> {
        piece_of_char(v)
    }
}

impl From<Piece> for u8 {
    /// The code of the piece.
    fn from(value: Piece) -> (r: u8)
        ensures
            r == value.code(),
            r < 16,
    {
        let color_bit: u8 = match value.color {
            PieceColor::Black => 0,
            PieceColor::White => 1,
        };
        let kind_bits: u8 = match value.kind {
            PieceType::Empty => 0,
            PieceType::Pawn => 1,
            PieceType::Rook => 2,
            PieceType::Knight => 3,
            PieceType::Bishop => 4,
            PieceType::Queen => 5,
            PieceType::King => 6,
        };
        assert(color_bit << 3 == color_bit * 8) by (bit_vector)
            requires
                color_bit <= 1,
        ;
        (color_bit << 3) + kind_bits
    }
}

impl FromSpecImpl<Piece> for u8 {
    /// The conversion does what its spec function says.
    /// What the conversion gives.
    open spec fn obeys_from_spec() -> bool {
        true
    }

    /// What the conversion gives.
    open spec fn from_spec(v: Piece) -> u8 {
        v.code() as u8
    }
}

/// A piece and its code determine each other: the code of a piece is below
/// sixteen and stands for that piece, and a number that stands for a piece
/// is that piece's code.
pub proof fn lemma_code_round_trip(piece: Piece, value: u8)
    ensures
        0 <= piece.code() < 16,
        piece_of_code(piece.code() as u8) == Ok::<Piece, PieceRepresentationError>(piece),
        piece_of_code(value) == Ok::<Piece, PieceRepresentationError>(piece) ==> piece.code()
            == value,
        piece_of_code(value) is Ok <==> value < 16 && value % 8 <= 6,
{
}

/// What stands on a square of the standard game is read back from its
/// value.
pub proof fn lemma_standard_round_trip(piece: Option<StandardPiece>)
    ensures
        Piece::of_standard(piece).standard() == piece,
{
}

} // verus!
