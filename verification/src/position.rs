//! A board of pieces in thirty-two bytes.

use vstd::prelude::*;
use crate::piece::Piece;
use crate::piece::PieceRepresentationError;
use crate::piece::piece_of_code;
use crate::quadboard::QuadBoard;

verus! {

/// What stands on each of the sixty-four squares, each square as the code
/// of its piece.
#[derive(Debug, PartialEq, Eq)]
pub struct Position {
    codes: QuadBoard<Piece>,
}

impl View for Position {
    type V = Seq<u8>;

    /// The sixty-four codes, square 0 first.
    closed spec fn view(&self) -> Seq<u8> {
        self.codes@
    }
}

impl Position {
    /// The piece of square `index`, or why its code stands for none.
    pub fn try_get(&self, index: u8) -> (r: Result<Piece, PieceRepresentationError>)
        requires
            index < 64,
        ensures
            self@.len() == 64,
            self@[index as int] < 16,
            r == piece_of_code(self@[index as int]),
    {
        let code = self.codes.get_unchecked(index);
        Piece::try_from(code)
    }

    /// Puts `piece` on square `index`. Fails, and changes nothing, where
    /// `index` is no square.
    pub fn try_write(&mut self, index: u8, piece: Piece) -> (r: Result<(), ()>)
        ensures
            index < 64 ==> r is Ok && final(self)@ == old(self)@.update(
                index as int,
                piece.code() as u8,
            ),
            index >= 64 ==> r is Err && final(self)@ == old(self)@,
    {
        if index >= 64 {
            return Err(());
        }
        self.codes.write(piece, index);
        Ok(())
    }

    /// The position with no piece on any square: every code is zero.
    pub fn empty() -> (r: Position)
        ensures
            r@.len() == 64,
            forall|index: int| 0 <= index < 64 ==> #[trigger] r@[index] == 0,
    {
        Position { codes: QuadBoard::empty() }
    }
}

/// A piece that was put on a square is found there, and the other squares
/// hold what they held.
pub proof fn lemma_written_piece(before: Seq<u8>, piece: Piece, index: int, other: int)
    requires
        before.len() == 64,
        0 <= index < 64,
        0 <= other < 64,
    ensures
        piece_of_code(before.update(index, piece.code() as u8)[index]) == Ok::<
            Piece,
            PieceRepresentationError,
        >(piece),
        other != index ==> before.update(index, piece.code() as u8)[other] == before[other],
{
    crate::piece::lemma_code_round_trip(piece, 0);
}

} // verus!
