//! Squares of the board.
//!
//! A square is a number from 0 to 63: the rank times eight plus the file, so
//! that 0 is a1, 7 is h1 and 63 is h8.

use vstd::prelude::*;
use vstd::std_specs::convert::FromSpecImpl;
use vstd::std_specs::convert::TryFromSpecImpl;

verus! {

/// Why a value is not a square.
#[derive(Debug, Eq, PartialEq, Structural)]
pub enum IndexError<T> {
    /// The number lies outside the board.
    OutOfBounds(T),
    /// The text is not a file letter followed by a rank digit.
    InvalidFormat(T),
}

/// Whether `c` names a file: one of the letters `a` to `h`.
pub open spec fn is_file_letter(c: char) -> bool {
    'a' <= c && c <= 'h'
}

/// Whether `c` names a rank: one of the digits `1` to `8`.
pub open spec fn is_rank_digit(c: char) -> bool {
    '1' <= c && c <= '8'
}

/// The number of the file that `c` names: 0 for `a`, 7 for `h`.
pub open spec fn file_of_letter(c: char) -> int
    recommends
        is_file_letter(c),
{
    c as int - 'a' as int
}

/// The number of the rank that `c` names: 0 for `1`, 7 for `8`.
pub open spec fn rank_of_digit(c: char) -> int
    recommends
        is_rank_digit(c),
{
    c as int - '1' as int
}

/// The letter of file `file`.
pub open spec fn letter_of_file(file: int) -> char
    recommends
        0 <= file < 8,
{
    (file + 'a' as int) as char
}

/// The digit of rank `rank`.
pub open spec fn digit_of_rank(rank: int) -> char
    recommends
        0 <= rank < 8,
{
    (rank + '1' as int) as char
}

/// The square that `text` names in algebraic notation, where it names one.
pub open spec fn square_of_text(text: Seq<char>) -> Option<int> {
    if text.len() == 2 && is_file_letter(text[0]) && is_rank_digit(text[1]) {
        Some(rank_of_digit(text[1]) * 8 + file_of_letter(text[0]))
    } else {
        None
    }
}

/// The algebraic name of square `index`.
pub open spec fn text_of_square(index: int) -> Seq<char>
    recommends
        0 <= index < 64,
{
    seq![letter_of_file(index % 8), digit_of_rank(index / 8)]
}

/// Whether `c` names a file.
pub fn file_letter(c: char) -> (r: bool)
    ensures
        r == is_file_letter(c),
{
    'a' <= c && c <= 'h'
}

/// Whether `c` names a rank.
pub fn rank_digit(c: char) -> (r: bool)
    ensures
        r == is_rank_digit(c),
{
    '1' <= c && c <= '8'
}

/// A square of the board.
#[derive(Copy, Clone, Eq, PartialEq, Debug, Structural)]
pub struct Square {
    index: u8,
}

/// Another name for [`Square`].
pub type StandardIndex = Square;

impl View for Square {
    type V = int;

    /// The number of the square.
    closed spec fn view(&self) -> int {
        self.index as int
    }
}

impl Square {
    /// The number is below sixty-four.
    #[verifier::type_invariant]
    spec fn in_bounds(self) -> bool {
        self.index < 64
    }

    /// The square with the given number.
    pub fn new(value: u8) -> (r: Self)
        requires
            value <= 63,
        ensures
            r@ == value,
    {
        Square { index: value }
    }

    /// The number of the square.
    pub fn index(&self) -> (r: u8)
        ensures
            r == self@,
            r < 64,
    {
        proof {
            use_type_invariant(self);
        }
        self.index
    }

    /// The file of the square, 0 for the a-file.
    pub fn file(&self) -> (r: u8)
        ensures
            r == self@ % 8,
    {
        self.index % 8
    }

    /// The rank of the square, 0 for the first rank.
    pub fn rank(&self) -> (r: u8)
        ensures
            r == self@ / 8,
    {
        self.index / 8
    }

    /// The square that `text` names in algebraic notation, such as `e4`.
    pub fn from_chars(text: &Vec<char>) -> (r: Option<Self>)
        ensures
            match r {
                Some(sq) => square_of_text(text@) == Some(sq@),
                None => square_of_text(text@) is None,
            },
    {
        if text.len() != 2 {
            return None;
        }
        let file = text[0];
        let rank = text[1];
        if !file_letter(file) || !rank_digit(rank) {
            return None;
        }
        let rank_offset: u8 = ((rank as u8) - 49) * 8;
        let file_offset: u8 = (file as u8) - 97;
        Some(Square { index: rank_offset + file_offset })
    }

    /// The algebraic name of the square: its file letter, then its rank digit.
    pub fn to_chars(&self) -> (r: Vec<char>)
        ensures
            r@ == text_of_square(self@),
    {
        proof {
            use_type_invariant(self);
        }
        let rank: char = ((self.index / 8) + 49) as char;
        let file: char = ((self.index % 8) + 97) as char;
        let mut out: Vec<char> = Vec::new();
        out.push(file);
        out.push(rank);
        out
    }
}

impl TryFrom<u8> for Square {
    type Error = IndexError<u8>;

    /// The square numbered `value`, or `OutOfBounds` from 64 on.
    fn try_from(value: u8) -> (r: Result<Self, Self::Error>)
        ensures
            value < 64 ==> r is Ok && r->Ok_0@ == value,
            value >= 64 ==> r == Err::<Square, IndexError<u8>>(IndexError::OutOfBounds(value)),
    {
        if value <= 63 {
            Ok(Square { index: value })
        } else {
            Err(IndexError::OutOfBounds(value))
        }
    }
}

impl TryFromSpecImpl<u8> for Square {
    /// The conversion does what its spec function says.
    /// What the conversion gives.
    open spec fn obeys_try_from_spec() -> bool {
        true
    }

    /// What the conversion gives.
    closed spec fn try_from_spec(v: u8) -> Result<Self, Self::Error> {
        if v <= 63 {
            Ok(Square { index: v })
        } else {
            Err(IndexError::OutOfBounds(v))
        }
    }
}

impl TryFrom<usize> for Square {
    type Error = IndexError<usize>;

    /// The square numbered `value`, or `OutOfBounds` from 64 on.
    fn try_from(value: usize) -> (r: Result<Self, Self::Error>)
        ensures
            value < 64 ==> r is Ok && r->Ok_0@ == value,
            value >= 64 ==> r == Err::<Square, IndexError<usize>>(IndexError::OutOfBounds(value)),
    {
        if value <= 63 {
            Ok(Square { index: value as u8 })
        } else {
            Err(IndexError::OutOfBounds(value))
        }
    }
}

impl TryFromSpecImpl<usize> for Square {
    /// The conversion does what its spec function says.
    /// What the conversion gives.
    open spec fn obeys_try_from_spec() -> bool {
        true
    }

    /// What the conversion gives.
    closed spec fn try_from_spec(v: usize) -> Result<Self, Self::Error> {
        if v <= 63 {
            Ok(Square { index: v as u8 })
        } else {
            Err(IndexError::OutOfBounds(v))
        }
    }
}

impl<'a> TryFrom<&'a str> for Square {
    type Error = IndexError<&'a str>;

    /// The square that `value` names in algebraic notation, or
    /// `InvalidFormat` with the text.
    fn try_from(value: &'a str) -> (r: Result<Self, Self::Error>)
        ensures
            match r {
                Ok(sq) => square_of_text(value@) == Some(sq@),
                Err(e) => square_of_text(value@) is None && e == IndexError::InvalidFormat(value),
            },
    {
        let chars = crate::text::to_chars(value);
        match Square::from_chars(&chars) {
            Some(sq) => Ok(sq),
            None => Err(IndexError::InvalidFormat(value)),
        }
    }
}

impl<'a> TryFromSpecImpl<&'a str> for Square {
    /// The contract stands on the function itself.
    /// What the conversion gives.
    open spec fn obeys_try_from_spec() -> bool {
        false
    }

    /// Left open: the contract of the function says what it gives.
    closed spec fn try_from_spec(v: &'a str) -> Result<Self, Self::Error> {
        arbitrary()
    }
}

impl core::str::FromStr for Square {
    type Err = IndexError<String>;

    /// The square that `value` names in algebraic notation, or
    /// `InvalidFormat` with a copy of the text.
    fn from_str(value: &str) -> (r: Result<Self, Self::Err>)
        ensures
            match r {
                Ok(sq) => square_of_text(value@) == Some(sq@),
                Err(IndexError::InvalidFormat(text)) => square_of_text(value@) is None && text@
                    == value@,
                Err(IndexError::OutOfBounds(_)) => false,
            },
    {
        let chars = crate::text::to_chars(value);
        match Square::from_chars(&chars) {
            Some(sq) => Ok(sq),
            None => Err(IndexError::InvalidFormat(crate::text::to_text(&chars))),
        }
    }
}

impl From<Square> for u8 {
    /// The number of the square.
    fn from(value: Square) -> (r: u8)
        ensures
            r == value@,
            r < 64,
    {
        value.index()
    }
}

impl FromSpecImpl<Square> for u8 {
    /// The conversion does what its spec function says.
    /// What the conversion gives.
    open spec fn obeys_from_spec() -> bool {
        true
    }

    /// What the conversion gives.
    closed spec fn from_spec(v: Square) -> u8 {
        v.index
    }
}

impl From<Square> for usize {
    /// The number of the square.
    fn from(value: Square) -> (r: usize)
        ensures
            r == value@,
            r < 64,
    {
        value.index() as usize
    }
}

impl FromSpecImpl<Square> for usize {
    /// The conversion does what its spec function says.
    /// What the conversion gives.
    open spec fn obeys_from_spec() -> bool {
        true
    }

    /// What the conversion gives.
    closed spec fn from_spec(v: Square) -> usize {
        v.index as usize
    }
}

impl From<Square> for String {
    /// The algebraic name of the square.
    fn from(value: Square) -> (r: String)
        ensures
            r@ == text_of_square(value@),
    {
        let chars = value.to_chars();
        crate::text::to_text(&chars)
    }
}

impl FromSpecImpl<Square> for String {
    /// The contract stands on the function itself.
    /// What the conversion gives.
    open spec fn obeys_from_spec() -> bool {
        false
    }

    /// Left open: the contract of the function says what it gives.
    closed spec fn from_spec(v: Square) -> String {
        arbitrary()
    }
}

/// The algebraic name of a square names that square, and a text that names a
/// square is that square's name.
pub proof fn lemma_square_text_round_trip(index: int, text: Seq<char>)
    ensures
        0 <= index < 64 ==> square_of_text(text_of_square(index)) == Some(index),
        square_of_text(text) is Some ==> 0 <= square_of_text(text)->Some_0 < 64 && text_of_square(
            square_of_text(text)->Some_0,
        ) == text,
{
    if square_of_text(text) is Some {
        let i = square_of_text(text)->Some_0;
        assert(text_of_square(i) =~= text);
    }
}

} // verus!
