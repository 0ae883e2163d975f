//! Forsyth-Edwards Notation: a whole position as one line of text.
//!
//! A position is written as six fields with one space between neighbours:
//! the piece placement, the side to move, the castling permissions, the en
//! passant target square, the halfmove clock and the fullmove counter. The
//! initial position reads
//! `rnbqkbnr/pppppppp/8/8/8/8/PPPPPPPP/RNBQKBNR w KQkq - 0 1`.
//!
//! [`fen_decode_spec`] says which record a text stands for, or why it stands
//! for none; [`fen_encode_spec`] says how a record is written. A valid record
//! is read back from its text ([`lemma_decode_encode`]); a text is written
//! back from its record exactly where it is canonical
//! ([`lemma_canonical_round_trip`], [`lemma_encode_is_canonical`]).

use vstd::prelude::*;
use vstd::std_specs::convert::FromSpecImpl;
use vstd::std_specs::convert::TryFromSpecImpl;
use crate::board::CastlingPermissions;
use crate::piece::Piece;
use crate::piece::PieceColor;
use crate::position::Position;
use crate::square::is_file_letter;
use crate::square::is_rank_digit;
use crate::square::rank_digit;
use crate::square::rank_of_digit;
use crate::square::file_of_letter;
use crate::square::letter_of_file;
use crate::square::file_letter;
use crate::square::Square;
use crate::standard::StandardColor;
use crate::standard::StandardPiece;
use crate::standard::piece_of_letter;
use crate::text::all_digits;
use crate::text::decimal_text;
use crate::text::decimal_value;
use crate::text::digit_prefix_len;
use crate::text::free_of;
use crate::text::join_spec;
use crate::text::lemma_join_free;
use crate::text::lemma_join_push;
use crate::text::lemma_split_join;
use crate::text::split_spec;

verus! {

/// Why a text is not a position in Forsyth-Edwards Notation.
#[derive(Debug, Clone, Copy, PartialEq, Eq, Structural)]
pub enum FenParseError {
    /// The first field is not eight ranks of eight squares each.
    InvalidPositionComponent,
    /// The second field is neither `w` nor `b`.
    InvalidPieceToMoveComponent,
    /// The third field is neither `-` nor letters of `KQkq` in that order.
    InvalidCastlingPermissionsComponent,
    /// The fourth field is neither `-` nor a square of the third or sixth rank.
    InvalidEnPassantTargetSquareComponent,
    /// The fifth field is not a number from 0 to 100.
    InvalidHalfmoveClockComponent,
    /// The sixth field does not start with a number from 1 to 65535.
    InvalidFullmoveCounterComponent,
    /// The text has fewer than six fields.
    TooFewFields,
    /// The text has more than six fields.
    TooManyFields,
    /// Something other than a digit follows the fullmove counter.
    TrailingGarbage,
}

/// The greatest halfmove clock that a position can have.
pub const HALFMOVE_CLOCK_MAX: u8 = 100;

/// The side that the second field names.
pub open spec fn side_of_text(f: Seq<char>) -> Option<StandardColor> {
    if f.len() == 1 && f[0] == 'w' {
        Some(StandardColor::White)
    } else if f.len() == 1 && f[0] == 'b' {
        Some(StandardColor::Black)
    } else {
        None
    }
}

/// How a side is written: `w` for White, `b` for Black.
pub open spec fn text_of_side(side: StandardColor) -> Seq<char> {
    match side {
        StandardColor::White => seq!['w'],
        StandardColor::Black => seq!['b'],
    }
}

/// The castling permissions that the third field names. The field is `-` for
/// none, or else the letters of the permissions that hold, each at most
/// once and in the order `K`, `Q`, `k`, `q`.
pub open spec fn castling_of_text(f: Seq<char>) -> Option<CastlingPermissions> {
    if f.len() == 1 && f[0] == '-' {
        Some(
            CastlingPermissions {
                white_king_side: false,
                white_queen_side: false,
                black_king_side: false,
                black_queen_side: false,
            },
        )
    } else {
        let wk = f.len() > 0 && f[0] == 'K';
        let a: int = if wk { 1 } else { 0 };
        let wq = f.len() > a && f[a] == 'Q';
        let b: int = if wq { a + 1 } else { a };
        let bk = f.len() > b && f[b] == 'k';
        let c: int = if bk { b + 1 } else { b };
        let bq = f.len() > c && f[c] == 'q';
        let d: int = if bq { c + 1 } else { c };
        if d == f.len() && d > 0 {
            Some(
                CastlingPermissions {
                    white_king_side: wk,
                    white_queen_side: wq,
                    black_king_side: bk,
                    black_queen_side: bq,
                },
            )
        } else {
            None
        }
    }
}

/// `letter` where `held` is true, else nothing.
pub open spec fn letter_if(held: bool, letter: char) -> Seq<char> {
    if held {
        seq![letter]
    } else {
        Seq::empty()
    }
}

/// How castling permissions are written.
pub open spec fn text_of_castling(p: CastlingPermissions) -> Seq<char> {
    if !p.white_king_side && !p.white_queen_side && !p.black_king_side && !p.black_queen_side {
        seq!['-']
    } else {
        letter_if(p.white_king_side, 'K') + letter_if(p.white_queen_side, 'Q') + letter_if(
            p.black_king_side,
            'k',
        ) + letter_if(p.black_queen_side, 'q')
    }
}

/// The en passant target that the fourth field names: `-` for none, or a
/// file letter followed by `3` or `6`.
pub open spec fn en_passant_of_text(f: Seq<char>) -> Option<Option<int>> {
    if f.len() == 1 && f[0] == '-' {
        Some(None)
    } else if f.len() == 2 && is_file_letter(f[0]) && f[1] == '3' {
        Some(Some(16 + file_of_letter(f[0])))
    } else if f.len() == 2 && is_file_letter(f[0]) && f[1] == '6' {
        Some(Some(40 + file_of_letter(f[0])))
    } else {
        None
    }
}

/// Whether `index` is a square of the third or the sixth rank.
pub open spec fn en_passant_rank(index: int) -> bool {
    16 <= index < 24 || 40 <= index < 48
}

/// How an en passant target is written.
pub open spec fn text_of_en_passant(target: Option<int>) -> Seq<char> {
    match target {
        None => seq!['-'],
        Some(index) => seq![letter_of_file(index % 8), if index < 24 { '3' } else { '6' }],
    }
}

/// The halfmove clock that the fifth field names: digits worth at most 100.
pub open spec fn halfmove_of_text(f: Seq<char>) -> Option<int> {
    if f.len() > 0 && all_digits(f) && decimal_value(f) <= 100 {
        Some(decimal_value(f) as int)
    } else {
        None
    }
}

/// The fullmove counter that the sixth field names: digits worth 1 to 65535,
/// with nothing after them.
pub open spec fn fullmove_of_text(f: Seq<char>) -> Result<int, FenParseError> {
    let n = digit_prefix_len(f);
    let value = decimal_value(f.take(n));
    if n == 0 || value < 1 || value > 65535 {
        Err(FenParseError::InvalidFullmoveCounterComponent)
    } else if n < f.len() {
        Err(FenParseError::TrailingGarbage)
    } else {
        Ok(value as int)
    }
}

/// Whether `c` can stand in a rank of the piece placement: a piece letter or
/// a digit from `1` to `8`.
pub open spec fn is_placement_char(c: char) -> bool {
    is_rank_digit(c) || piece_of_letter(c) is Some
}

/// The squares that one character of a rank covers: a digit covers that many
/// empty squares, a piece letter one square with that piece.
pub open spec fn token_squares(c: char) -> Seq<Option<StandardPiece>> {
    if is_rank_digit(c) {
        Seq::new((rank_of_digit(c) + 1) as nat, |i: int| None::<StandardPiece>)
    } else if piece_of_letter(c) is Some {
        seq![piece_of_letter(c)]
    } else {
        Seq::empty()
    }
}

/// The squares that the characters of `f` cover, from the a-file on.
pub open spec fn rank_squares(f: Seq<char>) -> Seq<Option<StandardPiece>>
    decreases f.len(),
{
    if f.len() == 0 {
        Seq::empty()
    } else {
        rank_squares(f.drop_last()) + token_squares(f.last())
    }
}

/// The eight squares of the rank that `f` writes: `f` holds piece letters and
/// digits from `1` to `8` only, and they cover exactly eight squares.
pub open spec fn rank_of_text(f: Seq<char>) -> Option<Seq<Option<StandardPiece>>> {
    if (forall|j: int| 0 <= j < f.len() ==> is_placement_char(#[trigger] f[j])) && rank_squares(
        f,
    ).len() == 8 {
        Some(rank_squares(f))
    } else {
        None
    }
}

/// The sixty-four squares that the first field writes. The field holds eight
/// ranks with `/` between them, the eighth rank first; square 0 is a1.
pub open spec fn placement_of_text(f: Seq<char>) -> Option<Seq<Option<StandardPiece>>> {
    let ranks = split_spec(f, '/');
    if ranks.len() == 8 && (forall|k: int| 0 <= k < 8 ==> rank_of_text(#[trigger] ranks[k]) is Some) {
        Some(Seq::new(64, |i: int| rank_of_text(ranks[7 - i / 8])->Some_0[i % 8]))
    } else {
        None
    }
}

/// A beginning of a rank text covers no more squares than the whole.
pub proof fn lemma_rank_squares_prefix(f: Seq<char>, k: int)
    requires
        0 <= k <= f.len(),
    ensures
        rank_squares(f.take(k)).len() <= rank_squares(f).len(),
    decreases f.len() - k,
{
    if k == f.len() {
        assert(f.take(k) == f);
    } else {
        lemma_rank_squares_prefix(f, k + 1);
        assert(f.take(k + 1).drop_last() == f.take(k));
    }
}

/// Reads one rank of the piece placement.
pub fn rank_from_chars(f: &Vec<char>) -> (r: Option<Vec<Option<StandardPiece>>>)
    ensures
        match r {
            Some(squares) => rank_of_text(f@) == Some(squares@),
            None => rank_of_text(f@) is None,
        },
{
    let mut squares: Vec<Option<StandardPiece>> = Vec::new();
    let mut i: usize = 0;
    assert(f@.take(0).len() == 0);
    while i < f.len()
        invariant
            0 <= i <= f.len(),
            squares@ == rank_squares(f@.take(i as int)),
            squares@.len() <= 8,
            forall|j: int| 0 <= j < i ==> is_placement_char(#[trigger] f@[j]),
        decreases f.len() - i,
    {
        let c = f[i];
        proof {
            assert(f@.take(i as int + 1).drop_last() == f@.take(i as int));
            assert(f@.take(i as int + 1).last() == c);
            lemma_rank_squares_prefix(f@, i as int + 1);
        }
        if rank_digit(c) {
            let width: usize = ((c as u8) - 48) as usize;
            if squares.len() + width > 8 {
                return None;
            }
            let mut n: usize = 0;
            let ghost before = squares@;
            while n < width
                invariant
                    0 <= n <= width,
                    squares@ == before + Seq::new(n as nat, |i: int| None::<StandardPiece>),
                decreases width - n,
            {
                squares.push(None);
                n += 1;
                assert(squares@ == before + Seq::new(n as nat, |i: int| None::<StandardPiece>));
            }
        } else {
            match StandardPiece::try_from(c) {
                Ok(piece) => {
                    if squares.len() == 8 {
                        return None;
                    }
                    squares.push(Some(piece));
                    assert(squares@ == rank_squares(f@.take(i as int)) + seq![Some(piece)]);
                },
                Err(_) => {
                    assert(!is_placement_char(f@[i as int]));
                    return None;
                },
            }
        }
        i += 1;
    }
    assert(f@.take(i as int) == f@);
    if squares.len() == 8 {
        Some(squares)
    } else {
        None
    }
}

/// Reads the piece placement from its field.
pub fn placement_from_chars(f: &Vec<char>) -> (r: Result<
    [Option<StandardPiece>; 64],
    FenParseError,
>)
    ensures
        match r {
            Ok(pieces) => placement_of_text(f@) == Some(pieces@),
            Err(e) => placement_of_text(f@) is None && e == FenParseError::InvalidPositionComponent,
        },
{
    let ranks = crate::text::split(f, '/');
    if ranks.len() != 8 {
        return Err(FenParseError::InvalidPositionComponent);
    }
    let ghost texts = split_spec(f@, '/');
    let mut pieces: [Option<StandardPiece>; 64] = [None; 64];
    let mut k: usize = 0;
    while k < 8
        invariant
            0 <= k <= 8,
            ranks@.len() == 8,
            texts == split_spec(f@, '/'),
            texts.len() == 8,
            forall|n: int| 0 <= n < 8 ==> (#[trigger] ranks@[n])@ == texts[n],
            forall|n: int| 0 <= n < k ==> rank_of_text(#[trigger] texts[n]) is Some,
            forall|i: int|
                0 <= i < 64 && 7 - i / 8 < k ==> #[trigger] pieces@[i] == rank_of_text(
                    texts[7 - i / 8],
                )->Some_0[i % 8],
        decreases 8 - k,
    {
        match rank_from_chars(&ranks[k]) {
            None => {
                assert(rank_of_text(texts[k as int]) is None);
                return Err(FenParseError::InvalidPositionComponent);
            },
            Some(squares) => {
                let base: usize = (7 - k) * 8;
                let mut j: usize = 0;
                while j < 8
                    invariant
                        0 <= j <= 8,
                        0 <= k < 8,
                        base == (7 - k) * 8,
                        texts.len() == 8,
                        rank_of_text(texts[k as int]) == Some(squares@),
                        squares@.len() == 8,
                        forall|i: int|
                            0 <= i < 64 && 7 - i / 8 < k ==> #[trigger] pieces@[i] == rank_of_text(
                                texts[7 - i / 8],
                            )->Some_0[i % 8],
                        forall|i: int|
                            0 <= i < 64 && 7 - i / 8 == k && i % 8 < j ==> #[trigger] pieces@[i]
                                == squares@[i % 8],
                    decreases 8 - j,
                {
                    pieces[base + j] = squares[j];
                    j += 1;
                }
            },
        }
        k += 1;
    }
    assert(pieces@ =~= Seq::new(64, |i: int| rank_of_text(texts[7 - i / 8])->Some_0[i % 8]));
    Ok(pieces)
}

/// Reads the side to move from its field.
pub fn side_from_chars(f: &Vec<char>) -> (r: Result<StandardColor, FenParseError>)
    ensures
        r == (match side_of_text(f@) {
            Some(side) => Ok::<StandardColor, FenParseError>(side),
            None => Err(FenParseError::InvalidPieceToMoveComponent),
        }),
{
    if f.len() != 1 {
        return Err(FenParseError::InvalidPieceToMoveComponent);
    }
    match f[0] {
        'w' => Ok(StandardColor::White),
        'b' => Ok(StandardColor::Black),
        _ => Err(FenParseError::InvalidPieceToMoveComponent),
    }
}

/// Reads the castling permissions from their field.
pub fn castling_from_chars(f: &Vec<char>) -> (r: Result<CastlingPermissions, FenParseError>)
    ensures
        r == (match castling_of_text(f@) {
            Some(p) => Ok::<CastlingPermissions, FenParseError>(p),
            None => Err(FenParseError::InvalidCastlingPermissionsComponent),
        }),
{
    if f.len() == 1 && f[0] == '-' {
        return Ok(CastlingPermissions::none());
    }
    let mut permissions = CastlingPermissions::none();
    let mut at: usize = 0;
    if at < f.len() && f[at] == 'K' {
        permissions.white_king_side = true;
        at += 1;
    }
    if at < f.len() && f[at] == 'Q' {
        permissions.white_queen_side = true;
        at += 1;
    }
    if at < f.len() && f[at] == 'k' {
        permissions.black_king_side = true;
        at += 1;
    }
    if at < f.len() && f[at] == 'q' {
        permissions.black_queen_side = true;
        at += 1;
    }
    if at == f.len() && at > 0 {
        Ok(permissions)
    } else {
        Err(FenParseError::InvalidCastlingPermissionsComponent)
    }
}

/// Reads the en passant target square from its field.
pub fn en_passant_from_chars(f: &Vec<char>) -> (r: Result<Option<Square>, FenParseError>)
    ensures
        match r {
            Ok(None) => en_passant_of_text(f@) == Some(None::<int>),
            Ok(Some(sq)) => en_passant_of_text(f@) == Some(Some(sq@)),
            Err(e) => en_passant_of_text(f@) is None && e
                == FenParseError::InvalidEnPassantTargetSquareComponent,
        },
{
    if f.len() == 1 && f[0] == '-' {
        return Ok(None);
    }
    if f.len() != 2 || !file_letter(f[0]) {
        return Err(FenParseError::InvalidEnPassantTargetSquareComponent);
    }
    let rank_offset: u8 = match f[1] {
        '3' => 16,
        '6' => 40,
        _ => {
            return Err(FenParseError::InvalidEnPassantTargetSquareComponent);
        },
    };
    let file_offset: u8 = (f[0] as u8) - 97;
    Ok(Some(Square::new(rank_offset + file_offset)))
}

/// Reads the halfmove clock from its field.
pub fn halfmove_from_chars(f: &Vec<char>) -> (r: Result<u8, FenParseError>)
    ensures
        r == (match halfmove_of_text(f@) {
            Some(clock) => Ok::<u8, FenParseError>(clock as u8),
            None => Err(FenParseError::InvalidHalfmoveClockComponent),
        }),
        r is Ok ==> r->Ok_0 <= HALFMOVE_CLOCK_MAX,
{
    proof {
        crate::text::lemma_digit_prefix(f@);
        if all_digits(f@) {
            assert(f@.take(f@.len() as int) == f@);
        }
    }
    match crate::text::parse_decimal_prefix(f, 100) {
        Some((value, used)) => {
            if used == f.len() {
                Ok(value as u8)
            } else {
                Err(FenParseError::InvalidHalfmoveClockComponent)
            }
        },
        None => Err(FenParseError::InvalidHalfmoveClockComponent),
    }
}

/// Reads the fullmove counter from its field.
pub fn fullmove_from_chars(f: &Vec<char>) -> (r: Result<u16, FenParseError>)
    ensures
        r == (match fullmove_of_text(f@) {
            Ok(counter) => Ok::<u16, FenParseError>(counter as u16),
            Err(e) => Err(e),
        }),
        r is Ok ==> r->Ok_0 >= 1,
{
    proof {
        crate::text::lemma_digit_prefix(f@);
    }
    match crate::text::parse_decimal_prefix(f, 65535) {
        Some((value, used)) => {
            if value < 1 {
                Err(FenParseError::InvalidFullmoveCounterComponent)
            } else if used < f.len() {
                Err(FenParseError::TrailingGarbage)
            } else {
                Ok(value as u16)
            }
        },
        None => Err(FenParseError::InvalidFullmoveCounterComponent),
    }
}

/// The number of empty squares at the end of `r`.
pub open spec fn trailing_empty(r: Seq<Option<StandardPiece>>) -> int
    decreases r.len(),
{
    if r.len() == 0 || r.last() is Some {
        0
    } else {
        1 + trailing_empty(r.drop_last())
    }
}

/// The empty squares at the end of `r` are within `r`, are empty, and a piece
/// stands before them unless they reach the start.
pub proof fn lemma_trailing_empty(r: Seq<Option<StandardPiece>>)
    ensures
        0 <= trailing_empty(r) <= r.len(),
        r.len() > 0 && r.last() is None ==> trailing_empty(r) >= 1,
        forall|j: int| r.len() - trailing_empty(r) <= j < r.len() ==> r[j] is None,
        trailing_empty(r) < r.len() ==> r[r.len() - trailing_empty(r) - 1] is Some,
    decreases r.len(),
{
    if r.len() > 0 && r.last() is None {
        let d = r.drop_last();
        lemma_trailing_empty(d);
        assert forall|j: int| r.len() - trailing_empty(r) <= j < r.len() implies r[j] is None by {
            if j < d.len() {
                assert(d[j] == r[j]);
            }
        }
        if trailing_empty(r) < r.len() {
            assert(d[d.len() - trailing_empty(d) - 1] == r[r.len() - trailing_empty(r) - 1]);
        }
    }
}

/// How the squares `r` of one rank are written: a letter for each piece, and
/// for each longest run of empty squares the digit of its length.
pub open spec fn rank_text(r: Seq<Option<StandardPiece>>) -> Seq<char>
    decreases r.len(),
    via rank_text_decreases
{
    if r.len() == 0 {
        Seq::empty()
    } else {
        match r.last() {
            Some(piece) => rank_text(r.drop_last()).push(piece.spec_letter()),
            None => rank_text(r.take(r.len() - trailing_empty(r))).push(
                crate::square::digit_of_rank(trailing_empty(r) - 1),
            ),
        }
    }
}

/// A rank that ends in an empty square ends in at least one.
#[via_fn]
proof fn rank_text_decreases(r: Seq<Option<StandardPiece>>) {
    lemma_trailing_empty(r);
}

/// The eight squares of rank `rank` of a board, rank 0 being the first rank.
pub open spec fn rank_of_board(pieces: Seq<Option<StandardPiece>>, rank: int) -> Seq<
    Option<StandardPiece>,
> {
    pieces.subrange(rank * 8, rank * 8 + 8)
}

/// The texts of the eight ranks, the eighth rank first.
pub open spec fn rank_texts(pieces: Seq<Option<StandardPiece>>) -> Seq<Seq<char>> {
    Seq::new(8, |n: int| rank_text(rank_of_board(pieces, 7 - n)))
}

/// How the sixty-four squares are written: the texts of the ranks with `/`
/// between neighbours, the eighth rank first.
pub open spec fn text_of_placement(pieces: Seq<Option<StandardPiece>>) -> Seq<char> {
    join_spec(rank_texts(pieces), '/')
}

/// Appends the text of one rank, the squares `pieces[base..base + 8]`.
fn push_rank(out: &mut Vec<char>, pieces: &[Option<StandardPiece>; 64], base: usize)
    requires
        base + 8 <= 64,
    ensures
        final(out)@ == old(out)@ + rank_text(pieces@.subrange(base as int, base + 8)),
{
    let ghost r = pieces@.subrange(base as int, base + 8);
    let ghost start = out@;
    let mut pending: u8 = 0;
    let mut j: usize = 0;
    assert(r.take(0) =~= Seq::empty());
    while j < 8
        invariant
            0 <= j <= 8,
            0 <= pending <= j,
            base + 8 <= 64,
            r == pieces@.subrange(base as int, base + 8),
            out@ == start + rank_text(r.take(j - pending)),
            forall|n: int| j - pending <= n < j ==> r[n] is None,
            pending < j ==> r[j - pending - 1] is Some,
        decreases 8 - j,
    {
        match pieces[base + j] {
            None => {
                pending += 1;
            },
            Some(piece) => {
                if pending > 0 {
                    proof {
                        lemma_run(r.take(j as int), pending as int);
                    }
                    out.push((pending + 48) as char);
                }
                out.push(char::from(piece));
                proof {
                    let t = r.take(j + 1);
                    assert(t.last() == Some(piece));
                    assert(t.drop_last() == r.take(j as int));
                    assert(r.take(j as int).take(j - pending) == r.take(j - pending));
                }
                pending = 0;
            },
        }
        j += 1;
    }
    if pending > 0 {
        proof {
            lemma_run(r.take(8), pending as int);
            assert(r.take(8).take(8 - pending) == r.take(8 - pending));
        }
        out.push((pending + 48) as char);
    }
    assert(r.take(8) == r);
}

/// A rank that ends in exactly `k` empty squares is written as what stands
/// before them, then the digit of `k`.
proof fn lemma_run(r: Seq<Option<StandardPiece>>, k: int)
    requires
        1 <= k <= r.len() <= 8,
        forall|n: int| r.len() - k <= n < r.len() ==> r[n] is None,
        k < r.len() ==> r[r.len() - k - 1] is Some,
    ensures
        trailing_empty(r) == k,
        rank_text(r) == rank_text(r.take(r.len() - k)).push(crate::square::digit_of_rank(k - 1)),
    decreases k,
{
    let d = r.drop_last();
    assert(r.last() is None);
    if k > 1 {
        assert forall|n: int| d.len() - (k - 1) <= n < d.len() implies d[n] is None by {
            assert(d[n] == r[n]);
        }
        if k - 1 < d.len() {
            assert(d[d.len() - (k - 1) - 1] == r[r.len() - k - 1]);
        }
        lemma_run(d, k - 1);
    } else {
        if d.len() > 0 {
            assert(d.last() == r[r.len() - 2]);
        }
    }
    assert(trailing_empty(r) == 1 + trailing_empty(d));
}

/// Appends the text of the piece placement.
fn push_placement(out: &mut Vec<char>, pieces: &[Option<StandardPiece>; 64])
    ensures
        final(out)@ == old(out)@ + text_of_placement(pieces@),
{
    let ghost texts = rank_texts(pieces@);
    let ghost start = out@;
    let mut done: usize = 0;
    assert(start + join_spec(texts.take(0), '/') =~= start);
    while done < 8
        invariant
            0 <= done <= 8,
            texts == rank_texts(pieces@),
            out@ == start + join_spec(texts.take(done as int), '/'),
        decreases 8 - done,
    {
        if done > 0 {
            out.push('/');
        }
        let rank: usize = 7 - done;
        push_rank(out, pieces, rank * 8);
        proof {
            let so_far = texts.take(done as int);
            lemma_join_push(so_far, texts[done as int], '/');
            assert(texts.take(done + 1) =~= so_far.push(texts[done as int]));
            assert(out@ =~= start + join_spec(texts.take(done + 1), '/'));
        }
        done += 1;
    }
    assert(texts.take(8) =~= texts);
}

/// Appends the text of the castling permissions.
fn push_castling(out: &mut Vec<char>, rights: CastlingPermissions)
    ensures
        final(out)@ == old(out)@ + text_of_castling(rights),
{
    if rights.white_king_side {
        out.push('K');
    }
    if rights.white_queen_side {
        out.push('Q');
    }
    if rights.black_king_side {
        out.push('k');
    }
    if rights.black_queen_side {
        out.push('q');
    }
    if !rights.white_king_side && !rights.white_queen_side && !rights.black_king_side
        && !rights.black_queen_side {
        out.push('-');
    }
    assert(out@ =~= old(out)@ + text_of_castling(rights));
}

/// Appends the text of the en passant target.
fn push_en_passant(out: &mut Vec<char>, target: Option<Square>)
    requires
        target matches Some(sq) ==> en_passant_rank(sq@),
    ensures
        final(out)@ == old(out)@ + text_of_en_passant(
            match target {
                Some(sq) => Some(sq@),
                None => None,
            },
        ),
{
    match target {
        None => {
            out.push('-');
            assert(out@ =~= old(out)@ + seq!['-']);
        },
        Some(sq) => {
            let file: char = (sq.file() + 97) as char;
            let rank: char = if sq.index() < 24 {
                '3'
            } else {
                '6'
            };
            out.push(file);
            out.push(rank);
            assert(out@ =~= old(out)@ + seq![file, rank]);
        },
    }
}

/// A position as Forsyth-Edwards Notation records it, as a mathematical value.
pub struct FenView {
    /// What stands on each of the sixty-four squares, a1 first.
    pub pieces: Seq<Option<StandardPiece>>,
    /// The side whose turn it is.
    pub side_to_move: StandardColor,
    /// The castling moves that are still allowed.
    pub castling_permissions: CastlingPermissions,
    /// The square behind a pawn that has just advanced two squares.
    pub en_passant_square: Option<int>,
    /// The number of halfmoves since the last capture or pawn move.
    pub halfmove_clock: int,
    /// The number of the move that is about to be played.
    pub fullmove_counter: int,
}

impl FenView {
    /// Whether the value is a position: sixty-four squares, an en passant
    /// target on the third or sixth rank if there is one, a halfmove clock of
    /// at most 100 and a fullmove counter from 1 to 65535.
    pub open spec fn wf(self) -> bool {
        &&& self.pieces.len() == 64
        &&& self.en_passant_square matches Some(index) ==> en_passant_rank(index)
        &&& 0 <= self.halfmove_clock <= 100
        &&& 1 <= self.fullmove_counter <= 65535
    }
}

/// The six fields of a position's notation.
pub open spec fn fields_of(v: FenView) -> Seq<Seq<char>> {
    seq![
        text_of_placement(v.pieces),
        text_of_side(v.side_to_move),
        text_of_castling(v.castling_permissions),
        text_of_en_passant(v.en_passant_square),
        decimal_text(v.halfmove_clock as nat),
        decimal_text(v.fullmove_counter as nat),
    ]
}

/// How a position is written: its six fields with one space between
/// neighbours, numbers in their shortest decimal form.
pub open spec fn fen_encode_spec(v: FenView) -> Seq<char> {
    join_spec(fields_of(v), ' ')
}

/// The position that `s` stands for, or the reason why it stands for none.
///
/// The fields are counted first, then read in their order; the first field
/// that is not well formed decides the error.
pub open spec fn fen_decode_spec(s: Seq<char>) -> Result<FenView, FenParseError> {
    let f = split_spec(s, ' ');
    if f.len() < 6 {
        Err(FenParseError::TooFewFields)
    } else if f.len() > 6 {
        Err(FenParseError::TooManyFields)
    } else if placement_of_text(f[0]) is None {
        Err(FenParseError::InvalidPositionComponent)
    } else if side_of_text(f[1]) is None {
        Err(FenParseError::InvalidPieceToMoveComponent)
    } else if castling_of_text(f[2]) is None {
        Err(FenParseError::InvalidCastlingPermissionsComponent)
    } else if en_passant_of_text(f[3]) is None {
        Err(FenParseError::InvalidEnPassantTargetSquareComponent)
    } else if halfmove_of_text(f[4]) is None {
        Err(FenParseError::InvalidHalfmoveClockComponent)
    } else {
        match fullmove_of_text(f[5]) {
            Err(e) => Err(e),
            Ok(counter) => Ok(
                FenView {
                    pieces: placement_of_text(f[0])->Some_0,
                    side_to_move: side_of_text(f[1])->Some_0,
                    castling_permissions: castling_of_text(f[2])->Some_0,
                    en_passant_square: en_passant_of_text(f[3])->Some_0,
                    halfmove_clock: halfmove_of_text(f[4])->Some_0,
                    fullmove_counter: counter,
                },
            ),
        }
    }
}

/// Every text that stands for a position stands for a valid one.
pub proof fn lemma_decoded_is_valid(s: Seq<char>)
    ensures
        fen_decode_spec(s) matches Ok(v) ==> v.wf(),
{
    if fen_decode_spec(s) is Ok {
        let f = split_spec(s, ' ');
        crate::text::lemma_digit_prefix(f[5]);
    }
}

/// A piece letter stands for its piece, covers one square and is no digit.
pub proof fn lemma_piece_token(piece: StandardPiece)
    ensures
        is_placement_char(piece.spec_letter()),
        !is_rank_digit(piece.spec_letter()),
        piece.spec_letter() != '/',
        piece.spec_letter() != ' ',
        token_squares(piece.spec_letter()) == seq![Some(piece)],
{
    crate::standard::lemma_letter_round_trip(piece, 'p');
}

/// The digit of a run of `k` empty squares covers `k` empty squares.
pub proof fn lemma_run_token(k: int)
    requires
        1 <= k <= 8,
    ensures
        is_rank_digit(crate::square::digit_of_rank(k - 1)),
        crate::square::digit_of_rank(k - 1) != '/',
        crate::square::digit_of_rank(k - 1) != ' ',
        token_squares(crate::square::digit_of_rank(k - 1)) == Seq::new(
            k as nat,
            |i: int| None::<StandardPiece>,
        ),
{
}

/// A rank is read back from its text, and its text holds piece letters and
/// digits from `1` to `8` only.
pub proof fn lemma_rank_round_trip(r: Seq<Option<StandardPiece>>)
    requires
        r.len() <= 8,
    ensures
        rank_squares(rank_text(r)) == r,
        forall|j: int| 0 <= j < rank_text(r).len() ==> is_placement_char(#[trigger] rank_text(r)[j]),
    decreases r.len(),
{
    if r.len() > 0 {
        let t = rank_text(r);
        match r.last() {
            Some(piece) => {
                let d = r.drop_last();
                lemma_rank_round_trip(d);
                lemma_piece_token(piece);
                assert(t.drop_last() == rank_text(d));
                assert(rank_squares(t) =~= r);
                assert forall|j: int| 0 <= j < t.len() implies is_placement_char(
                    #[trigger] t[j],
                ) by {
                    if j < t.len() - 1 {
                        assert(t[j] == rank_text(d)[j]);
                    }
                }
            },
            None => {
                lemma_trailing_empty(r);
                let k = trailing_empty(r);
                let h = r.take(r.len() - k);
                lemma_rank_round_trip(h);
                lemma_run_token(k);
                assert(t.drop_last() == rank_text(h));
                assert(rank_squares(t) =~= r);
                assert forall|j: int| 0 <= j < t.len() implies is_placement_char(
                    #[trigger] t[j],
                ) by {
                    if j < t.len() - 1 {
                        assert(t[j] == rank_text(h)[j]);
                    }
                }
            },
        }
    }
}

/// The text of a rank of eight squares is read back as that rank and holds
/// neither `/` nor a space.
pub proof fn lemma_rank_text(r: Seq<Option<StandardPiece>>)
    requires
        r.len() == 8,
    ensures
        rank_of_text(rank_text(r)) == Some(r),
        free_of(rank_text(r), '/'),
        free_of(rank_text(r), ' '),
{
    lemma_rank_round_trip(r);
    let t = rank_text(r);
    assert forall|j: int| 0 <= j < t.len() implies t[j] != '/' && t[j] != ' ' by {
        assert(is_placement_char(t[j]));
    }
}

/// The sixty-four squares are read back from their text, which holds no
/// space.
pub proof fn lemma_placement_round_trip(pieces: Seq<Option<StandardPiece>>)
    requires
        pieces.len() == 64,
    ensures
        split_spec(text_of_placement(pieces), '/') == rank_texts(pieces),
        placement_of_text(text_of_placement(pieces)) == Some(pieces),
        free_of(text_of_placement(pieces), ' '),
{
    let texts = rank_texts(pieces);
    assert forall|k: int| 0 <= k < 8 implies free_of(#[trigger] texts[k], '/') && free_of(
        texts[k],
        ' ',
    ) && rank_of_text(texts[k]) == Some(rank_of_board(pieces, 7 - k)) by {
        lemma_rank_text(rank_of_board(pieces, 7 - k));
    }
    lemma_split_join(texts, '/');
    lemma_join_free(texts, '/', ' ');
    let ranks = split_spec(text_of_placement(pieces), '/');
    let read = Seq::new(64, |i: int| rank_of_text(ranks[7 - i / 8])->Some_0[i % 8]);
    assert forall|i: int| 0 <= i < 64 implies read[i] == pieces[i] by {
        let k = 7 - i / 8;
        assert(rank_of_text(ranks[k]) == Some(rank_of_board(pieces, 7 - k)));
        assert(rank_of_board(pieces, i / 8)[i % 8] == pieces[(i / 8) * 8 + i % 8]);
    }
    assert(read =~= pieces);
}

/// The side, the castling permissions, an en passant target of the third or
/// sixth rank and the two counters are read back from their texts, none of
/// which holds a space.
pub proof fn lemma_fields_round_trip(v: FenView)
    requires
        v.wf(),
    ensures
        side_of_text(text_of_side(v.side_to_move)) == Some(v.side_to_move),
        free_of(text_of_side(v.side_to_move), ' '),
        castling_of_text(text_of_castling(v.castling_permissions)) == Some(v.castling_permissions),
        free_of(text_of_castling(v.castling_permissions), ' '),
        en_passant_of_text(text_of_en_passant(v.en_passant_square)) == Some(v.en_passant_square),
        free_of(text_of_en_passant(v.en_passant_square), ' '),
        halfmove_of_text(decimal_text(v.halfmove_clock as nat)) == Some(v.halfmove_clock),
        free_of(decimal_text(v.halfmove_clock as nat), ' '),
        fullmove_of_text(decimal_text(v.fullmove_counter as nat)) == Ok::<int, FenParseError>(
            v.fullmove_counter,
        ),
        free_of(decimal_text(v.fullmove_counter as nat), ' '),
{
    let p = v.castling_permissions;
    let c = text_of_castling(p);
    assert(castling_of_text(c) == Some(p)) by {
        let k = letter_if(p.white_king_side, 'K');
        let q = letter_if(p.white_queen_side, 'Q');
        let bk = letter_if(p.black_king_side, 'k');
        let bq = letter_if(p.black_queen_side, 'q');
        assert(c.len() == k.len() + q.len() + bk.len() + bq.len() || c == seq!['-']);
    }
    let half = decimal_text(v.halfmove_clock as nat);
    let full = decimal_text(v.fullmove_counter as nat);
    crate::text::lemma_decimal_text(v.halfmove_clock as nat);
    crate::text::lemma_decimal_text(v.fullmove_counter as nat);
    crate::text::lemma_digit_prefix(full);
    assert(full.take(full.len() as int) == full);
}

/// The notation of a valid position is split at its spaces into the position's
/// six fields.
pub proof fn lemma_encode_fields(v: FenView)
    requires
        v.wf(),
    ensures
        split_spec(fen_encode_spec(v), ' ') == fields_of(v),
{
    lemma_placement_round_trip(v.pieces);
    lemma_fields_round_trip(v);
    lemma_split_join(fields_of(v), ' ');
}

/// A valid position is read back from its notation.
pub proof fn lemma_decode_encode(v: FenView)
    requires
        v.wf(),
    ensures
        fen_decode_spec(fen_encode_spec(v)) == Ok::<FenView, FenParseError>(v),
{
    lemma_encode_fields(v);
    lemma_placement_round_trip(v.pieces);
    lemma_fields_round_trip(v);
    let f = split_spec(fen_encode_spec(v), ' ');
    assert(f[0] == text_of_placement(v.pieces));
    assert(f[1] == text_of_side(v.side_to_move));
    assert(f[2] == text_of_castling(v.castling_permissions));
    assert(f[3] == text_of_en_passant(v.en_passant_square));
    assert(f[4] == decimal_text(v.halfmove_clock as nat));
    assert(f[5] == decimal_text(v.fullmove_counter as nat));
}

/// Writing what was read and reading it again gives the same position,
/// whether or not the text was canonical.
pub proof fn lemma_encode_decode(s: Seq<char>)
    requires
        fen_decode_spec(s) is Ok,
    ensures
        fen_decode_spec(fen_encode_spec(fen_decode_spec(s)->Ok_0)) == fen_decode_spec(s),
{
    lemma_decoded_is_valid(s);
    lemma_decode_encode(fen_decode_spec(s)->Ok_0);
}

/// Whether no two digits stand side by side in `r`, so that every run of
/// empty squares is written as one digit.
pub open spec fn compact_rank(r: Seq<char>) -> bool {
    forall|j: int|
        0 <= j < r.len() - 1 ==> !(is_rank_digit(#[trigger] r[j]) && is_rank_digit(r[j + 1]))
}

/// Whether `t` starts with no needless zero.
pub open spec fn shortest_number(t: Seq<char>) -> bool {
    t.len() == 1 || (t.len() > 1 && t[0] != '0')
}

/// Whether `s` is the notation of a position in its one canonical form: it
/// stands for a position, no rank writes a run of empty squares in two
/// digits, and no counter starts with a needless zero.
pub open spec fn is_canonical(s: Seq<char>) -> bool {
    let f = split_spec(s, ' ');
    &&& fen_decode_spec(s) is Ok
    &&& forall|k: int| 0 <= k < 8 ==> compact_rank(#[trigger] split_spec(f[0], '/')[k])
    &&& shortest_number(f[4])
    &&& shortest_number(f[5])
}

/// A rank text without two digits side by side is the text of the squares
/// that it covers.
pub proof fn lemma_compact_rank(r: Seq<char>)
    requires
        forall|j: int| 0 <= j < r.len() ==> is_placement_char(#[trigger] r[j]),
        compact_rank(r),
        rank_squares(r).len() <= 8,
    ensures
        rank_text(rank_squares(r)) == r,
        r.len() > 0 ==> rank_squares(r).len() > 0,
        r.len() > 0 && !is_rank_digit(r.last()) ==> rank_squares(r).last() is Some,
    decreases r.len(),
{
    if r.len() > 0 {
        let d = r.drop_last();
        let c = r.last();
        let sq = rank_squares(r);
        assert(is_placement_char(c));
        assert forall|j: int| 0 <= j < d.len() implies is_placement_char(#[trigger] d[j]) by {
            assert(d[j] == r[j]);
        }
        assert(compact_rank(d)) by {
            assert forall|j: int| 0 <= j < d.len() - 1 implies !(is_rank_digit(#[trigger] d[j])
                && is_rank_digit(d[j + 1])) by {
                assert(d[j] == r[j] && d[j + 1] == r[j + 1]);
            }
        }
        lemma_compact_rank(d);
        if is_rank_digit(c) {
            let k = rank_of_digit(c) + 1;
            lemma_run_token(k);
            assert(crate::square::digit_of_rank(k - 1) == c);
            if d.len() > 0 {
                assert(!is_rank_digit(d.last())) by {
                    assert(d.last() == r[r.len() - 2]);
                    assert(r[r.len() - 2 + 1] == c);
                }
                assert(sq[sq.len() - k - 1] == rank_squares(d).last());
            }
            lemma_run(sq, k);
            assert(sq.take(sq.len() - k) =~= rank_squares(d));
            assert(rank_text(sq) =~= r);
        } else {
            let piece = piece_of_letter(c)->Some_0;
            crate::standard::lemma_letter_round_trip(piece, c);
            assert(sq.last() == Some(piece));
            assert(sq.drop_last() =~= rank_squares(d));
            assert(rank_text(sq) =~= r);
        }
    }
}

/// Digits that start with no zero are worth at least one.
pub proof fn lemma_decimal_positive(t: Seq<char>)
    requires
        all_digits(t),
        t.len() > 0,
        t[0] != '0',
    ensures
        decimal_value(t) >= 1,
    decreases t.len(),
{
    let d = t.drop_last();
    assert(crate::text::is_digit(t.last()));
    if d.len() > 0 {
        assert(d[0] == t[0]);
        assert forall|j: int| 0 <= j < d.len() implies crate::text::is_digit(#[trigger] d[j]) by {
            assert(d[j] == t[j]);
        }
        lemma_decimal_positive(d);
    } else {
        assert(t.last() == t[0]);
    }
}

/// Digits without a needless zero are the shortest decimal text of what
/// they are worth.
pub proof fn lemma_shortest_number(t: Seq<char>)
    requires
        all_digits(t),
        t.len() > 0,
        shortest_number(t),
    ensures
        decimal_text(decimal_value(t)) == t,
    decreases t.len(),
{
    let d = t.drop_last();
    let c = t.last();
    assert(crate::text::is_digit(c));
    if d.len() == 0 {
        assert(decimal_value(d) == 0);
        assert(decimal_text(decimal_value(t)) =~= t);
    } else {
        assert(d[0] == t[0]);
        assert forall|j: int| 0 <= j < d.len() implies crate::text::is_digit(#[trigger] d[j]) by {
            assert(d[j] == t[j]);
        }
        lemma_decimal_positive(d);
        lemma_shortest_number(d);
        let value = decimal_value(t);
        assert(value == decimal_value(d) * 10 + crate::text::digit_value(c));
        assert(value / 10 == decimal_value(d));
        assert(value % 10 == crate::text::digit_value(c));
        assert(decimal_text(value) =~= t);
    }
}

/// The side, the castling permissions and the en passant target have one
/// text each: a field that is read as one of them is its text.
pub proof fn lemma_fields_have_one_text(f: Seq<char>)
    ensures
        side_of_text(f) matches Some(side) ==> text_of_side(side) == f,
        castling_of_text(f) matches Some(p) ==> text_of_castling(p) == f,
        en_passant_of_text(f) matches Some(target) ==> text_of_en_passant(target) == f,
{
    if side_of_text(f) is Some {
        assert(text_of_side(side_of_text(f)->Some_0) =~= f);
    }
    if castling_of_text(f) is Some {
        assert(text_of_castling(castling_of_text(f)->Some_0) =~= f);
    }
    if en_passant_of_text(f) is Some {
        assert(text_of_en_passant(en_passant_of_text(f)->Some_0) =~= f);
    }
}

/// A piece placement whose ranks write every run of empty squares as one
/// digit is the text of the squares that it stands for.
pub proof fn lemma_compact_placement(f: Seq<char>)
    requires
        placement_of_text(f) is Some,
        forall|k: int| 0 <= k < 8 ==> compact_rank(#[trigger] split_spec(f, '/')[k]),
    ensures
        text_of_placement(placement_of_text(f)->Some_0) == f,
{
    let ranks = split_spec(f, '/');
    let pieces = placement_of_text(f)->Some_0;
    crate::text::lemma_join_split(f, '/');
    assert forall|n: int| 0 <= n < 8 implies #[trigger] rank_texts(pieces)[n] == ranks[n] by {
        let r = ranks[n];
        assert(rank_of_text(r) is Some);
        assert(rank_of_board(pieces, 7 - n) =~= rank_squares(r)) by {
            assert forall|j: int| 0 <= j < 8 implies rank_of_board(pieces, 7 - n)[j]
                == rank_squares(r)[j] by {
                let i = (7 - n) * 8 + j;
                assert(pieces[i] == rank_of_text(ranks[7 - i / 8])->Some_0[i % 8]);
            }
        }
        lemma_compact_rank(r);
    }
    assert(rank_texts(pieces) =~= ranks);
}

/// Writing what was read from a canonical text gives the text back.
pub proof fn lemma_canonical_round_trip(s: Seq<char>)
    requires
        is_canonical(s),
    ensures
        fen_encode_spec(fen_decode_spec(s)->Ok_0) == s,
{
    let f = split_spec(s, ' ');
    let v = fen_decode_spec(s)->Ok_0;
    crate::text::lemma_join_split(s, ' ');
    lemma_compact_placement(f[0]);
    lemma_fields_have_one_text(f[1]);
    lemma_fields_have_one_text(f[2]);
    lemma_fields_have_one_text(f[3]);
    lemma_shortest_number(f[4]);
    crate::text::lemma_digit_prefix(f[5]);
    assert(f[5].take(f[5].len() as int) =~= f[5]);
    lemma_shortest_number(f[5]);
    assert(fields_of(v) =~= f);
}

/// The text of a rank writes every run of empty squares as one digit.
pub proof fn lemma_rank_text_compact(r: Seq<Option<StandardPiece>>)
    requires
        r.len() <= 8,
    ensures
        compact_rank(rank_text(r)),
        r.len() > 0 ==> rank_text(r).len() > 0,
        r.len() > 0 && r.last() is Some ==> !is_rank_digit(rank_text(r).last()),
    decreases r.len(),
{
    if r.len() > 0 {
        let t = rank_text(r);
        match r.last() {
            Some(piece) => {
                let d = r.drop_last();
                lemma_rank_text_compact(d);
                lemma_piece_token(piece);
                assert forall|j: int| 0 <= j < t.len() - 1 implies !(is_rank_digit(#[trigger] t[j])
                    && is_rank_digit(t[j + 1])) by {
                    if j < t.len() - 2 {
                        assert(t[j] == rank_text(d)[j] && t[j + 1] == rank_text(d)[j + 1]);
                    }
                }
            },
            None => {
                lemma_trailing_empty(r);
                let k = trailing_empty(r);
                let h = r.take(r.len() - k);
                lemma_rank_text_compact(h);
                assert forall|j: int| 0 <= j < t.len() - 1 implies !(is_rank_digit(#[trigger] t[j])
                    && is_rank_digit(t[j + 1])) by {
                    if j < t.len() - 2 {
                        assert(t[j] == rank_text(h)[j] && t[j + 1] == rank_text(h)[j + 1]);
                    } else {
                        assert(h.len() > 0);
                        assert(h.last() == r[r.len() - k - 1]);
                        assert(t[j] == rank_text(h).last());
                    }
                }
            },
        }
    }
}

/// The shortest decimal text of a number starts with no needless zero.
pub proof fn lemma_decimal_text_shortest(n: nat)
    ensures
        shortest_number(decimal_text(n)),
        n >= 1 ==> decimal_text(n)[0] != '0',
    decreases n,
{
    if n >= 10 {
        lemma_decimal_text_shortest(n / 10);
        crate::text::lemma_decimal_text(n / 10);
        assert(decimal_text(n)[0] == decimal_text(n / 10)[0]);
    }
}

/// The notation of a valid position is canonical.
pub proof fn lemma_encode_is_canonical(v: FenView)
    requires
        v.wf(),
    ensures
        is_canonical(fen_encode_spec(v)),
{
    let s = fen_encode_spec(v);
    lemma_decode_encode(v);
    lemma_encode_fields(v);
    lemma_placement_round_trip(v.pieces);
    let f = split_spec(s, ' ');
    assert(f[0] == text_of_placement(v.pieces));
    assert(f[4] == decimal_text(v.halfmove_clock as nat));
    assert(f[5] == decimal_text(v.fullmove_counter as nat));
    assert forall|k: int| 0 <= k < 8 implies compact_rank(#[trigger] split_spec(f[0], '/')[k]) by {
        assert(split_spec(f[0], '/')[k] == rank_text(rank_of_board(v.pieces, 7 - k)));
        lemma_rank_text_compact(rank_of_board(v.pieces, 7 - k));
    }
    lemma_decimal_text_shortest(v.halfmove_clock as nat);
    lemma_decimal_text_shortest(v.fullmove_counter as nat);
}

/// A text with fewer than six fields, or with more, stands for no position,
/// whatever its fields hold.
pub proof fn lemma_field_count(s: Seq<char>)
    ensures
        split_spec(s, ' ').len() < 6 ==> fen_decode_spec(s) == Err::<FenView, FenParseError>(
            FenParseError::TooFewFields,
        ),
        split_spec(s, ' ').len() > 6 ==> fen_decode_spec(s) == Err::<FenView, FenParseError>(
            FenParseError::TooManyFields,
        ),
{
}

/// Six texts joined by spaces are the first, a space, the second, and so on
/// to the sixth.
proof fn lemma_join_six(f: Seq<Seq<char>>)
    requires
        f.len() == 6,
    ensures
        join_spec(f, ' ') == f[0] + seq![' '] + f[1] + seq![' '] + f[2] + seq![' '] + f[3] + seq![
            ' ',
        ] + f[4] + seq![' '] + f[5],
{
    lemma_join_push(f.take(0), f[0], ' ');
    lemma_join_push(f.take(1), f[1], ' ');
    lemma_join_push(f.take(2), f[2], ' ');
    lemma_join_push(f.take(3), f[3], ' ');
    lemma_join_push(f.take(4), f[4], ' ');
    lemma_join_push(f.take(5), f[5], ' ');
    assert(f.take(1) =~= f.take(0).push(f[0]));
    assert(f.take(2) =~= f.take(1).push(f[1]));
    assert(f.take(3) =~= f.take(2).push(f[2]));
    assert(f.take(4) =~= f.take(3).push(f[3]));
    assert(f.take(5) =~= f.take(4).push(f[4]));
    assert(f =~= f.take(5).push(f[5]));
}

/// A position read from, or to be written in, Forsyth-Edwards Notation.
#[derive(Debug, PartialEq, Eq, Clone, Copy)]
pub struct Fen {
    pieces: [Option<StandardPiece>; 64],
    side_to_move: StandardColor,
    castling_permissions: CastlingPermissions,
    en_passant_square: Option<Square>,
    halfmove_clock: u8,
    fullmove_counter: u16,
}

impl View for Fen {
    type V = FenView;

    /// The record as a mathematical value.
    closed spec fn view(&self) -> FenView {
        FenView {
            pieces: self.pieces@,
            side_to_move: self.side_to_move,
            castling_permissions: self.castling_permissions,
            en_passant_square: match self.en_passant_square {
                Some(sq) => Some(sq@),
                None => None,
            },
            halfmove_clock: self.halfmove_clock as int,
            fullmove_counter: self.fullmove_counter as int,
        }
    }
}

impl Fen {
    /// The record is a position.
    #[verifier::type_invariant]
    spec fn valid(self) -> bool {
        self@.wf()
    }

    /// The position with the given parts, where they make a valid position:
    /// an en passant target lies on the third or sixth rank, the halfmove
    /// clock is at most 100 and the fullmove counter at least 1.
    pub fn new(
        pieces: [Option<StandardPiece>; 64],
        side_to_move: StandardColor,
        castling_permissions: CastlingPermissions,
        en_passant_square: Option<Square>,
        halfmove_clock: u8,
        fullmove_counter: u16,
    ) -> (r: Option<Fen>)
        ensures
            match r {
                Some(fen) => {
                    &&& fen@.wf()
                    &&& fen@.pieces == pieces@
                    &&& fen@.side_to_move == side_to_move
                    &&& fen@.castling_permissions == castling_permissions
                    &&& fen@.en_passant_square == (match en_passant_square {
                        Some(sq) => Some(sq@),
                        None => None,
                    })
                    &&& fen@.halfmove_clock == halfmove_clock
                    &&& fen@.fullmove_counter == fullmove_counter
                },
                None => {
                    ||| halfmove_clock > 100
                    ||| fullmove_counter < 1
                    ||| (en_passant_square matches Some(sq) && !en_passant_rank(sq@))
                },
            },
    {
        if halfmove_clock > HALFMOVE_CLOCK_MAX || fullmove_counter < 1 {
            return None;
        }
        match en_passant_square {
            Some(sq) => {
                let rank = sq.rank();
                if rank != 2 && rank != 5 {
                    return None;
                }
            },
            None => {},
        }
        Some(
            Fen {
                pieces,
                side_to_move,
                castling_permissions,
                en_passant_square,
                halfmove_clock,
                fullmove_counter,
            },
        )
    }

    /// Reads a position from the characters of its notation.
    pub fn from_chars(source: &Vec<char>) -> (r: Result<Fen, FenParseError>)
        ensures
            match r {
                Ok(fen) => fen_decode_spec(source@) == Ok::<FenView, FenParseError>(fen@),
                Err(e) => fen_decode_spec(source@) == Err::<FenView, FenParseError>(e),
            },
    {
        let fields = crate::text::split(source, ' ');
        if fields.len() < 6 {
            return Err(FenParseError::TooFewFields);
        }
        if fields.len() > 6 {
            return Err(FenParseError::TooManyFields);
        }
        let pieces = placement_from_chars(&fields[0])?;
        let side_to_move = side_from_chars(&fields[1])?;
        let castling_permissions = castling_from_chars(&fields[2])?;
        let en_passant_square = en_passant_from_chars(&fields[3])?;
        let halfmove_clock = halfmove_from_chars(&fields[4])?;
        let fullmove_counter = fullmove_from_chars(&fields[5])?;
        proof {
            lemma_decoded_is_valid(source@);
        }
        Ok(
            Fen {
                pieces,
                side_to_move,
                castling_permissions,
                en_passant_square,
                halfmove_clock,
                fullmove_counter,
            },
        )
    }

    /// Writes the position as the characters of its notation.
    pub fn to_chars(&self) -> (r: Vec<char>)
        ensures
            r@ == fen_encode_spec(self@),
    {
        proof {
            use_type_invariant(self);
        }
        let mut out: Vec<char> = Vec::new();
        push_placement(&mut out, &self.pieces);
        out.push(' ');
        match self.side_to_move {
            StandardColor::White => out.push('w'),
            StandardColor::Black => out.push('b'),
        }
        out.push(' ');
        push_castling(&mut out, self.castling_permissions);
        out.push(' ');
        push_en_passant(&mut out, self.en_passant_square);
        out.push(' ');
        crate::text::push_decimal(&mut out, self.halfmove_clock as u32);
        out.push(' ');
        crate::text::push_decimal(&mut out, self.fullmove_counter as u32);
        proof {
            lemma_join_six(fields_of(self@));
            assert(out@ =~= fen_encode_spec(self@));
        }
        out
    }

    /// Writes the position in its notation.
    pub fn encode(&self) -> (r: String)
        ensures
            r@ == fen_encode_spec(self@),
    {
        let chars = self.to_chars();
        crate::text::to_text(&chars)
    }

    /// What stands on each square, a1 first.
    pub fn pieces(&self) -> (r: [Option<StandardPiece>; 64])
        ensures
            r@ == self@.pieces,
    {
        self.pieces
    }

    /// What stands on the given square.
    pub fn piece_at(&self, square: Square) -> (r: Option<StandardPiece>)
        ensures
            0 <= square@ < 64,
            r == self@.pieces[square@],
    {
        self.pieces[square.index() as usize]
    }

    /// The side whose turn it is.
    pub fn side_to_move(&self) -> (r: StandardColor)
        ensures
            r == self@.side_to_move,
    {
        self.side_to_move
    }

    /// The castling moves that are still allowed.
    pub fn castling_permissions(&self) -> (r: CastlingPermissions)
        ensures
            r == self@.castling_permissions,
    {
        self.castling_permissions
    }

    /// The en passant target square, if there is one. It lies on the third
    /// or the sixth rank.
    pub fn en_passant_square(&self) -> (r: Option<Square>)
        ensures
            match r {
                Some(sq) => self@.en_passant_square == Some(sq@) && en_passant_rank(sq@),
                None => self@.en_passant_square is None,
            },
    {
        proof {
            use_type_invariant(self);
        }
        self.en_passant_square
    }

    /// The halfmove clock, which is at most 100.
    pub fn halfmove_clock(&self) -> (r: u8)
        ensures
            r == self@.halfmove_clock,
            r <= 100,
    {
        proof {
            use_type_invariant(self);
        }
        self.halfmove_clock
    }

    /// The fullmove counter, which is at least 1.
    pub fn fullmove_counter(&self) -> (r: u16)
        ensures
            r == self@.fullmove_counter,
            r >= 1,
    {
        proof {
            use_type_invariant(self);
        }
        self.fullmove_counter
    }

    /// Reads a position from its notation.
    pub fn decode(source: &str) -> (r: Result<Fen, FenParseError>)
        ensures
            match r {
                Ok(fen) => fen_decode_spec(source@) == Ok::<FenView, FenParseError>(fen@),
                Err(e) => fen_decode_spec(source@) == Err::<FenView, FenParseError>(e),
            },
    {
        let chars = crate::text::to_chars(source);
        Fen::from_chars(&chars)
    }
}

/// The position at the start of a game.
pub open spec fn starting_position() -> FenView {
    FenView {
        pieces: crate::board::starting_placement(),
        side_to_move: StandardColor::White,
        castling_permissions: CastlingPermissions {
            white_king_side: true,
            white_queen_side: true,
            black_king_side: true,
            black_queen_side: true,
        },
        en_passant_square: None,
        halfmove_clock: 0,
        fullmove_counter: 1,
    }
}

/// The notation of the position at the start of a game.
pub const FEN_STARTING_POSITION: &'static str =
    "rnbqkbnr/pppppppp/8/8/8/8/PPPPPPPP/RNBQKBNR w KQkq - 0 1";

impl Default for Fen {
    /// The position at the start of a game.
    fn default() -> (r: Self)
        ensures
            r@ == starting_position(),
    {
        Fen {
            pieces: crate::board::starting_pieces(),
            side_to_move: StandardColor::White,
            castling_permissions: CastlingPermissions::default(),
            en_passant_square: None,
            halfmove_clock: 0,
            fullmove_counter: 1,
        }
    }
}

impl<'a> TryFrom<&'a str> for Fen {
    type Error = FenParseError;

    /// Reads a position from its notation.
    fn try_from(value: &'a str) -> (r: Result<Self, Self::Error>)
        ensures
            match r {
                Ok(fen) => fen_decode_spec(value@) == Ok::<FenView, FenParseError>(fen@),
                Err(e) => fen_decode_spec(value@) == Err::<FenView, FenParseError>(e),
            },
    {
        Fen::decode(value)
    }
}

impl<'a> TryFromSpecImpl<&'a str> for Fen {
    /// The contract stands on the function itself.
    /// What the conversion gives.
    open spec fn obeys_try_from_spec() -> bool {
        false
    }

    /// Left open: the contract of the function says what it gives.
    closed spec fn try_from_spec(v: &'a str) -> Result<Self, Self::Error> {
        arbitrary()
    }
}

/// A record seen as a board: what stands where, who is to move, and which
/// special moves are open.
#[derive(Debug, PartialEq, Eq)]
pub struct FenBoard {
    data: Fen,
}

impl FenBoard {
    /// The record behind the board.
    pub closed spec fn record(&self) -> Fen {
        self.data
    }

    /// What stands on the given square.
    pub fn get_piece_at(&self, index: Square) -> (r: Option<StandardPiece>)
        ensures
            0 <= index@ < 64,
            r == self.record()@.pieces[index@],
    {
        self.data.piece_at(index)
    }

    /// The side whose turn it is.
    pub fn side_to_move(&self) -> (r: StandardColor)
        ensures
            r == self.record()@.side_to_move,
    {
        self.data.side_to_move()
    }

    /// The castling moves that are still allowed.
    pub fn castling_permissions(&self) -> (r: CastlingPermissions)
        ensures
            r == self.record()@.castling_permissions,
    {
        self.data.castling_permissions()
    }

    /// The en passant target square, if there is one.
    pub fn en_passant_target_square(&self) -> (r: Option<Square>)
        ensures
            match r {
                Some(sq) => self.record()@.en_passant_square == Some(sq@),
                None => self.record()@.en_passant_square is None,
            },
    {
        self.data.en_passant_square()
    }
}

impl Default for FenBoard {
    /// The board at the start of a game.
    fn default() -> (r: Self)
        ensures
            r.record()@ == starting_position(),
    {
        Self { data: Fen::default() }
    }
}

impl From<Fen> for FenBoard {
    /// The record seen as a board.
    fn from(value: Fen) -> (r: Self)
        ensures
            r.record() == value,
    {
        Self { data: value }
    }
}

impl FromSpecImpl<Fen> for FenBoard {
    /// The conversion does what its spec function says.
    /// What the conversion gives.
    open spec fn obeys_from_spec() -> bool {
        true
    }

    /// What the conversion gives.
    closed spec fn from_spec(v: Fen) -> Self {
        FenBoard { data: v }
    }
}

impl Fen {
    /// The record seen as a board.
    pub fn into_position(self) -> (r: FenBoard)
        ensures
            r.record() == self,
    {
        FenBoard::from(self)
    }
}

/// The codes of the pieces on the sixty-four squares, an empty square
/// having the code zero.
pub open spec fn codes_of(pieces: Seq<Option<StandardPiece>>) -> Seq<u8> {
    Seq::new(pieces.len(), |i: int| Piece::of_standard(pieces[i]).code() as u8)
}

/// A position with its pieces packed into four words, as open fields.
#[derive(Debug, PartialEq, Eq)]
pub struct FenData {
    /// The pieces, each square as the code of its piece.
    pub position: Position,
    /// The side whose turn it is.
    pub side_to_move: PieceColor,
    /// The castling moves that are still allowed.
    pub castling_permissions: CastlingPermissions,
    /// The number of the en passant target square, if there is one.
    pub en_passant_target_square: Option<u8>,
    /// The number of halfmoves since the last capture or pawn move.
    pub halfmove_clock: u8,
    /// The number of the move that is about to be played.
    pub fullmove_counter: u16,
}

impl From<Fen> for FenData {
    /// The same position with its pieces packed.
    fn from(value: Fen) -> (r: Self)
        ensures
            r.position@ == codes_of(value@.pieces),
            r.side_to_move == (match value@.side_to_move {
                StandardColor::Black => PieceColor::Black,
                StandardColor::White => PieceColor::White,
            }),
            r.castling_permissions == value@.castling_permissions,
            match r.en_passant_target_square {
                Some(index) => value@.en_passant_square == Some(index as int),
                None => value@.en_passant_square is None,
            },
            r.halfmove_clock == value@.halfmove_clock,
            r.fullmove_counter == value@.fullmove_counter,
    {
        proof {
            use_type_invariant(&value);
        }
        let squares = value.pieces();
        let mut position = Position::empty();
        let mut i: u8 = 0;
        while i < 64
            invariant
                0 <= i <= 64,
                squares@ == value@.pieces,
                squares@.len() == 64,
                position@.len() == 64,
                forall|j: int|
                    0 <= j < i ==> #[trigger] position@[j] == Piece::of_standard(squares@[j]).code(),
                forall|j: int| i <= j < 64 ==> #[trigger] position@[j] == 0,
            decreases 64 - i,
        {
            let piece = Piece::from_standard(squares[i as usize]);
            proof {
                crate::piece::lemma_code_round_trip(piece, 0);
            }
            let _ = position.try_write(i, piece);
            i += 1;
        }
        assert(position@ =~= codes_of(value@.pieces));
        FenData {
            position,
            side_to_move: match value.side_to_move() {
                StandardColor::Black => PieceColor::Black,
                StandardColor::White => PieceColor::White,
            },
            castling_permissions: value.castling_permissions(),
            en_passant_target_square: match value.en_passant_square() {
                Some(sq) => Some(sq.index()),
                None => None,
            },
            halfmove_clock: value.halfmove_clock(),
            fullmove_counter: value.fullmove_counter(),
        }
    }
}

impl FromSpecImpl<Fen> for FenData {
    /// The contract stands on the function itself.
    /// What the conversion gives.
    open spec fn obeys_from_spec() -> bool {
        false
    }

    /// Left open: the contract of the function says what it gives.
    closed spec fn from_spec(v: Fen) -> Self {
        arbitrary()
    }
}

impl<'a> TryFrom<&'a str> for FenData {
    type Error = FenParseError;

    /// Reads a position from its notation and packs its pieces.
    fn try_from(value: &'a str) -> (r: Result<Self, Self::Error>)
        ensures
            match r {
                Ok(data) => fen_decode_spec(value@) matches Ok(v) && {
                    &&& data.position@ == codes_of(v.pieces)
                    &&& data.side_to_move == (match v.side_to_move {
                        StandardColor::Black => PieceColor::Black,
                        StandardColor::White => PieceColor::White,
                    })
                    &&& data.castling_permissions == v.castling_permissions
                    &&& v.en_passant_square == (match data.en_passant_target_square {
                        Some(index) => Some(index as int),
                        None => None,
                    })
                    &&& data.halfmove_clock == v.halfmove_clock
                    &&& data.fullmove_counter == v.fullmove_counter
                },
                Err(e) => fen_decode_spec(value@) == Err::<FenView, FenParseError>(e),
            },
    {
        match Fen::decode(value) {
            Ok(fen) => Ok(FenData::from(fen)),
            Err(e) => Err(e),
        }
    }
}

impl<'a> TryFromSpecImpl<&'a str> for FenData {
    /// The contract stands on the function itself.
    /// What the conversion gives.
    open spec fn obeys_try_from_spec() -> bool {
        false
    }

    /// Left open: the contract of the function says what it gives.
    closed spec fn try_from_spec(v: &'a str) -> Result<Self, Self::Error> {
        arbitrary()
    }
}

/// Reads the piece placement, the first field.
pub fn try_parse_piece_placement(source: &str) -> (r: Result<
    [Option<StandardPiece>; 64],
    FenParseError,
>)
    ensures
        match r {
            Ok(pieces) => placement_of_text(source@) == Some(pieces@),
            Err(e) => placement_of_text(source@) is None && e
                == FenParseError::InvalidPositionComponent,
        },
{
    let chars = crate::text::to_chars(source);
    placement_from_chars(&chars)
}

/// Reads the side to move, the second field.
pub fn try_parse_side_to_move(source: &str) -> (r: Result<StandardColor, FenParseError>)
    ensures
        r == (match side_of_text(source@) {
            Some(side) => Ok::<StandardColor, FenParseError>(side),
            None => Err(FenParseError::InvalidPieceToMoveComponent),
        }),
{
    let chars = crate::text::to_chars(source);
    side_from_chars(&chars)
}

/// Reads the castling permissions, the third field.
pub fn try_parse_castling_permissions(source: &str) -> (r: Result<
    CastlingPermissions,
    FenParseError,
>)
    ensures
        r == (match castling_of_text(source@) {
            Some(p) => Ok::<CastlingPermissions, FenParseError>(p),
            None => Err(FenParseError::InvalidCastlingPermissionsComponent),
        }),
{
    let chars = crate::text::to_chars(source);
    castling_from_chars(&chars)
}

/// Reads the en passant target square, the fourth field.
pub fn try_parse_en_passant_target_square(source: &str) -> (r: Result<
    Option<Square>,
    FenParseError,
>)
    ensures
        match r {
            Ok(None) => en_passant_of_text(source@) == Some(None::<int>),
            Ok(Some(sq)) => en_passant_of_text(source@) == Some(Some(sq@)),
            Err(e) => en_passant_of_text(source@) is None && e
                == FenParseError::InvalidEnPassantTargetSquareComponent,
        },
{
    let chars = crate::text::to_chars(source);
    en_passant_from_chars(&chars)
}

/// Reads the halfmove clock, the fifth field.
pub fn try_parse_halfmove_clock(source: &str) -> (r: Result<u8, FenParseError>)
    ensures
        r == (match halfmove_of_text(source@) {
            Some(clock) => Ok::<u8, FenParseError>(clock as u8),
            None => Err(FenParseError::InvalidHalfmoveClockComponent),
        }),
{
    let chars = crate::text::to_chars(source);
    halfmove_from_chars(&chars)
}

/// Reads the fullmove counter, the sixth field.
pub fn try_parse_fullmove_counter(source: &str) -> (r: Result<u16, FenParseError>)
    ensures
        r == (match fullmove_of_text(source@) {
            Ok(counter) => Ok::<u16, FenParseError>(counter as u16),
            Err(e) => Err(e),
        }),
{
    let chars = crate::text::to_chars(source);
    fullmove_from_chars(&chars)
}

/// The square that the piece placement reaches `n`-th, counting from 0: the
/// eighth rank from the a-file to the h-file, then the seventh, down to the
/// first.
pub open spec fn fen_order(n: int) -> int {
    (7 - n / 8) * 8 + n % 8
}

/// The squares of the board in the order in which a piece placement names
/// them.
pub struct FenIndexIterator {
    index: u8,
    rank_index: u8,
}

impl FenIndexIterator {
    /// The square last given out lies on the file that the count within
    /// the rank says.
    #[verifier::type_invariant]
    spec fn consistent(self) -> bool {
        &&& self.rank_index <= 8
        &&& self.index < 64
        &&& self.rank_index == 0 ==> self.index == 55
        &&& self.rank_index >= 1 ==> self.index % 8 == self.rank_index - 1
    }

    /// The number of squares already given out.
    pub closed spec fn position(&self) -> int {
        if self.rank_index == 0 {
            0
        } else {
            (7 - self.index / 8) * 8 + self.rank_index
        }
    }

    /// A walk that has given out no square yet.
    pub fn new() -> (r: FenIndexIterator)
        ensures
            r.position() == 0,
    {
        FenIndexIterator { index: 55, rank_index: 0 }
    }

    /// The next square, or `None` when all sixty-four have been given out.
    pub fn next(&mut self) -> (r: Option<u8>)
        ensures
            0 <= old(self).position() <= 64,
            old(self).position() < 64 ==> r == Some(fen_order(old(self).position()) as u8)
                && final(self).position() == old(self).position() + 1,
            old(self).position() == 64 ==> r is None && final(self).position() == 64,
    {
        proof {
            use_type_invariant(&*self);
        }
        if self.index == 7 {
            return None;
        }
        if self.rank_index == 8 {
            *self = FenIndexIterator { index: self.index - 15, rank_index: 1 };
        } else {
            *self = FenIndexIterator { index: self.index + 1, rank_index: self.rank_index + 1 };
        }
        Some(self.index)
    }

    /// Moves on by `steps` squares. Fails, at the end of the walk, where
    /// fewer than `steps` squares were left.
    pub fn advance_by(&mut self, steps: usize) -> (r: Result<(), ()>)
        ensures
            0 <= old(self).position() <= 64,
            old(self).position() + steps <= 64 ==> r is Ok && final(self).position() == old(
                self,
            ).position() + steps,
            old(self).position() + steps > 64 ==> r is Err && final(self).position() == 64,
    {
        proof {
            use_type_invariant(&*self);
        }
        let mut taken: usize = 0;
        while taken < steps
            invariant
                0 <= taken <= steps,
                0 <= old(self).position() <= 64,
                self.position() == old(self).position() + taken,
                self.position() <= 64,
            decreases steps - taken,
        {
            match self.next() {
                Some(_) => {
                    taken += 1;
                },
                None => {
                    return Err(());
                },
            }
        }
        Ok(())
    }
}

} // verus!
