//! Standard Algebraic Notation: one move as a short text.
//!
//! A literal has one of four shapes, tried in this order; the first that
//! fits decides:
//!
//! 1. a castling move: `0-0` or `O-O` on the king's side, `0-0-0` or `O-O-O`
//!    on the queen's side;
//! 2. an abbreviated pawn move: a file, an optional capture mark, a file
//!    that no rank digit follows, and an optional promotion;
//! 3. a pawn move: optionally a file and a capture mark, then the target
//!    square, and an optional promotion;
//! 4. a piece move: a piece letter, an optional disambiguation (a file, a
//!    rank, or both), an optional capture mark, and the target square. The
//!    disambiguation is read as long as possible first; where that leaves no
//!    target square, the literal is read again without one.
//!
//! After the move an optional `+` for check and an optional `#` for
//! checkmate may follow, in either order, and then up to two of `!` and `?`.
//! Nothing may be left over. A promotion is `=` and one of `R`, `N`, `B`,
//! `Q`; once the `=` has been read the letter must follow.
//!
//! The order matters: `ab` is an abbreviated pawn move, `exd5` a pawn move
//! that names its target square, and `Ka1` a king move to a1, not a king
//! from a1 with the target missing. [`san_decode_spec`]
//! states all of this exactly.

use vstd::prelude::*;
use vstd::std_specs::convert::TryFromSpecImpl;
use crate::square::is_file_letter;
use crate::square::is_rank_digit;
use crate::square::file_letter;
use crate::square::rank_digit;
use crate::standard::StandardPieceKind;

verus! {

/// Why a text is not a move in Standard Algebraic Notation. Where a variant
/// holds a number, it is the offset, in characters, at which reading stopped.
#[derive(Debug, Clone, Copy, PartialEq, Eq, Structural)]
pub enum ParseError {
    /// The first character starts none of the four shapes.
    InvalidLeadingPiece(char),
    /// No target square stands where one has to.
    InvalidTargetSquare(usize),
    /// The character stands where a capture mark or a square may, and is
    /// neither.
    InvalidCaptureField(char),
    /// A rank digit stands where none may.
    InvalidDisambiguationField(usize),
    /// More than two of `!` and `?` end the literal.
    InvalidAnnotationSuffixField(usize),
    /// `=` is not followed by one of `R`, `N`, `B`, `Q`.
    InvalidPromotionField(usize),
    /// The literal starts like a castling move and is none, or something
    /// that no castling move can carry follows one.
    InvalidCastlingField(usize),
    /// Something is left over after a move that is no castling move.
    TrailingGarbage(usize),
    /// The literal is empty.
    Unknown,
}

/// The side towards which the king castles.
#[derive(Debug, Clone, Copy, PartialEq, Eq, Structural)]
pub enum CastleMove {
    /// Towards the a-file.
    QueenSide,
    /// Towards the h-file.
    KingSide,
}

/// What tells the moving piece from another of its kind that could reach
/// the same square.
#[derive(Debug, Clone, Copy, PartialEq, Eq)]
pub enum DisambiguationField {
    /// The file that the piece comes from.
    FileLetter(char),
    /// The rank that the piece comes from.
    RankDigit(char),
    /// The square that the piece comes from: its file, then its rank.
    SourceSquare((char, char)),
}

/// A judgement on the move: `!` is a bang, `?` a hook.
#[derive(Debug, Clone, Copy, PartialEq, Eq, Structural)]
pub enum SuffixAnnotation {
    /// `!`, a good move.
    Bang,
    /// `?`, a mistake.
    Hook,
    /// `!!`, a brilliant move.
    BangBang,
    /// `!?`, an interesting move.
    BangHook,
    /// `?!`, a dubious move.
    HookBang,
    /// `??`, a blunder.
    HookHook,
}

/// A move of a piece that is no pawn.
#[derive(Debug, Clone, Copy, PartialEq, Eq)]
pub struct NormalMove {
    /// The kind of the moving piece.
    pub piece: StandardPieceKind,
    /// The disambiguation, where the literal holds one.
    pub disambiguation_field: Option<DisambiguationField>,
    /// The target square: its file, then its rank.
    pub target: (char, char),
    /// Whether the literal holds a capture mark.
    pub is_capture: bool,
}

/// A move of a pawn that names its target square.
#[derive(Debug, Clone, Copy, PartialEq, Eq)]
pub struct PawnMove {
    /// The target square: its file, then its rank.
    pub target: (char, char),
    /// Whether the literal holds a capture mark.
    pub is_capture: bool,
    /// The file that the capturing pawn comes from.
    pub capture_file: Option<char>,
    /// The kind of piece that the pawn becomes.
    pub promotion_piece: Option<StandardPieceKind>,
}

/// A move of a pawn that names files only.
#[derive(Debug, Clone, Copy, PartialEq, Eq, Structural)]
pub struct AbbreviatedPawnMove {
    /// The file that the pawn comes from.
    pub source_file: char,
    /// The file that the pawn goes to.
    pub target_file: char,
    /// Whether the literal holds a capture mark.
    pub is_capture: bool,
    /// The kind of piece that the pawn becomes.
    pub promotion_piece: Option<StandardPieceKind>,
}

/// The move that a literal describes, by its shape.
#[derive(Debug, Clone, Copy, PartialEq, Eq)]
pub enum SanMove {
    /// A pawn move that names files only.
    AbbreviatedPawnMove(AbbreviatedPawnMove),
    /// A castling move.
    CastleMove(CastleMove),
    /// A move of a piece that is no pawn.
    NormalMove(NormalMove),
    /// A pawn move that names its target square.
    PawnMove(PawnMove),
}

/// What a literal says: the move, whether it gives check or checkmate, and
/// the judgement on it. Whether the move can be played on a given board is
/// not recorded, and not decided here.
#[derive(Debug, Clone, Copy, PartialEq, Eq)]
pub struct San {
    /// The move.
    pub data: SanMove,
    /// Whether the literal holds `+`.
    pub is_check: bool,
    /// Whether the literal holds `#`.
    pub is_checkmate: bool,
    /// The judgement, where the literal holds one.
    pub annotation: Option<SuffixAnnotation>,
}

/// How an attempt to read one part of a literal ends.
#[derive(Debug, PartialEq, Eq)]
pub enum Parsed<T> {
    /// The part was read: its value, and the offset behind it.
    Match(T, usize),
    /// The part does not stand here; another reading may still fit.
    NoMatch,
    /// The part starts here and breaks off at the given offset; no other
    /// reading is tried.
    Fail(usize),
}

/// Whether `c` is a capture mark: `x`, `X`, the multiplication sign or `:`.
pub open spec fn is_capture_mark(c: char) -> bool {
    c == 'x' || c == 'X' || c == '\u{d7}' || c == ':'
}

/// Whether `c` is `!` or `?`.
pub open spec fn is_annotation_mark(c: char) -> bool {
    c == '!' || c == '?'
}

/// The kind of piece that a leading letter names: one of `K`, `Q`, `B`, `N`,
/// `R`.
pub open spec fn kind_of_piece_letter(c: char) -> Option<StandardPieceKind> {
    if c == 'K' {
        Some(StandardPieceKind::King)
    } else if c == 'Q' {
        Some(StandardPieceKind::Queen)
    } else if c == 'B' {
        Some(StandardPieceKind::Bishop)
    } else if c == 'N' {
        Some(StandardPieceKind::Knight)
    } else if c == 'R' {
        Some(StandardPieceKind::Rook)
    } else {
        None
    }
}

/// The kind of piece that a promotion letter names: one of `R`, `N`, `B`,
/// `Q`.
pub open spec fn kind_of_promotion_letter(c: char) -> Option<StandardPieceKind> {
    if c == 'K' {
        None
    } else {
        kind_of_piece_letter(c)
    }
}

/// Whether the character at offset `i` of `s` is `c`.
pub open spec fn char_at(s: Seq<char>, i: int, c: char) -> bool {
    0 <= i < s.len() && s[i] == c
}

/// Whether a file letter stands at offset `i`.
pub open spec fn file_at(s: Seq<char>, i: int) -> bool {
    0 <= i < s.len() && is_file_letter(s[i])
}

/// Whether a rank digit stands at offset `i`.
pub open spec fn rank_at(s: Seq<char>, i: int) -> bool {
    0 <= i < s.len() && is_rank_digit(s[i])
}

/// Whether a capture mark stands at offset `i`.
pub open spec fn capture_at(s: Seq<char>, i: int) -> bool {
    0 <= i < s.len() && is_capture_mark(s[i])
}

/// Whether a square, a file letter and a rank digit, stands at offset `i`.
pub open spec fn target_at(s: Seq<char>, i: int) -> bool {
    file_at(s, i) && rank_at(s, i + 1)
}

/// Whether `!` or `?` stands at offset `i`.
pub open spec fn annotation_at(s: Seq<char>, i: int) -> bool {
    0 <= i < s.len() && is_annotation_mark(s[i])
}

/// Whether the characters of `tag` stand at offset `i`, in order.
pub open spec fn tag_at(s: Seq<char>, i: int, tag: Seq<char>) -> bool {
    0 <= i && i + tag.len() <= s.len() && s.subrange(i, i + tag.len()) == tag
}

/// The castling move at offset `i`, the longer reading first.
pub open spec fn castle_at(s: Seq<char>, i: int) -> Option<(CastleMove, usize)> {
    if tag_at(s, i, seq!['0', '-', '0', '-', '0']) || tag_at(s, i, seq!['O', '-', 'O', '-', 'O']) {
        Some((CastleMove::QueenSide, (i + 5) as usize))
    } else if tag_at(s, i, seq!['0', '-', '0']) || tag_at(s, i, seq!['O', '-', 'O']) {
        Some((CastleMove::KingSide, (i + 3) as usize))
    } else {
        None
    }
}

/// The promotion at offset `i`. An `=` without its letter is a failure.
pub open spec fn promotion_at(s: Seq<char>, i: int) -> Parsed<StandardPieceKind> {
    if char_at(s, i, '=') {
        if 0 <= i + 1 < s.len() && kind_of_promotion_letter(s[i + 1]) is Some {
            Parsed::Match(kind_of_promotion_letter(s[i + 1])->Some_0, (i + 2) as usize)
        } else {
            Parsed::Fail(i as usize)
        }
    } else {
        Parsed::NoMatch
    }
}

/// The promotion at offset `i` if one stands there, and nothing read
/// otherwise.
pub open spec fn optional_promotion_at(s: Seq<char>, i: int) -> Parsed<Option<StandardPieceKind>> {
    match promotion_at(s, i) {
        Parsed::Match(kind, end) => Parsed::Match(Some(kind), end),
        Parsed::NoMatch => Parsed::Match(None, i as usize),
        Parsed::Fail(at) => Parsed::Fail(at),
    }
}

/// The abbreviated pawn move at offset `i`. It names no rank: where a rank
/// digit follows the second file, the two are a square, and the move is
/// none of this shape.
pub open spec fn abbreviated_pawn_move_at(s: Seq<char>, i: int) -> Parsed<SanMove> {
    let captures = file_at(s, i) && capture_at(s, i + 1);
    let j = if captures {
        i + 2
    } else {
        i + 1
    };
    if file_at(s, i) && file_at(s, j) && !rank_at(s, j + 1) {
        match optional_promotion_at(s, j + 1) {
            Parsed::Match(promotion, end) => Parsed::Match(
                SanMove::AbbreviatedPawnMove(
                    AbbreviatedPawnMove {
                        source_file: s[i],
                        target_file: s[j],
                        is_capture: captures,
                        promotion_piece: promotion,
                    },
                ),
                end,
            ),
            Parsed::NoMatch => Parsed::NoMatch,
            Parsed::Fail(at) => Parsed::Fail(at),
        }
    } else {
        Parsed::NoMatch
    }
}

/// The pawn move at offset `i`.
pub open spec fn pawn_move_at(s: Seq<char>, i: int) -> Parsed<SanMove> {
    let captures = file_at(s, i) && capture_at(s, i + 1);
    let j = if captures {
        i + 2
    } else {
        i
    };
    if target_at(s, j) {
        match optional_promotion_at(s, j + 2) {
            Parsed::Match(promotion, end) => Parsed::Match(
                SanMove::PawnMove(
                    PawnMove {
                        target: (s[j], s[j + 1]),
                        is_capture: captures,
                        capture_file: if captures {
                            Some(s[i])
                        } else {
                            None
                        },
                        promotion_piece: promotion,
                    },
                ),
                end,
            ),
            Parsed::NoMatch => Parsed::NoMatch,
            Parsed::Fail(at) => Parsed::Fail(at),
        }
    } else {
        Parsed::NoMatch
    }
}

/// The disambiguation at offset `i`, read as long as possible: a file
/// letter if one stands there, then a rank digit if one stands there.
pub open spec fn disambiguation_at(s: Seq<char>, i: int) -> (Option<DisambiguationField>, usize) {
    if file_at(s, i) && rank_at(s, i + 1) {
        (Some(DisambiguationField::SourceSquare((s[i], s[i + 1]))), (i + 2) as usize)
    } else if file_at(s, i) {
        (Some(DisambiguationField::FileLetter(s[i])), (i + 1) as usize)
    } else if rank_at(s, i) {
        (Some(DisambiguationField::RankDigit(s[i])), (i + 1) as usize)
    } else {
        (None, i as usize)
    }
}

/// The offset behind an optional capture mark at offset `i`.
pub open spec fn after_capture(s: Seq<char>, i: int) -> int {
    if capture_at(s, i) {
        i + 1
    } else {
        i
    }
}

/// The piece move at offset `i`: with the longest disambiguation where a
/// target square follows it, else without disambiguation.
pub open spec fn normal_move_at(s: Seq<char>, i: int) -> Option<(SanMove, usize)> {
    if 0 <= i < s.len() && kind_of_piece_letter(s[i]) is Some {
        let piece = kind_of_piece_letter(s[i])->Some_0;
        let field = disambiguation_at(s, i + 1);
        let b = field.1 as int;
        let c = after_capture(s, b);
        let plain = after_capture(s, i + 1);
        if target_at(s, c) {
            Some(
                (
                    SanMove::NormalMove(
                        NormalMove {
                            piece,
                            disambiguation_field: field.0,
                            target: (s[c], s[c + 1]),
                            is_capture: capture_at(s, b),
                        },
                    ),
                    (c + 2) as usize,
                ),
            )
        } else if target_at(s, plain) {
            Some(
                (
                    SanMove::NormalMove(
                        NormalMove {
                            piece,
                            disambiguation_field: None,
                            target: (s[plain], s[plain + 1]),
                            is_capture: capture_at(s, i + 1),
                        },
                    ),
                    (plain + 2) as usize,
                ),
            )
        } else {
            None
        }
    } else {
        None
    }
}

/// The move at the start of `s`: the first of the four shapes that fits.
pub open spec fn move_at_start(s: Seq<char>) -> Parsed<SanMove> {
    match castle_at(s, 0) {
        Some((side, end)) => Parsed::Match(SanMove::CastleMove(side), end),
        None => match abbreviated_pawn_move_at(s, 0) {
            Parsed::Match(m, end) => Parsed::Match(m, end),
            Parsed::Fail(at) => Parsed::Fail(at),
            Parsed::NoMatch => match pawn_move_at(s, 0) {
                Parsed::Match(m, end) => Parsed::Match(m, end),
                Parsed::Fail(at) => Parsed::Fail(at),
                Parsed::NoMatch => match normal_move_at(s, 0) {
                    Some((m, end)) => Parsed::Match(m, end),
                    None => Parsed::NoMatch,
                },
            },
        },
    }
}

/// Whether `+` stands at offset `i`, or directly behind a `#` at offset `i`.
pub open spec fn check_at(s: Seq<char>, i: int) -> bool {
    char_at(s, i, '+') || (char_at(s, i, '#') && char_at(s, i + 1, '+'))
}

/// Whether `#` stands at offset `i`, or directly behind a `+` at offset `i`.
pub open spec fn checkmate_at(s: Seq<char>, i: int) -> bool {
    char_at(s, i, '#') || (char_at(s, i, '+') && char_at(s, i + 1, '#'))
}

/// The offset behind the check and checkmate marks at offset `i`.
pub open spec fn after_marks(s: Seq<char>, i: int) -> int {
    i + (if check_at(s, i) {
        1int
    } else {
        0
    }) + (if checkmate_at(s, i) {
        1int
    } else {
        0
    })
}

/// The judgement at offset `i`: up to two of `!` and `?`.
pub open spec fn annotation_of(s: Seq<char>, i: int) -> (Option<SuffixAnnotation>, usize) {
    if annotation_at(s, i) && annotation_at(s, i + 1) {
        (
            Some(
                if s[i] == '!' && s[i + 1] == '!' {
                    SuffixAnnotation::BangBang
                } else if s[i] == '!' {
                    SuffixAnnotation::BangHook
                } else if s[i + 1] == '!' {
                    SuffixAnnotation::HookBang
                } else {
                    SuffixAnnotation::HookHook
                },
            ),
            (i + 2) as usize,
        )
    } else if annotation_at(s, i) {
        (
            Some(
                if s[i] == '!' {
                    SuffixAnnotation::Bang
                } else {
                    SuffixAnnotation::Hook
                },
            ),
            (i + 1) as usize,
        )
    } else {
        (None, i as usize)
    }
}

/// Why `s`, which is not empty, starts with none of the four shapes.
///
/// A literal that starts with `0` or `O` is a broken castling move. One that
/// starts with a file letter lacks its target square. One that starts with
/// a piece letter is read as far as it goes, the disambiguation as long as
/// possible: behind a capture mark the target square is missing; otherwise
/// the character at which reading stops decides, a file letter or the end
/// of the literal for a missing target square, a rank digit for a broken
/// disambiguation, anything else for a broken capture mark. Any other first
/// character is no piece.
pub open spec fn shape_error(s: Seq<char>) -> ParseError
    recommends
        s.len() > 0,
{
    if s[0] == '0' || s[0] == 'O' {
        ParseError::InvalidCastlingField(0)
    } else if is_file_letter(s[0]) {
        ParseError::InvalidTargetSquare(
            if capture_at(s, 1) {
                2
            } else {
                0
            },
        )
    } else if kind_of_piece_letter(s[0]) is Some {
        let b = disambiguation_at(s, 1).1 as int;
        if capture_at(s, b) {
            ParseError::InvalidTargetSquare((b + 1) as usize)
        } else if b >= s.len() || is_file_letter(s[b]) {
            ParseError::InvalidTargetSquare(b as usize)
        } else if is_rank_digit(s[b]) {
            ParseError::InvalidDisambiguationField(b as usize)
        } else {
            ParseError::InvalidCaptureField(s[b])
        }
    } else {
        ParseError::InvalidLeadingPiece(s[0])
    }
}

/// Why what is left at offset `i`, behind the move `data` and its marks,
/// may not stand there: a third `!` or `?`, something that a castling move
/// cannot carry, or anything else.
pub open spec fn residue_error(s: Seq<char>, data: SanMove, i: int) -> ParseError
    recommends
        0 <= i < s.len(),
{
    if is_annotation_mark(s[i]) {
        ParseError::InvalidAnnotationSuffixField(i as usize)
    } else if data is CastleMove {
        ParseError::InvalidCastlingField(i as usize)
    } else {
        ParseError::TrailingGarbage(i as usize)
    }
}

/// What the literal `s` says, or why it is no literal.
pub open spec fn san_decode_spec(s: Seq<char>) -> Result<San, ParseError> {
    if s.len() == 0 {
        Err(ParseError::Unknown)
    } else {
        match move_at_start(s) {
            Parsed::Fail(at) => Err(ParseError::InvalidPromotionField(at)),
            Parsed::NoMatch => Err(shape_error(s)),
            Parsed::Match(data, end) => {
                let marks = after_marks(s, end as int);
                let judged = annotation_of(s, marks);
                if judged.1 == s.len() {
                    Ok(
                        San {
                            data,
                            is_check: check_at(s, end as int),
                            is_checkmate: checkmate_at(s, end as int),
                            annotation: judged.0,
                        },
                    )
                } else {
                    Err(residue_error(s, data, judged.1 as int))
                }
            },
        }
    }
}

/// The four shapes exclude each other: at the start of a literal at most
/// one of them is found, whether whole or broken off.
pub proof fn lemma_shapes_exclusive(s: Seq<char>)
    ensures
        castle_at(s, 0) is Some ==> abbreviated_pawn_move_at(s, 0) is NoMatch && pawn_move_at(s, 0)
            is NoMatch && normal_move_at(s, 0) is None,
        !(abbreviated_pawn_move_at(s, 0) is NoMatch) ==> pawn_move_at(s, 0) is NoMatch
            && normal_move_at(s, 0) is None,
        !(pawn_move_at(s, 0) is NoMatch) ==> normal_move_at(s, 0) is None,
{
    if castle_at(s, 0) is Some {
        let first = s.subrange(0, 3)[0];
        assert(first == s[0]);
        assert(s[0] == '0' || s[0] == 'O') by {
            if tag_at(s, 0, seq!['0', '-', '0', '-', '0']) {
                assert(s.subrange(0, 5)[0] == '0');
            } else if tag_at(s, 0, seq!['O', '-', 'O', '-', 'O']) {
                assert(s.subrange(0, 5)[0] == 'O');
            } else if tag_at(s, 0, seq!['0', '-', '0']) {
                assert(s.subrange(0, 3)[0] == '0');
            } else {
                assert(s.subrange(0, 3)[0] == 'O');
            }
        }
    }
}

/// A literal holds at least two characters, and what it says was read from
/// all of them: the move ends where its marks begin, and the judgement ends
/// the literal.
pub proof fn lemma_literal_is_read_whole(s: Seq<char>)
    requires
        san_decode_spec(s) is Ok,
    ensures
        s.len() >= 2,
        move_at_start(s) matches Parsed::Match(data, end) && data == san_decode_spec(s)->Ok_0.data
            && 2 <= end <= s.len() && annotation_of(s, after_marks(s, end as int)).1 == s.len(),
{
    let end = move_at_start(s)->Match_1;
    if castle_at(s, 0) is Some {
    } else if abbreviated_pawn_move_at(s, 0) is Match {
    } else if pawn_move_at(s, 0) is Match {
    } else {
        assert(normal_move_at(s, 0) is Some);
    }
}

/// Whether `c` is a capture mark.
pub fn capture_mark(c: char) -> (r: bool)
    ensures
        r == is_capture_mark(c),
{
    c == 'x' || c == 'X' || c == '\u{d7}' || c == ':'
}

/// Whether the character at offset `i` is `c`.
fn has_char(s: &Vec<char>, i: usize, c: char) -> (r: bool)
    ensures
        r == char_at(s@, i as int, c),
        r ==> i < s.len(),
{
    i < s.len() && s[i] == c
}

/// Whether the three characters at offset `i` are `a`, `b`, `c`.
fn has_tag3(s: &Vec<char>, i: usize, a: char, b: char, c: char) -> (r: bool)
    ensures
        r == tag_at(s@, i as int, seq![a, b, c]),
        r ==> i + 3 <= s.len(),
{
    if i <= s.len() && s.len() - i >= 3 {
        let r = s[i] == a && s[i + 1] == b && s[i + 2] == c;
        proof {
            let part = s@.subrange(i as int, i + 3);
            if r {
                assert(part =~= seq![a, b, c]);
            } else {
                assert(part[0] == s@[i as int] && part[1] == s@[i + 1] && part[2] == s@[i + 2]);
            }
        }
        r
    } else {
        false
    }
}

/// Whether the five characters at offset `i` are `a`, `b`, `a`, `b`, `a`.
fn has_tag5(s: &Vec<char>, i: usize, a: char, b: char) -> (r: bool)
    ensures
        r == tag_at(s@, i as int, seq![a, b, a, b, a]),
        r ==> i + 5 <= s.len(),
{
    if i <= s.len() && s.len() - i >= 5 {
        let r = s[i] == a && s[i + 1] == b && s[i + 2] == a && s[i + 3] == b && s[i + 4] == a;
        proof {
            let part = s@.subrange(i as int, i + 5);
            if r {
                assert(part =~= seq![a, b, a, b, a]);
            } else {
                assert(part[0] == s@[i as int] && part[1] == s@[i + 1] && part[2] == s@[i + 2]
                    && part[3] == s@[i + 3] && part[4] == s@[i + 4]);
            }
        }
        r
    } else {
        false
    }
}

/// Reads the judgement at offset `i`: up to two of `!` and `?`.
pub fn annotation(s: &Vec<char>, i: usize) -> (r: (Option<SuffixAnnotation>, usize))
    ensures
        r == annotation_of(s@, i as int),
{
    if i < s.len() && (s[i] == '!' || s[i] == '?') {
        let first = s[i];
        if i + 1 < s.len() && (s[i + 1] == '!' || s[i + 1] == '?') {
            let second = s[i + 1];
            let tag = match (first, second) {
                ('!', '!') => SuffixAnnotation::BangBang,
                ('!', _) => SuffixAnnotation::BangHook,
                (_, '!') => SuffixAnnotation::HookBang,
                _ => SuffixAnnotation::HookHook,
            };
            (Some(tag), i + 2)
        } else {
            let tag = if first == '!' {
                SuffixAnnotation::Bang
            } else {
                SuffixAnnotation::Hook
            };
            (Some(tag), i + 1)
        }
    } else {
        (None, i)
    }
}

/// Reads `+` at offset `i`.
pub fn check(s: &Vec<char>, i: usize) -> (r: Option<(bool, usize)>)
    ensures
        r == (if char_at(s@, i as int, '+') {
            Some((true, (i + 1) as usize))
        } else {
            None::<(bool, usize)>
        }),
{
    if has_char(s, i, '+') {
        Some((true, i + 1))
    } else {
        None
    }
}

/// Reads `#` at offset `i`.
pub fn checkmate(s: &Vec<char>, i: usize) -> (r: Option<(bool, usize)>)
    ensures
        r == (if char_at(s@, i as int, '#') {
            Some((true, (i + 1) as usize))
        } else {
            None::<(bool, usize)>
        }),
{
    if has_char(s, i, '#') {
        Some((true, i + 1))
    } else {
        None
    }
}

/// Reads a piece letter at offset `i`: one of `K`, `Q`, `B`, `N`, `R`.
pub fn piece(s: &Vec<char>, i: usize) -> (r: Option<(StandardPieceKind, usize)>)
    ensures
        r == (if 0 <= i < s@.len() && kind_of_piece_letter(s@[i as int]) is Some {
            Some((kind_of_piece_letter(s@[i as int])->Some_0, (i + 1) as usize))
        } else {
            None::<(StandardPieceKind, usize)>
        }),
        r is Some ==> i < s.len(),
{
    if i >= s.len() {
        return None;
    }
    match s[i] {
        'K' => Some((StandardPieceKind::King, i + 1)),
        'Q' => Some((StandardPieceKind::Queen, i + 1)),
        'B' => Some((StandardPieceKind::Bishop, i + 1)),
        'N' => Some((StandardPieceKind::Knight, i + 1)),
        'R' => Some((StandardPieceKind::Rook, i + 1)),
        _ => None,
    }
}

/// Reads a file letter at offset `i`.
pub fn file(s: &Vec<char>, i: usize) -> (r: Option<(char, usize)>)
    ensures
        r == (if file_at(s@, i as int) {
            Some((s@[i as int], (i + 1) as usize))
        } else {
            None::<(char, usize)>
        }),
        r is Some ==> i < s.len(),
{
    if i < s.len() && file_letter(s[i]) {
        Some((s[i], i + 1))
    } else {
        None
    }
}

/// Reads a square at offset `i`: a file letter and a rank digit.
pub fn target(s: &Vec<char>, i: usize) -> (r: Option<((char, char), usize)>)
    ensures
        r == (if target_at(s@, i as int) {
            Some(((s@[i as int], s@[i + 1]), (i + 2) as usize))
        } else {
            None::<((char, char), usize)>
        }),
        r is Some ==> i + 1 < s.len(),
{
    if i < s.len() && file_letter(s[i]) && i + 1 < s.len() && rank_digit(s[i + 1]) {
        Some(((s[i], s[i + 1]), i + 2))
    } else {
        None
    }
}

/// Reads a capture mark at offset `i`.
pub fn capture(s: &Vec<char>, i: usize) -> (r: Option<(char, usize)>)
    ensures
        r == (if capture_at(s@, i as int) {
            Some((s@[i as int], (i + 1) as usize))
        } else {
            None::<(char, usize)>
        }),
        r is Some ==> i < s.len(),
{
    if i < s.len() && capture_mark(s[i]) {
        Some((s[i], i + 1))
    } else {
        None
    }
}

/// Reads the disambiguation at offset `i`, as long as possible.
pub fn disambiguation_field(s: &Vec<char>, i: usize) -> (r: (Option<DisambiguationField>, usize))
    ensures
        r == disambiguation_at(s@, i as int),
{
    match file(s, i) {
        Some((letter, next)) => match rank_only(s, next) {
            Some(digit) => (Some(DisambiguationField::SourceSquare((letter, digit))), next + 1),
            None => (Some(DisambiguationField::FileLetter(letter)), next),
        },
        None => match rank_only(s, i) {
            Some(digit) => (Some(DisambiguationField::RankDigit(digit)), i + 1),
            None => (None, i),
        },
    }
}

/// The rank digit at offset `i`, if one stands there.
fn rank_only(s: &Vec<char>, i: usize) -> (r: Option<char>)
    ensures
        r == (if rank_at(s@, i as int) {
            Some(s@[i as int])
        } else {
            None::<char>
        }),
        r is Some ==> i < s.len(),
{
    if i < s.len() && rank_digit(s[i]) {
        Some(s[i])
    } else {
        None
    }
}

/// Reads a promotion at offset `i`: `=` and one of `R`, `N`, `B`, `Q`.
pub fn promotion(s: &Vec<char>, i: usize) -> (r: Parsed<StandardPieceKind>)
    ensures
        r == promotion_at(s@, i as int),
{
    if !has_char(s, i, '=') {
        return Parsed::NoMatch;
    }
    if i + 1 >= s.len() {
        return Parsed::Fail(i);
    }
    match s[i + 1] {
        'R' => Parsed::Match(StandardPieceKind::Rook, i + 2),
        'N' => Parsed::Match(StandardPieceKind::Knight, i + 2),
        'B' => Parsed::Match(StandardPieceKind::Bishop, i + 2),
        'Q' => Parsed::Match(StandardPieceKind::Queen, i + 2),
        _ => Parsed::Fail(i),
    }
}

/// Reads a promotion at offset `i` if one stands there.
fn optional_promotion(s: &Vec<char>, i: usize) -> (r: Parsed<Option<StandardPieceKind>>)
    ensures
        r == optional_promotion_at(s@, i as int),
{
    match promotion(s, i) {
        Parsed::Match(kind, end) => Parsed::Match(Some(kind), end),
        Parsed::NoMatch => Parsed::Match(None, i),
        Parsed::Fail(at) => Parsed::Fail(at),
    }
}

/// Reads an abbreviated pawn move at offset `i`: a file, an optional capture
/// mark, a file that no rank digit follows, an optional promotion.
pub fn abbreviated_pawn_move(s: &Vec<char>, i: usize) -> (r: Parsed<SanMove>)
    ensures
        r == abbreviated_pawn_move_at(s@, i as int),
{
    let (source, after_source) = match file(s, i) {
        Some(read) => read,
        None => {
            return Parsed::NoMatch;
        },
    };
    let (is_capture, after_mark) = match capture(s, after_source) {
        Some((_, next)) => (true, next),
        None => (false, after_source),
    };
    let (target_file, after_target) = match file(s, after_mark) {
        Some(read) => read,
        None => {
            return Parsed::NoMatch;
        },
    };
    if rank_only(s, after_target).is_some() {
        return Parsed::NoMatch;
    }
    match optional_promotion(s, after_target) {
        Parsed::Match(promotion_piece, end) => Parsed::Match(
            SanMove::AbbreviatedPawnMove(
                AbbreviatedPawnMove {
                    source_file: source,
                    target_file,
                    is_capture,
                    promotion_piece,
                },
            ),
            end,
        ),
        Parsed::NoMatch => Parsed::NoMatch,
        Parsed::Fail(at) => Parsed::Fail(at),
    }
}

/// Reads a pawn move at offset `i`: optionally a file and a capture mark,
/// then the target square and an optional promotion.
pub fn pawn_move(s: &Vec<char>, i: usize) -> (r: Parsed<SanMove>)
    ensures
        r == pawn_move_at(s@, i as int),
{
    let (capture_file, start) = match file(s, i) {
        Some((letter, next)) => match capture(s, next) {
            Some((_, after)) => (Some(letter), after),
            None => (None, i),
        },
        None => (None, i),
    };
    let (square, after_square) = match target(s, start) {
        Some(read) => read,
        None => {
            return Parsed::NoMatch;
        },
    };
    match optional_promotion(s, after_square) {
        Parsed::Match(promotion_piece, end) => Parsed::Match(
            SanMove::PawnMove(
                PawnMove {
                    target: square,
                    is_capture: capture_file.is_some(),
                    capture_file,
                    promotion_piece,
                },
            ),
            end,
        ),
        Parsed::NoMatch => Parsed::NoMatch,
        Parsed::Fail(at) => Parsed::Fail(at),
    }
}

/// Reads a castling move at offset `i`, the longer reading first.
pub fn castle_move(s: &Vec<char>, i: usize) -> (r: Option<(CastleMove, usize)>)
    ensures
        r == castle_at(s@, i as int),
{
    if has_tag5(s, i, '0', '-') || has_tag5(s, i, 'O', '-') {
        Some((CastleMove::QueenSide, i + 5))
    } else if has_tag3(s, i, '0', '-', '0') || has_tag3(s, i, 'O', '-', 'O') {
        Some((CastleMove::KingSide, i + 3))
    } else {
        None
    }
}

/// Reads a piece move at offset `i`: first with the longest disambiguation,
/// then, where no target square follows that, without one.
pub fn normal_move(s: &Vec<char>, i: usize) -> (r: Option<(SanMove, usize)>)
    ensures
        r == normal_move_at(s@, i as int),
{
    let (kind, after_piece) = match piece(s, i) {
        Some(read) => read,
        None => {
            return None;
        },
    };
    let (field, after_field) = disambiguation_field(s, after_piece);
    let (is_capture, after_mark) = match capture(s, after_field) {
        Some((_, next)) => (true, next),
        None => (false, after_field),
    };
    match target(s, after_mark) {
        Some((square, end)) => {
            return Some(
                (
                    SanMove::NormalMove(
                        NormalMove {
                            piece: kind,
                            disambiguation_field: field,
                            target: square,
                            is_capture,
                        },
                    ),
                    end,
                ),
            );
        },
        None => {},
    }
    let (is_capture, after_mark) = match capture(s, after_piece) {
        Some((_, next)) => (true, next),
        None => (false, after_piece),
    };
    match target(s, after_mark) {
        Some((square, end)) => Some(
            (
                SanMove::NormalMove(
                    NormalMove {
                        piece: kind,
                        disambiguation_field: None,
                        target: square,
                        is_capture,
                    },
                ),
                end,
            ),
        ),
        None => None,
    }
}

/// Reads the move at the start of a literal: the first of the four shapes
/// that fits.
pub fn leading_move(s: &Vec<char>) -> (r: Parsed<SanMove>)
    ensures
        r == move_at_start(s@),
{
    match castle_move(s, 0) {
        Some((side, end)) => {
            return Parsed::Match(SanMove::CastleMove(side), end);
        },
        None => {},
    }
    match abbreviated_pawn_move(s, 0) {
        Parsed::NoMatch => {},
        read => {
            return read;
        },
    }
    match pawn_move(s, 0) {
        Parsed::NoMatch => {},
        read => {
            return read;
        },
    }
    match normal_move(s, 0) {
        Some((data, end)) => Parsed::Match(data, end),
        None => Parsed::NoMatch,
    }
}

/// Says why a literal starts with none of the four shapes.
fn explain_shape(s: &Vec<char>) -> (r: ParseError)
    requires
        s@.len() > 0,
    ensures
        r == shape_error(s@),
{
    let first = s[0];
    if first == '0' || first == 'O' {
        ParseError::InvalidCastlingField(0)
    } else if file_letter(first) {
        if capture(s, 1).is_some() {
            ParseError::InvalidTargetSquare(2)
        } else {
            ParseError::InvalidTargetSquare(0)
        }
    } else if piece(s, 0).is_some() {
        let (_, stop) = disambiguation_field(s, 1);
        if capture(s, stop).is_some() {
            ParseError::InvalidTargetSquare(stop + 1)
        } else if stop >= s.len() || file_letter(s[stop]) {
            ParseError::InvalidTargetSquare(stop)
        } else if rank_digit(s[stop]) {
            ParseError::InvalidDisambiguationField(stop)
        } else {
            ParseError::InvalidCaptureField(s[stop])
        }
    } else {
        ParseError::InvalidLeadingPiece(first)
    }
}

/// Reads a whole literal.
pub fn san_literal(s: &Vec<char>) -> (r: Result<San, ParseError>)
    ensures
        r == san_decode_spec(s@),
{
    if s.len() == 0 {
        return Err(ParseError::Unknown);
    }
    let (data, end) = match leading_move(s) {
        Parsed::Match(data, end) => (data, end),
        Parsed::NoMatch => {
            return Err(explain_shape(s));
        },
        Parsed::Fail(at) => {
            return Err(ParseError::InvalidPromotionField(at));
        },
    };
    let mut at = end;
    let mut is_check = false;
    let mut is_checkmate = false;
    match check(s, at) {
        Some((_, next)) => {
            is_check = true;
            at = next;
            match checkmate(s, at) {
                Some((_, next)) => {
                    is_checkmate = true;
                    at = next;
                },
                None => {},
            }
        },
        None => match checkmate(s, at) {
            Some((_, next)) => {
                is_checkmate = true;
                at = next;
                match check(s, at) {
                    Some((_, next)) => {
                        is_check = true;
                        at = next;
                    },
                    None => {},
                }
            },
            None => {},
        },
    }
    let (tag, rest) = annotation(s, at);
    if rest == s.len() {
        Ok(San { data, is_check, is_checkmate, annotation: tag })
    } else if rest < s.len() && (s[rest] == '!' || s[rest] == '?') {
        Err(ParseError::InvalidAnnotationSuffixField(rest))
    } else {
        match data {
            SanMove::CastleMove(_) => Err(ParseError::InvalidCastlingField(rest)),
            _ => Err(ParseError::TrailingGarbage(rest)),
        }
    }
}

impl San {
    /// Reads a literal.
    pub fn decode(source: &str) -> (r: Result<San, ParseError>)
        ensures
            r == san_decode_spec(source@),
    {
        let chars = crate::text::to_chars(source);
        san_literal(&chars)
    }
}

impl<'a> TryFrom<&'a str> for San {
    type Error = ParseError;

    /// Reads a literal.
    fn try_from(value: &'a str) -> (r: Result<Self, Self::Error>)
        ensures
            r == san_decode_spec(value@),
    {
        San::decode(value)
    }
}

impl<'a> TryFromSpecImpl<&'a str> for San {
    /// The conversion does what its spec function says.
    /// What the conversion gives.
    open spec fn obeys_try_from_spec() -> bool {
        true
    }

    /// What the conversion gives.
    open spec fn try_from_spec(v: &'a str) -> Result<Self, Self::Error> {
        san_decode_spec(v@)
    }
}

} // verus!
