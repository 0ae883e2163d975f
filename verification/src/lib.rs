//! Encodings for chess positions and moves.
//!
//! The crate offers three representations and the conversions between them:
//! a bit-packed board of four 64-bit channels ([`quadboard`]), the text
//! format for whole positions ([`fen`]), and the text format for single
//! moves ([`san`]). Every function carries a contract over a mathematical
//! model of its data, and every contract is proved. The proofs take one
//! thing on trust: that `String::push` of the standard library appends a
//! character (see [`text`]).
//!
//! | module | what it holds |
//! |---|---|
//! | [`text`] | characters, splitting, decimal numbers |
//! | [`square`] | squares and their algebraic names |
//! | [`standard`] | the twelve pieces of the standard game |
//! | [`piece`] | pieces as four-bit codes |
//! | [`bitboard`] | sets of squares as one word |
//! | [`quadboard`] | sixty-four nibbles in four words |
//! | [`position`] | a board of piece codes |
//! | [`board`] | boards with the state of a game |
//! | [`moves`] | moves as pairs of squares |
//! | [`fen`] | Forsyth-Edwards Notation |
//! | [`san`] | Standard Algebraic Notation |

pub mod bitboard;
pub mod board;
pub mod fen;
pub mod moves;
pub mod piece;
pub mod position;
pub mod quadboard;
pub mod san;
pub mod square;
pub mod standard;
pub mod text;
