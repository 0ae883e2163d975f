//! Sixty-four four-bit values in four machine words.
//!
//! A quadboard holds one value below sixteen, a nibble, for each square of
//! the board. It stores them in four words, its channels: bit `j` of
//! channel `i` is bit `i` of the nibble of square `j`. Reading and writing
//! a square takes a few operations on each word.
//!
//! [`RawQuadBoard`] is the untyped store. [`QuadBoard`] stores values of a
//! type that says how it is written as a nibble ([`NibbleEncode`]) and read
//! back from one ([`NibbleDecode`]).

use vstd::prelude::*;
use vstd::std_specs::convert::FromSpecImpl;
use vstd::std_specs::convert::TryFromSpecImpl;
use core::marker::PhantomData;
use crate::bitboard::BitBoard;
use crate::piece::Piece;
use crate::piece::PieceRepresentationError;
use crate::piece::piece_of_code;

verus! {

/// Why a number stands for no value of a type.
#[derive(Debug, Clone, Copy, PartialEq, Eq, Structural)]
pub enum NibbleDecodingError {
    /// The nibble has no meaning in the encoding.
    Undefined(u8),
    /// The number is sixteen or more, and so no nibble.
    TooLarge(u8),
}

/// A type whose values can be read from a nibble.
pub trait NibbleDecode: Sized {
    /// What `value` stands for, or why it stands for nothing.
    spec fn decode_spec(value: u8) -> Result<Self, NibbleDecodingError>;

    /// Reads a value from a nibble.
    fn decode(value: u8) -> (r: Result<Self, NibbleDecodingError>)
        ensures
            r == Self::decode_spec(value),
    ;
}

/// A type whose values can be written as a nibble.
pub trait NibbleEncode: Sized {
    /// Whether the value has a nibble.
    spec fn encodable(&self) -> bool;

    /// The nibble of the value.
    spec fn encode_spec(&self) -> u8;

    /// Writes the value as a nibble.
    fn encode(self) -> (r: u8)
        requires
            self.encodable(),
        ensures
            r == self.encode_spec(),
            r < 16,
    ;
}

/// A type that is read back from the nibble it was written as.
pub trait NibbleCodec: NibbleEncode + NibbleDecode {
    /// Reading undoes writing.
    proof fn lemma_decode_encode(value: Self)
        requires
            value.encodable(),
        ensures
            value.encode_spec() < 16,
            Self::decode_spec(value.encode_spec()) == Ok::<Self, NibbleDecodingError>(value),
    ;
}

impl NibbleDecode for u8 {
    /// A number below sixteen stands for itself.
    open spec fn decode_spec(value: u8) -> Result<Self, NibbleDecodingError> {
        if value >= 16 {
            Err(NibbleDecodingError::TooLarge(value))
        } else {
            Ok(value)
        }
    }

    fn decode(value: u8) -> (r: Result<Self, NibbleDecodingError>) {
        if value >= 16 {
            Err(NibbleDecodingError::TooLarge(value))
        } else {
            Ok(value)
        }
    }
}

impl NibbleEncode for u8 {
    /// Only a number below sixteen has a nibble.
    open spec fn encodable(&self) -> bool {
        *self < 16
    }

    /// The nibble of a number is the number.
    open spec fn encode_spec(&self) -> u8 {
        *self
    }

    fn encode(self) -> (r: u8) {
        self
    }
}

impl NibbleCodec for u8 {
    proof fn lemma_decode_encode(value: Self) {
    }
}

impl NibbleDecode for Piece {
    /// A nibble stands for the piece with that code; a nibble whose low
    /// three bits are all set stands for none.
    open spec fn decode_spec(value: u8) -> Result<Self, NibbleDecodingError> {
        match piece_of_code(value) {
            Ok(piece) => Ok(piece),
            Err(PieceRepresentationError::InvalidColorBit) => Err(
                NibbleDecodingError::TooLarge(value),
            ),
            Err(_) => Err(NibbleDecodingError::Undefined(value)),
        }
    }

    fn decode(value: u8) -> (r: Result<Self, NibbleDecodingError>) {
        match Piece::try_from(value) {
            Ok(piece) => Ok(piece),
            Err(PieceRepresentationError::InvalidColorBit) => Err(
                NibbleDecodingError::TooLarge(value),
            ),
            Err(_) => Err(NibbleDecodingError::Undefined(value)),
        }
    }
}

impl NibbleEncode for Piece {
    /// Every piece has a nibble.
    open spec fn encodable(&self) -> bool {
        true
    }

    /// The nibble of a piece is its code.
    open spec fn encode_spec(&self) -> u8 {
        self.code() as u8
    }

    fn encode(self) -> (r: u8) {
        self.into()
    }
}

impl NibbleCodec for Piece {
    proof fn lemma_decode_encode(value: Self) {
        crate::piece::lemma_code_round_trip(value, 0);
    }
}

/// A number below sixteen.
#[derive(Debug, Clone, Copy, PartialEq, Eq, Structural)]
pub struct Nibble {
    value: u8,
}

impl View for Nibble {
    type V = u8;

    /// The value of the nibble.
    closed spec fn view(&self) -> u8 {
        self.value
    }
}

impl Nibble {
    /// The value is below sixteen.
    #[verifier::type_invariant]
    spec fn in_range(self) -> bool {
        self.value < 16
    }

    /// The nibble of value `value`, where `value` is below sixteen.
    pub fn new(value: u8) -> (r: Option<Nibble>)
        ensures
            match r {
                Some(nibble) => value < 16 && nibble@ == value,
                None => value >= 16,
            },
    {
        if value < 16 {
            Some(Nibble { value })
        } else {
            None
        }
    }

    /// The value of the nibble.
    pub fn get(&self) -> (r: u8)
        ensures
            r == self@,
            r < 16,
    {
        proof {
            use_type_invariant(self);
        }
        self.value
    }
}

impl TryFrom<u8> for Nibble {
    type Error = NibbleDecodingError;

    /// The nibble of value `value`, or `TooLarge` from sixteen on.
    fn try_from(value: u8) -> (r: Result<Self, Self::Error>)
        ensures
            match r {
                Ok(nibble) => value < 16 && nibble@ == value,
                Err(e) => value >= 16 && e == NibbleDecodingError::TooLarge(value),
            },
    {
        match Nibble::new(value) {
            Some(nibble) => Ok(nibble),
            None => Err(NibbleDecodingError::TooLarge(value)),
        }
    }
}

impl TryFromSpecImpl<u8> for Nibble {
    /// The conversion does what its spec function says.
    /// What the conversion gives.
    open spec fn obeys_try_from_spec() -> bool {
        true
    }

    /// What the conversion gives.
    closed spec fn try_from_spec(v: u8) -> Result<Self, Self::Error> {
        if v < 16 {
            Ok(Nibble { value: v })
        } else {
            Err(NibbleDecodingError::TooLarge(v))
        }
    }
}

impl From<Nibble> for u8 {
    /// The value of the nibble.
    fn from(value: Nibble) -> (r: u8)
        ensures
            r == value@,
            r < 16,
    {
        value.get()
    }
}

impl FromSpecImpl<Nibble> for u8 {
    /// The conversion does what its spec function says.
    /// What the conversion gives.
    open spec fn obeys_from_spec() -> bool {
        true
    }

    /// What the conversion gives.
    open spec fn from_spec(v: Nibble) -> u8 {
        v@
    }
}

impl NibbleDecode for Nibble {
    /// A number below sixteen stands for the nibble of that value.
    closed spec fn decode_spec(value: u8) -> Result<Self, NibbleDecodingError> {
        if value < 16 {
            Ok(Nibble { value })
        } else {
            Err(NibbleDecodingError::TooLarge(value))
        }
    }

    fn decode(value: u8) -> (r: Result<Self, NibbleDecodingError>) {
        if value < 16 {
            Ok(Nibble { value })
        } else {
            Err(NibbleDecodingError::TooLarge(value))
        }
    }
}

impl NibbleEncode for Nibble {
    /// Every nibble is below sixteen.
    open spec fn encodable(&self) -> bool {
        self@ < 16
    }

    /// The nibble is its own value.
    open spec fn encode_spec(&self) -> u8 {
        self@
    }

    fn encode(self) -> (r: u8) {
        self.value
    }
}

impl NibbleCodec for Nibble {
    proof fn lemma_decode_encode(value: Self) {
    }
}

/// A number below sixteen is read as the nibble of that value, any other
/// number as none.
pub proof fn lemma_nibble_decode(value: u8)
    ensures
        value < 16 ==> Nibble::decode_spec(value) is Ok && Nibble::decode_spec(value)->Ok_0@
            == value,
        value >= 16 ==> Nibble::decode_spec(value) == Err::<Nibble, NibbleDecodingError>(
            NibbleDecodingError::TooLarge(value),
        ),
{
}

/// Bit `index` of `word`, as 0 or 1.
pub open spec fn channel_bit(word: u64, index: int) -> int {
    ((word >> (index as u64)) & 1) as int
}

/// The nibble of square `index`: its bit `i` is bit `index` of channel `i`.
pub open spec fn nibble_at(channels: Seq<u64>, index: int) -> int {
    channel_bit(channels[0], index) + 2 * channel_bit(channels[1], index) + 4 * channel_bit(
        channels[2],
        index,
    ) + 8 * channel_bit(channels[3], index)
}

/// Bit `lane` of the nibble `value`, as 0 or 1.
pub open spec fn nibble_bit(value: u8, lane: int) -> u64 {
    ((value >> (lane as u8)) & 1) as u64
}

/// `word` with its bit `index` set to `bit`.
pub open spec fn word_with(word: u64, bit: u64, index: int) -> u64 {
    (word & !(1u64 << (index as u64))) | (bit << (index as u64))
}

/// The channels after `value` has been written to square `index`: in each
/// channel the bit of the square is cleared, and then set to the channel's
/// bit of `value`.
pub open spec fn channels_with(channels: Seq<u64>, value: u8, index: int) -> Seq<u64> {
    Seq::new(4, |lane: int| word_with(channels[lane], nibble_bit(value, lane), index))
}

/// Setting one bit of a word sets that bit and leaves the others.
pub proof fn lemma_word_with(word: u64, bit: u64, index: int, other: int)
    requires
        bit <= 1,
        0 <= index < 64,
        0 <= other < 64,
    ensures
        channel_bit(word_with(word, bit, index), index) == bit,
        other != index ==> channel_bit(word_with(word, bit, index), other) == channel_bit(
            word,
            other,
        ),
        0 <= channel_bit(word, other) <= 1,
{
    let i = index as u64;
    let j = other as u64;
    assert((((word & !(1u64 << i)) | (bit << i)) >> i) & 1 == bit) by (bit_vector)
        requires
            i < 64,
            bit <= 1,
    ;
    assert(j != i ==> (((word & !(1u64 << i)) | (bit << i)) >> j) & 1 == (word >> j) & 1)
        by (bit_vector)
        requires
            i < 64,
            j < 64,
            bit <= 1,
    ;
    assert((word >> j) & 1 <= 1) by (bit_vector);
}

/// A nibble is the sum of its four bits, each weighted by its place.
pub proof fn lemma_nibble_bits(value: u8)
    requires
        value < 16,
    ensures
        nibble_bit(value, 0) + 2 * nibble_bit(value, 1) + 4 * nibble_bit(value, 2) + 8 * nibble_bit(
            value,
            3,
        ) == value,
        forall|lane: int| 0 <= lane < 4 ==> #[trigger] nibble_bit(value, lane) <= 1,
{
    assert(((value >> 0u8) & 1) + 2 * ((value >> 1u8) & 1) + 4 * ((value >> 2u8) & 1) + 8 * ((value
        >> 3u8) & 1) == value) by (bit_vector)
        requires
            value < 16,
    ;
    assert(((value >> 0u8) & 1) <= 1 && ((value >> 1u8) & 1) <= 1 && ((value >> 2u8) & 1) <= 1 && ((
    value >> 3u8) & 1) <= 1) by (bit_vector);
}

/// A square holds what was last written to it, and writing to one square
/// changes no other: after `value` has been written to square `index`, the
/// nibble of that square is `value`, and the nibble of any other square is
/// what it was.
pub proof fn lemma_write_read(channels: Seq<u64>, value: u8, index: int, other: int)
    requires
        channels.len() == 4,
        value < 16,
        0 <= index < 64,
        0 <= other < 64,
    ensures
        nibble_at(channels_with(channels, value, index), index) == value,
        other != index ==> nibble_at(channels_with(channels, value, index), other) == nibble_at(
            channels,
            other,
        ),
        0 <= nibble_at(channels, other) < 16,
{
    lemma_nibble_bits(value);
    lemma_word_with(channels[0], nibble_bit(value, 0), index, other);
    lemma_word_with(channels[1], nibble_bit(value, 1), index, other);
    lemma_word_with(channels[2], nibble_bit(value, 2), index, other);
    lemma_word_with(channels[3], nibble_bit(value, 3), index, other);
}

/// Sixty-four nibbles in four words, with no meaning attached to them.
#[derive(Debug, Clone, Copy, PartialEq, Eq)]
pub struct RawQuadBoard {
    channels: [u64; 4],
}

impl View for RawQuadBoard {
    type V = Seq<u8>;

    /// The sixty-four nibbles, square 0 first.
    open spec fn view(&self) -> Seq<u8> {
        Seq::new(64, |index: int| nibble_at(self.lanes(), index) as u8)
    }
}

impl RawQuadBoard {
    /// The four channels, the channel of bit 0 first.
    pub closed spec fn lanes(&self) -> Seq<u64> {
        self.channels@
    }

    /// There are four channels.
    pub proof fn lemma_four_lanes(&self)
        ensures
            self.lanes().len() == 4,
    {
    }

    /// The board whose channels are `channels`.
    pub fn from_channels(channels: [u64; 4]) -> (r: Self)
        ensures
            r.lanes() == channels@,
    {
        RawQuadBoard { channels }
    }

    /// The four channels as sets of squares.
    pub fn into_channels(self) -> (r: [BitBoard; 4])
        ensures
            forall|lane: int| 0 <= lane < 4 ==> (#[trigger] r@[lane]).word() == self.lanes()[lane],
    {
        [
            BitBoard::from(self.channels[0]),
            BitBoard::from(self.channels[1]),
            BitBoard::from(self.channels[2]),
            BitBoard::from(self.channels[3]),
        ]
    }

    /// The board that holds `value` on every square.
    pub fn splat(value: Nibble) -> (r: Self)
        ensures
            forall|index: int| 0 <= index < 64 ==> #[trigger] r@[index] == value@,
    {
        let mut board = RawQuadBoard::default();
        let mut i: u8 = 0;
        while i < 64
            invariant
                0 <= i <= 64,
                forall|index: int| 0 <= index < i ==> #[trigger] board@[index] == value@,
            decreases 64 - i,
        {
            board.set_unchecked(value, i);
            i += 1;
        }
        board
    }

    /// The nibble of square `index`.
    pub fn get_unchecked(&self, index: u8) -> (r: Nibble)
        requires
            index < 64,
        ensures
            r@ == self@[index as int],
    {
        let shift: u64 = index as u64;
        let mask: u64 = 1u64 << shift;
        let b0: u64 = (self.channels[0] & mask) >> shift;
        let b1: u64 = (self.channels[1] & mask) >> shift;
        let b2: u64 = (self.channels[2] & mask) >> shift;
        let b3: u64 = (self.channels[3] & mask) >> shift;
        proof {
            lemma_masked_bit(self.channels[0], shift);
            lemma_masked_bit(self.channels[1], shift);
            lemma_masked_bit(self.channels[2], shift);
            lemma_masked_bit(self.channels[3], shift);
            assert((b1 << 1u64) == 2 * b1 && (b2 << 2u64) == 4 * b2 && (b3 << 3u64) == 8 * b3)
                by (bit_vector)
                requires
                    b1 <= 1,
                    b2 <= 1,
                    b3 <= 1,
            ;
        }
        let value: u8 = (b0 + (b1 << 1u64) + (b2 << 2u64) + (b3 << 3u64)) as u8;
        Nibble { value }
    }

    /// Writes `value` to square `index`.
    pub fn set_unchecked(&mut self, value: Nibble, index: u8)
        requires
            index < 64,
        ensures
            final(self).lanes() == channels_with(old(self).lanes(), value@, index as int),
            final(self)@ == old(self)@.update(index as int, value@),
    {
        let value: u8 = value.get();
        let shift: u64 = index as u64;
        // the four bits of the value
        let bit1: u64 = (value & 0b0001) as u64;
        let bit2: u64 = ((value & 0b0010) >> 1) as u64;
        let bit3: u64 = ((value & 0b0100) >> 2) as u64;
        let bit4: u64 = (value >> 3) as u64;
        proof {
            assert((value & 1) == (value >> 0u8) & 1 && ((value & 2) >> 1) == (value >> 1u8) & 1 && ((
            value & 4) >> 2) == (value >> 2u8) & 1 && (value >> 3) == (value >> 3u8) & 1)
                by (bit_vector)
                requires
                    value < 16,
            ;
        }
        // each bit at the place of the square
        let channel1: u64 = bit1 << shift;
        let channel2: u64 = bit2 << shift;
        let channel3: u64 = bit3 << shift;
        let channel4: u64 = bit4 << shift;
        // clear the place of the square, then write the new bits
        let clear_mask: u64 = !(1u64 << shift);
        let ghost before = self.channels@;
        self.channels = [
            (self.channels[0] & clear_mask) | channel1,
            (self.channels[1] & clear_mask) | channel2,
            (self.channels[2] & clear_mask) | channel3,
            (self.channels[3] & clear_mask) | channel4,
        ];
        proof {
            assert(self.channels@ =~= channels_with(before, value, index as int));
            assert forall|other: int| 0 <= other < 64 implies #[trigger] self@[other] == old(
                self,
            )@.update(index as int, value)[other] by {
                lemma_write_read(before, value, index as int, other);
            }
            assert(self@ =~= old(self)@.update(index as int, value));
        }
    }
}

/// Masking a word with one bit and shifting that bit down gives the bit.
proof fn lemma_masked_bit(word: u64, shift: u64)
    requires
        shift < 64,
    ensures
        (word & (1u64 << shift)) >> shift == (word >> shift) & 1,
        (word >> shift) & 1 <= 1,
{
    assert((word & (1u64 << shift)) >> shift == (word >> shift) & 1) by (bit_vector)
        requires
            shift < 64,
    ;
    assert((word >> shift) & 1 <= 1) by (bit_vector);
}

impl Default for RawQuadBoard {
    /// The board that holds zero on every square.
    fn default() -> (r: Self)
        ensures
            r.lanes() == seq![0u64, 0u64, 0u64, 0u64],
            forall|index: int| 0 <= index < 64 ==> #[trigger] r@[index] == 0,
    {
        let r = RawQuadBoard { channels: [0, 0, 0, 0] };
        proof {
            assert(r.channels@ =~= seq![0u64, 0u64, 0u64, 0u64]);
            assert forall|index: int| 0 <= index < 64 implies #[trigger] r@[index] == 0 by {
                let k = index as u64;
                assert((0u64 >> k) & 1 == 0) by (bit_vector);
            }
        }
        r
    }
}

/// Sixty-four values of type `T`, each stored as its nibble.
#[derive(Debug, PartialEq, Eq)]
pub struct QuadBoard<T> {
    inner: RawQuadBoard,
    _data: PhantomData<T>,
}

impl<T> Clone for QuadBoard<T> {
    /// A board with the same channels.
    fn clone(&self) -> (r: Self)
        ensures
            r == *self,
    {
        QuadBoard { inner: self.inner, _data: PhantomData }
    }
}

impl<T> Copy for QuadBoard<T> {

}

impl<T> View for QuadBoard<T> {
    type V = Seq<u8>;

    /// The sixty-four nibbles, square 0 first.
    open spec fn view(&self) -> Seq<u8> {
        Seq::new(64, |index: int| nibble_at(self.lanes(), index) as u8)
    }
}

impl<T> QuadBoard<T> {
    /// The four channels, the channel of bit 0 first.
    pub closed spec fn lanes(&self) -> Seq<u64> {
        self.inner.lanes()
    }

    /// Every nibble of the board is below sixteen.
    pub proof fn lemma_nibbles(&self)
        ensures
            self@.len() == 64,
            forall|index: int| 0 <= index < 64 ==> #[trigger] self@[index] < 16,
    {
        assert forall|index: int| 0 <= index < 64 implies #[trigger] self@[index] < 16 by {
            lemma_write_read(self.lanes(), 0, index, index);
        }
    }

    /// The board that holds the nibble zero on every square.
    pub fn empty() -> (r: Self)
        ensures
            r.lanes() == seq![0u64, 0u64, 0u64, 0u64],
            forall|index: int| 0 <= index < 64 ==> #[trigger] r@[index] == 0,
    {
        let inner = RawQuadBoard::default();
        let r = Self { inner, _data: PhantomData };
        assert(r@ =~= inner@);
        r
    }

    /// The four channels as sets of squares.
    pub fn into_channels(self) -> (r: [BitBoard; 4])
        ensures
            forall|lane: int| 0 <= lane < 4 ==> (#[trigger] r@[lane]).word() == self.lanes()[lane],
    {
        self.inner.into_channels()
    }

    /// The nibble of square `index`.
    pub fn get_unchecked(&self, index: u8) -> (r: u8)
        requires
            index < 64,
        ensures
            r == self@[index as int],
            r < 16,
    {
        assert(self@ =~= self.inner@);
        self.inner.get_unchecked(index).get()
    }

    /// Writes the nibble `value` to square `index`.
    pub fn set_unchecked(&mut self, value: u8, index: u8)
        requires
            value < 16,
            index < 64,
        ensures
            final(self).lanes() == channels_with(old(self).lanes(), value, index as int),
            final(self)@ == old(self)@.update(index as int, value),
    {
        assert(self@ =~= self.inner@);
        match Nibble::new(value) {
            Some(nibble) => {
                self.inner.set_unchecked(nibble, index);
            },
            None => {},
        }
        assert(self@ =~= self.inner@);
    }

    /// Writes `value` to square `index`, as its nibble.
    pub fn write(&mut self, value: T, index: u8) where T: NibbleEncode
        requires
            index < 64,
            value.encodable(),
        ensures
            final(self)@ == old(self)@.update(index as int, value.encode_spec()),
    {
        let nibble = value.encode();
        self.set_unchecked(nibble, index);
    }

    /// Reads the value of square `index` from its nibble.
    pub fn read(&self, index: u8) -> (r: Result<T, NibbleDecodingError>) where T: NibbleDecode
        requires
            index < 64,
        ensures
            r == T::decode_spec(self@[index as int]),
    {
        let nibble = self.get_unchecked(index);
        T::decode(nibble)
    }

    /// Reads the value of every square, square 0 first.
    pub fn into_array(self) -> (r: Vec<Result<T, NibbleDecodingError>>) where T: NibbleDecode
        ensures
            r@.len() == 64,
            forall|index: int| 0 <= index < 64 ==> #[trigger] r@[index] == T::decode_spec(self@[index]),
    {
        let mut out: Vec<Result<T, NibbleDecodingError>> = Vec::new();
        let mut i: u8 = 0;
        while i < 64
            invariant
                0 <= i <= 64,
                out@.len() == i,
                forall|index: int| 0 <= index < i ==> #[trigger] out@[index] == T::decode_spec(
                    self@[index],
                ),
            decreases 64 - i,
        {
            out.push(self.read(i));
            i += 1;
        }
        out
    }
}

impl<T> Default for QuadBoard<T> {
    /// The board that holds the nibble zero on every square.
    fn default() -> (r: Self)
        ensures
            forall|index: int| 0 <= index < 64 ==> #[trigger] r@[index] == 0,
    {
        QuadBoard::empty()
    }
}

impl<T> From<[u64; 4]> for QuadBoard<T> {
    /// The board whose channels are `value`.
    fn from(value: [u64; 4]) -> (r: Self)
        ensures
            r.lanes() == value@,
    {
        Self { inner: RawQuadBoard::from_channels(value), _data: PhantomData }
    }
}

impl<T> FromSpecImpl<[u64; 4]> for QuadBoard<T> {
    /// The contract stands on the function itself.
    /// What the conversion gives.
    open spec fn obeys_from_spec() -> bool {
        false
    }

    /// Left open: the contract of the function says what it gives.
    closed spec fn from_spec(v: [u64; 4]) -> Self {
        arbitrary()
    }
}

impl<T> From<[BitBoard; 4]> for QuadBoard<T> {
    /// The board whose channels are the sets `value`.
    fn from(value: [BitBoard; 4]) -> (r: Self)
        ensures
            r.lanes().len() == 4,
            forall|lane: int| 0 <= lane < 4 ==> r.lanes()[lane] == (#[trigger] value@[lane]).word(),
    {
        let channels: [u64; 4] = [
            u64::from(value[0]),
            u64::from(value[1]),
            u64::from(value[2]),
            u64::from(value[3]),
        ];
        Self { inner: RawQuadBoard::from_channels(channels), _data: PhantomData }
    }
}

impl<T> FromSpecImpl<[BitBoard; 4]> for QuadBoard<T> {
    /// The contract stands on the function itself.
    /// What the conversion gives.
    open spec fn obeys_from_spec() -> bool {
        false
    }

    /// Left open: the contract of the function says what it gives.
    closed spec fn from_spec(v: [BitBoard; 4]) -> Self {
        arbitrary()
    }
}

/// What was written to a square is read back from it, and reading any other
/// square gives what it gave before: with `cells` the nibbles before
/// `value` is written to square `index`, the nibble of that square stands
/// for `value` afterwards, and every other nibble is unchanged.
pub proof fn lemma_typed_write_read<T: NibbleCodec>(
    cells: Seq<u8>,
    value: T,
    index: int,
    other: int,
)
    requires
        cells.len() == 64,
        value.encodable(),
        0 <= index < 64,
        0 <= other < 64,
    ensures
        T::decode_spec(cells.update(index, value.encode_spec())[index]) == Ok::<
            T,
            NibbleDecodingError,
        >(value),
        other != index ==> cells.update(index, value.encode_spec())[other] == cells[other],
{
    T::lemma_decode_encode(value);
}

} // verus!
