//! Sets of squares as sixty-four bits.
//!
//! Bit `i` of a bitboard says whether square `i` belongs to the set, so that
//! intersection, union, symmetric difference and complement are one
//! operation on a machine word each.

use vstd::prelude::*;
use vstd::std_specs::convert::FromSpecImpl;
use vstd::std_specs::ops::BitAndSpecImpl;
use vstd::std_specs::ops::BitOrSpecImpl;
use vstd::std_specs::ops::BitXorSpecImpl;
use vstd::std_specs::ops::NotSpecImpl;

verus! {

/// Whether bit `i` of `word` is set.
pub open spec fn bit_of(word: u64, i: int) -> bool {
    0 <= i < 64 && (word >> (i as u64)) & 1 == 1
}

/// A set of squares.
#[derive(Debug, Clone, Copy, PartialEq, Eq, Structural)]
pub struct BitBoard(u64);

impl BitBoard {
    /// The sixty-four bits of the set as one word.
    pub closed spec fn word(self) -> u64 {
        self.0
    }

    /// Whether square `i` belongs to the set.
    pub open spec fn contains(self, i: int) -> bool {
        bit_of(self.word(), i)
    }

    /// Whether square `index` belongs to the set.
    pub fn get(&self, index: u8) -> (r: bool)
        requires
            index < 64,
        ensures
            r == self.contains(index as int),
    {
        (self.0 >> (index as u64)) & 1 == 1
    }
}

impl From<u64> for BitBoard {
    /// The set whose bits are those of `value`.
    fn from(value: u64) -> (r: BitBoard)
        ensures
            r.word() == value,
    {
        BitBoard(value)
    }
}

impl FromSpecImpl<u64> for BitBoard {
    /// The conversion does what its spec function says.
    /// What the conversion gives.
    open spec fn obeys_from_spec() -> bool {
        true
    }

    /// What the conversion gives.
    closed spec fn from_spec(v: u64) -> BitBoard {
        BitBoard(v)
    }
}

impl From<BitBoard> for u64 {
    /// The bits of the set as one word.
    fn from(value: BitBoard) -> (r: u64)
        ensures
            r == value.word(),
    {
        value.0
    }
}

impl FromSpecImpl<BitBoard> for u64 {
    /// The conversion does what its spec function says.
    /// What the conversion gives.
    open spec fn obeys_from_spec() -> bool {
        true
    }

    /// What the conversion gives.
    open spec fn from_spec(v: BitBoard) -> u64 {
        v.word()
    }
}

/// Bit by bit, `&` is "and", `|` is "or", `^` is "exclusive or" and `!` is
/// "not".
pub proof fn lemma_bitwise(a: u64, b: u64, i: int)
    requires
        0 <= i < 64,
    ensures
        bit_of(a & b, i) == (bit_of(a, i) && bit_of(b, i)),
        bit_of(a | b, i) == (bit_of(a, i) || bit_of(b, i)),
        bit_of(a ^ b, i) == (bit_of(a, i) != bit_of(b, i)),
        bit_of(!a, i) == !bit_of(a, i),
{
    let k = i as u64;
    assert(((a & b) >> k) & 1 == 1 <==> ((a >> k) & 1 == 1 && (b >> k) & 1 == 1)) by (bit_vector)
        requires
            k < 64,
    ;
    assert(((a | b) >> k) & 1 == 1 <==> ((a >> k) & 1 == 1 || (b >> k) & 1 == 1)) by (bit_vector)
        requires
            k < 64,
    ;
    assert(((a ^ b) >> k) & 1 == 1 <==> ((a >> k) & 1 == 1) != ((b >> k) & 1 == 1)) by (bit_vector)
        requires
            k < 64,
    ;
    assert(((!a) >> k) & 1 == 1 <==> !((a >> k) & 1 == 1)) by (bit_vector)
        requires
            k < 64,
    ;
}

impl core::ops::BitAnd for BitBoard {
    type Output = BitBoard;

    /// The squares that both sets hold.
    fn bitand(self, rhs: Self) -> (r: BitBoard)
        ensures
            r.word() == self.word() & rhs.word(),
            forall|i: int| 0 <= i < 64 ==> r.contains(i) == (self.contains(i) && rhs.contains(i)),
    {
        let board = self.0 & rhs.0;
        proof {
            assert forall|i: int| 0 <= i < 64 implies bit_of(board, i) == (bit_of(self.0, i)
                && bit_of(rhs.0, i)) by {
                lemma_bitwise(self.0, rhs.0, i);
            }
        }
        BitBoard(board)
    }
}

impl BitAndSpecImpl for BitBoard {
    /// The operator does what its spec function says.
    open spec fn obeys_bitand_spec() -> bool {
        true
    }

    /// The operator takes every value.
    open spec fn bitand_req(self, rhs: Self) -> bool {
        true
    }

    /// What the operator gives.
    closed spec fn bitand_spec(self, rhs: Self) -> BitBoard {
        BitBoard(self.0 & rhs.0)
    }
}

impl core::ops::BitAndAssign for BitBoard {
    /// Keeps the squares that `rhs` holds too.
    fn bitand_assign(&mut self, rhs: Self)
        ensures
            final(self).word() == old(self).word() & rhs.word(),
    {
        self.0 &= rhs.0;
    }
}

impl core::ops::BitOr for BitBoard {
    type Output = BitBoard;

    /// The squares that either set holds.
    fn bitor(self, rhs: Self) -> (r: BitBoard)
        ensures
            r.word() == self.word() | rhs.word(),
            forall|i: int| 0 <= i < 64 ==> r.contains(i) == (self.contains(i) || rhs.contains(i)),
    {
        let board = self.0 | rhs.0;
        proof {
            assert forall|i: int| 0 <= i < 64 implies bit_of(board, i) == (bit_of(self.0, i)
                || bit_of(rhs.0, i)) by {
                lemma_bitwise(self.0, rhs.0, i);
            }
        }
        BitBoard(board)
    }
}

impl BitOrSpecImpl for BitBoard {
    /// The operator does what its spec function says.
    open spec fn obeys_bitor_spec() -> bool {
        true
    }

    /// The operator takes every value.
    open spec fn bitor_req(self, rhs: Self) -> bool {
        true
    }

    /// What the operator gives.
    closed spec fn bitor_spec(self, rhs: Self) -> BitBoard {
        BitBoard(self.0 | rhs.0)
    }
}

impl core::ops::BitOrAssign for BitBoard {
    /// Adds the squares of `rhs`.
    fn bitor_assign(&mut self, rhs: Self)
        ensures
            final(self).word() == old(self).word() | rhs.word(),
    {
        self.0 |= rhs.0;
    }
}

impl core::ops::BitXor for BitBoard {
    type Output = BitBoard;

    /// The squares that exactly one of the sets holds.
    fn bitxor(self, rhs: Self) -> (r: BitBoard)
        ensures
            r.word() == self.word() ^ rhs.word(),
            forall|i: int| 0 <= i < 64 ==> r.contains(i) == (self.contains(i) != rhs.contains(i)),
    {
        let board = self.0 ^ rhs.0;
        proof {
            assert forall|i: int| 0 <= i < 64 implies bit_of(board, i) == (bit_of(self.0, i)
                != bit_of(rhs.0, i)) by {
                lemma_bitwise(self.0, rhs.0, i);
            }
        }
        BitBoard(board)
    }
}

impl BitXorSpecImpl for BitBoard {
    /// The operator does what its spec function says.
    open spec fn obeys_bitxor_spec() -> bool {
        true
    }

    /// The operator takes every value.
    open spec fn bitxor_req(self, rhs: Self) -> bool {
        true
    }

    /// What the operator gives.
    closed spec fn bitxor_spec(self, rhs: Self) -> BitBoard {
        BitBoard(self.0 ^ rhs.0)
    }
}

impl core::ops::BitXorAssign for BitBoard {
    /// Keeps the squares that exactly one of the sets holds.
    fn bitxor_assign(&mut self, rhs: Self)
        ensures
            final(self).word() == old(self).word() ^ rhs.word(),
    {
        self.0 ^= rhs.0;
    }
}

impl core::ops::Not for BitBoard {
    type Output = BitBoard;

    /// The squares that the set does not hold.
    fn not(self) -> (r: BitBoard)
        ensures
            r.word() == !self.word(),
            forall|i: int| 0 <= i < 64 ==> r.contains(i) == !self.contains(i),
    {
        let board = !self.0;
        proof {
            assert forall|i: int| 0 <= i < 64 implies bit_of(board, i) == !bit_of(self.0, i) by {
                lemma_bitwise(self.0, self.0, i);
            }
        }
        BitBoard(board)
    }
}

impl NotSpecImpl for BitBoard {
    /// The operator does what its spec function says.
    open spec fn obeys_not_spec() -> bool {
        true
    }

    /// The operator takes every value.
    open spec fn not_req(self) -> bool {
        true
    }

    /// What the operator gives.
    closed spec fn not_spec(self) -> BitBoard {
        BitBoard(!self.0)
    }
}

impl BitBoard {
    /// The set that holds square `i` exactly where `bits[i]` is true.
    pub fn from_bools(bits: &Vec<bool>) -> (r: BitBoard)
        requires
            bits@.len() == 64,
        ensures
            forall|i: int| 0 <= i < 64 ==> r.contains(i) == bits@[i],
    {
        let mut board: u64 = 0;
        let mut i: usize = 0;
        proof {
            assert forall|j: int| 0 <= j < 64 implies !bit_of(0u64, j) by {
                let k = j as u64;
                assert((0u64 >> k) & 1 == 0) by (bit_vector);
            }
        }
        while i < 64
            invariant
                0 <= i <= 64,
                bits@.len() == 64,
                forall|j: int| 0 <= j < i ==> bit_of(board, j) == bits@[j],
                forall|j: int| i <= j < 64 ==> !bit_of(board, j),
            decreases 64 - i,
        {
            let ghost before = board;
            let flag: u64 = if bits[i] {
                1
            } else {
                0
            };
            let shift: u64 = i as u64;
            board |= flag << shift;
            proof {
                assert forall|j: int| 0 <= j < 64 implies bit_of(board, j) == (if j == i {
                    bits@[j]
                } else {
                    bit_of(before, j)
                }) by {
                    let k = j as u64;
                    assert(((before | (flag << shift)) >> k) & 1 == (if k == shift {
                        ((before >> k) & 1) | flag
                    } else {
                        (before >> k) & 1
                    })) by (bit_vector)
                        requires
                            k < 64,
                            shift < 64,
                            flag <= 1,
                    ;
                    if j == i {
                        assert(!bit_of(before, j));
                        let was = (before >> k) & 1;
                        assert(was == 0 || was == 1) by (bit_vector)
                            requires
                                was == (before >> k) & 1,
                        ;
                        assert(0u64 | flag == flag) by (bit_vector);
                    }
                }
            }
            i += 1;
        }
        BitBoard(board)
    }

    /// Whether each square belongs to the set, square 0 first.
    pub fn to_bools(&self) -> (r: Vec<bool>)
        ensures
            r@.len() == 64,
            forall|i: int| 0 <= i < 64 ==> r@[i] == self.contains(i),
    {
        let mut out: Vec<bool> = Vec::new();
        let mut walk = self.into_iter();
        let mut i: usize = 0;
        while i < 64
            invariant
                0 <= i <= 64,
                walk.position() == i,
                walk.board() == self,
                out@.len() == i,
                forall|j: int| 0 <= j < i ==> out@[j] == self.contains(j),
            decreases 64 - i,
        {
            match walk.next() {
                Some(bit) => out.push(bit),
                None => {},
            }
            i += 1;
        }
        out
    }

    /// A walk over the sixty-four squares, square 0 first.
    pub fn into_iter(&self) -> (r: BitBoardIterator<'_>)
        ensures
            r.board() == self,
            r.position() == 0,
    {
        assert(1u64 << 0u64 == 1u64) by (bit_vector);
        BitBoardIterator { board: self, mask: 1u64, index: Ghost(0) }
    }
}

/// A walk over the squares of a [`BitBoard`] that says of each whether it
/// belongs to the set. The walk keeps a mask with one bit set, the bit of
/// the square that comes next, and no bit once all squares have been seen.
pub struct BitBoardIterator<'a> {
    board: &'a BitBoard,
    mask: u64,
    index: Ghost<int>,
}

impl<'a> BitBoardIterator<'a> {
    /// The mask holds the bit of the next square, or no bit at the end.
    #[verifier::type_invariant]
    spec fn consistent(self) -> bool {
        &&& 0 <= self.index@ <= 64
        &&& self.index@ == 64 ==> self.mask == 0
        &&& self.index@ < 64 ==> self.mask == 1u64 << (self.index@ as u64)
    }

    /// The set that is walked over.
    pub closed spec fn board(&self) -> &'a BitBoard {
        self.board
    }

    /// The number of squares already seen.
    pub closed spec fn position(&self) -> int {
        self.index@
    }

    /// Whether the next square belongs to the set, or `None` when all
    /// sixty-four have been seen.
    pub fn next(&mut self) -> (r: Option<bool>)
        ensures
            0 <= old(self).position() <= 64,
            final(self).board() == old(self).board(),
            old(self).position() < 64 ==> r == Some(
                old(self).board().contains(old(self).position()),
            ) && final(self).position() == old(self).position() + 1,
            old(self).position() == 64 ==> r is None && final(self).position() == 64,
    {
        proof {
            use_type_invariant(&*self);
        }
        let ghost k = self.index@ as u64;
        let mask = self.mask;
        let word = self.board.0;
        proof {
            if self.index@ < 64 {
                assert(mask != 0 && ((word | mask) == word <==> (word >> k) & 1 == 1) && (mask == 1u64
                    << 63 <==> k == 63) && (k < 63 ==> mask << 1 == 1u64 << ((k + 1) as u64)))
                    by (bit_vector)
                    requires
                        k < 64,
                        mask == 1u64 << k,
                ;
            }
        }
        if mask == 0 {
            return None;
        }
        let result = (word | mask) == word;
        if mask == 1 << 63 {
            *self = BitBoardIterator { board: self.board, mask: 0, index: Ghost(64) };
        } else {
            *self = BitBoardIterator {
                board: self.board,
                mask: mask << 1,
                index: Ghost(k as int + 1),
            };
        }
        Some(result)
    }
}

} // verus!
