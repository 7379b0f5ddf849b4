use vstd::prelude::*;

use crate::piece::{Piece, PieceColor, PieceType};
use crate::position::BoardPosition;

verus! {

/// Bit `i` of `x` is set.
pub open spec fn bit(x: u64, i: int) -> bool {
    0 <= i < 64 && (x >> (i as u64)) & 1 == 1
}

pub proof fn lemma_bit_or(x: u64, y: u64, i: u64)
    requires
        i < 64,
    ensures
        ((x | y) >> i) & 1 == 1 <==> ((x >> i) & 1 == 1 || (y >> i) & 1 == 1),
{
    assert(((x | y) >> i) & 1 == 1 <==> ((x >> i) & 1 == 1 || (y >> i) & 1 == 1)) by (bit_vector)
        requires
            i < 64,
    ;
}

pub proof fn lemma_bit_and(x: u64, y: u64, i: u64)
    requires
        i < 64,
    ensures
        ((x & y) >> i) & 1 == 1 <==> ((x >> i) & 1 == 1 && (y >> i) & 1 == 1),
{
    assert(((x & y) >> i) & 1 == 1 <==> ((x >> i) & 1 == 1 && (y >> i) & 1 == 1)) by (bit_vector)
        requires
            i < 64,
    ;
}

pub proof fn lemma_bit_not(x: u64, i: u64)
    requires
        i < 64,
    ensures
        ((!x) >> i) & 1 == 1 <==> !((x >> i) & 1 == 1),
{
    assert(((!x) >> i) & 1 == 1 <==> !((x >> i) & 1 == 1)) by (bit_vector)
        requires
            i < 64,
    ;
}

pub proof fn lemma_bit_single(i: u64, j: u64)
    requires
        i < 64,
        j < 64,
    ensures
        ((1u64 << i) >> j) & 1 == 1 <==> i == j,
{
    assert(((1u64 << i) >> j) & 1 == 1 <==> i == j) by (bit_vector)
        requires
            i < 64,
            j < 64,
    ;
}

pub proof fn lemma_bit_zero(i: u64)
    requires
        i < 64,
    ensures
        !((0u64 >> i) & 1 == 1),
        (0xffff_ffff_ffff_ffffu64 >> i) & 1 == 1,
{
    assert(!((0u64 >> i) & 1 == 1) && (0xffff_ffff_ffff_ffffu64 >> i) & 1 == 1) by (bit_vector)
        requires
            i < 64,
    ;
}

proof fn lemma_high_bits_zero(x: u64, k: u64)
    requires
        k < 64,
        forall|i: u64| k <= i < 64 ==> !((x >> i) & 1 == 1),
    ensures
        x >> k == 0,
    decreases 64 - k,
{
    if k == 63 {
        assert(!((x >> 63u64) & 1 == 1));
        assert(!((x >> 63u64) & 1 == 1) ==> x >> 63u64 == 0) by (bit_vector);
    } else {
        lemma_high_bits_zero(x, (k + 1) as u64);
        assert(!((x >> k) & 1 == 1));
        assert((x >> ((k + 1) as u64)) == 0 && !((x >> k) & 1 == 1) ==> x >> k == 0) by (bit_vector)
            requires
                k < 63,
        ;
    }
}

/// A word with no bit set is zero.
pub proof fn lemma_no_bits_zero(x: u64)
    requires
        forall|i: int| !bit(x, i),
    ensures
        x == 0,
{
    assert forall|i: u64| 0 <= i < 64 implies !((x >> i) & 1 == 1) by {
        assert(!bit(x, i as int));
    }
    lemma_high_bits_zero(x, 0);
    assert(x >> 0u64 == x) by (bit_vector);
}

/// Two words with the same bits are equal.
pub proof fn lemma_same_bits(x: u64, y: u64)
    requires
        forall|i: int| bit(x, i) == bit(y, i),
    ensures
        x == y,
{
    assert forall|i: int| !bit(x ^ y, i) by {
        if 0 <= i < 64 {
            let iu = i as u64;
            assert(((x ^ y) >> iu) & 1 == 1 <==> (((x >> iu) & 1 == 1) != ((y >> iu) & 1 == 1))) by (bit_vector)
                requires
                    iu < 64,
            ;
            assert(bit(x, i) == bit(y, i));
        }
    }
    lemma_no_bits_zero(x ^ y);
    assert(x ^ y == 0 ==> x == y) by (bit_vector);
}

/// The number of set bits of `x` below bit `n`.
pub open spec fn count_bits_below(x: u64, n: int) -> nat
    decreases n,
{
    if n <= 0 {
        0
    } else {
        count_bits_below(x, n - 1) + if bit(x, n - 1) {
            1nat
        } else {
            0nat
        }
    }
}

/// The number of squares in a bitboard.
pub open spec fn popcount(x: u64) -> nat {
    count_bits_below(x, 64)
}

/// A set of squares, bit `i` standing for the square of index `i`.
#[derive(Debug, PartialEq, Eq, Structural, Copy, Clone)]
pub struct Bitboard(pub u64);

impl Bitboard {
    /// Square `i` is in the set.
    pub open spec fn has(self, i: int) -> bool {
        bit(self.0, i)
    }

    pub fn empty() -> (r: Self)
        ensures
            r.0 == 0,
            forall|i: int| !r.has(i),
    {
        proof {
            assert forall|i: int| !bit(0, i) by {
                if 0 <= i < 64 {
                    lemma_bit_zero(i as u64);
                }
            }
        }
        Self(0)
    }

    pub fn ones() -> (r: Self)
        ensures
            r.0 == u64::MAX,
            forall|i: int| 0 <= i < 64 ==> r.has(i),
    {
        proof {
            assert forall|i: int| 0 <= i < 64 implies bit(u64::MAX, i) by {
                lemma_bit_zero(i as u64);
            }
        }
        Self(u64::MAX)
    }

    pub fn from_value(value: u64) -> (r: Self)
        ensures
            r.0 == value,
    {
        Self(value)
    }

    pub fn from_pos(position: &BoardPosition) -> (r: Self)
        requires
            position.valid(),
        ensures
            r.0 == 1u64 << (position.idx() as u64),
            forall|i: int| r.has(i) <==> i == position.idx(),
    {
        Self::from_index(position.index())
    }

    pub fn from_index(index: u8) -> (r: Self)
        requires
            index < 64,
        ensures
            r.0 == 1u64 << (index as u64),
            forall|i: int| r.has(i) <==> i == index,
    {
        let r = Self(1u64 << index);
        proof {
            assert forall|i: int| r.has(i) <==> i == index by {
                if 0 <= i < 64 {
                    lemma_bit_single(index as u64, i as u64);
                }
            }
        }
        r
    }

    pub fn get(&self, index: u8) -> (r: bool)
        requires
            index < 64,
        ensures
            r == self.has(index as int),
    {
        (self.0 >> index) & 1 == 1
    }

    pub fn set(&mut self, index: u8, value: bool)
        requires
            index < 64,
        ensures
            final(self).has(index as int) == value,
            forall|i: int| i != index ==> final(self).has(i) == old(self).has(i),
    {
        let ghost x = self.0;
        if value {
            self.0 = self.0 | (1u64 << index);
        } else {
            self.0 = self.0 & !(1u64 << index);
        }
        proof {
            assert forall|i: int| 0 <= i < 64 implies (self.has(i) <==> (if i == index {
                value
            } else {
                bit(x, i)
            })) by {
                let iu = i as u64;
                lemma_bit_single(index as u64, iu);
                if value {
                    lemma_bit_or(x, 1u64 << index, iu);
                } else {
                    lemma_bit_not(1u64 << index, iu);
                    lemma_bit_and(x, !(1u64 << index), iu);
                }
            }
        }
    }

    pub fn inner(&self) -> (r: u64)
        ensures
            r == self.0,
    {
        self.0
    }

    /// Moves every square by `ranks` ranks and `files` files (left shift when the sum is
    /// positive); squares that leave the 64-bit range are dropped, files are not masked.
    pub fn shift(self, ranks: i8, files: i8) -> (r: Self)
        requires
            -64 < ranks * 8 + files < 64,
        ensures
            ranks * 8 + files >= 0 ==> r.0 == self.0 << ((ranks * 8 + files) as u64),
            ranks * 8 + files < 0 ==> r.0 == self.0 >> ((-(ranks * 8 + files)) as u64),
    {
        let shift: i32 = ranks as i32 * 8 + files as i32;
        if shift >= 0 {
            Self(self.0 << (shift as u32))
        } else {
            Self(self.0 >> ((-shift) as u32))
        }
    }

    /// The indices of the squares in the set, in increasing order.
    pub fn filled_indices(&self) -> (r: Vec<u8>)
        ensures
            forall|k: int| 0 <= k < r.len() ==> r[k] < 64 && self.has(r[k] as int),
            forall|i: int| 0 <= i < 64 && self.has(i) ==> exists|k: int|
                0 <= k < r.len() && r[k] == i,
            forall|k: int, l: int| 0 <= k < l < r.len() ==> r[k] < r[l],
            r.len() == popcount(self.0),
            forall|k: int| 0 <= k < r.len() ==> count_bits_below(self.0, #[trigger] r[k] as int) == k,
    {
        let mut r: Vec<u8> = Vec::new();
        let mut i: u8 = 0;
        while i < 64
            invariant
                i <= 64,
                forall|k: int| 0 <= k < r.len() ==> r[k] < i && self.has(r[k] as int),
                forall|j: int| 0 <= j < i && self.has(j) ==> exists|k: int|
                    0 <= k < r.len() && r[k] == j,
                forall|k: int, l: int| 0 <= k < l < r.len() ==> r[k] < r[l],
                r.len() == count_bits_below(self.0, i as int),
                forall|k: int| 0 <= k < r.len() ==> count_bits_below(self.0, #[trigger] r[k] as int) == k,
            decreases 64 - i,
        {
            let ghost r0 = r@;
            if self.get(i) {
                r.push(i);
                proof {
                    assert(r[r.len() - 1] == i);
                    assert forall|j: int| 0 <= j < i && self.has(j) implies exists|k: int|
                        0 <= k < r.len() && r[k] == j by {
                        let k = choose|k: int| 0 <= k < r0.len() && r0[k] == j;
                        assert(r[k] == j);
                    }
                }
            }
            i = i + 1;
        }
        r
    }

    pub fn is_empty(&self) -> (r: bool)
        ensures
            r == (self.0 == 0),
            r ==> forall|i: int| !self.has(i),
    {
        proof {
            if self.0 == 0 {
                assert forall|i: int| !bit(0, i) by {
                    if 0 <= i < 64 {
                        lemma_bit_zero(i as u64);
                    }
                }
            }
        }
        self.0 == 0
    }

    /// At least one square is in the set.
    pub fn any(&self) -> (r: bool)
        ensures
            r == (self.0 != 0),
            r == exists|i: int| self.has(i),
    {
        proof {
            if self.0 == 0 {
                assert forall|i: int| !bit(0, i) by {
                    if 0 <= i < 64 {
                        lemma_bit_zero(i as u64);
                    }
                }
            } else {
                if forall|i: int| !self.has(i) {
                    assert forall|i: int| !bit(self.0, i) by {
                        assert(!self.has(i));
                    }
                    lemma_no_bits_zero(self.0);
                }
            }
        }
        self.0 > 0
    }

    pub fn or(self, rhs: Self) -> (r: Self)
        ensures
            r.0 == self.0 | rhs.0,
            forall|i: int| r.has(i) <==> self.has(i) || rhs.has(i),
    {
        let r = Self(self.0 | rhs.0);
        proof {
            assert forall|i: int| r.has(i) <==> self.has(i) || rhs.has(i) by {
                if 0 <= i < 64 {
                    lemma_bit_or(self.0, rhs.0, i as u64);
                }
            }
        }
        r
    }

    pub fn and(self, rhs: Self) -> (r: Self)
        ensures
            r.0 == self.0 & rhs.0,
            forall|i: int| r.has(i) <==> self.has(i) && rhs.has(i),
    {
        let r = Self(self.0 & rhs.0);
        proof {
            assert forall|i: int| r.has(i) <==> self.has(i) && rhs.has(i) by {
                if 0 <= i < 64 {
                    lemma_bit_and(self.0, rhs.0, i as u64);
                }
            }
        }
        r
    }

    pub fn not(self) -> (r: Self)
        ensures
            r.0 == !self.0,
            forall|i: int| 0 <= i < 64 ==> (r.has(i) <==> !self.has(i)),
    {
        let r = Self(!self.0);
        proof {
            assert forall|i: int| 0 <= i < 64 implies (r.has(i) <==> !self.has(i)) by {
                lemma_bit_not(self.0, i as u64);
            }
        }
        r
    }
}

/// One bitboard per piece kind, for the pieces of one color.
#[derive(Debug, PartialEq, Eq, Structural, Copy, Clone)]
pub struct ColorBitboards {
    pub king: Bitboard,
    pub queen: Bitboard,
    pub bishop: Bitboard,
    pub knight: Bitboard,
    pub rook: Bitboard,
    pub pawn: Bitboard,
}

impl ColorBitboards {
    pub open spec fn of(self, kind: PieceType) -> Bitboard {
        match kind {
            PieceType::King => self.king,
            PieceType::Queen => self.queen,
            PieceType::Bishop => self.bishop,
            PieceType::Knight => self.knight,
            PieceType::Rook => self.rook,
            PieceType::Pawn => self.pawn,
        }
    }

    /// Some piece of this color stands on square `i`.
    pub open spec fn occupies(self, i: int) -> bool {
        exists|k: PieceType| #[trigger] self.of(k).has(i)
    }

    pub fn empty() -> (r: ColorBitboards)
        ensures
            forall|k: PieceType, i: int| !(#[trigger] r.of(k).has(i)),
    {
        Self {
            king: Bitboard::empty(),
            queen: Bitboard::empty(),
            bishop: Bitboard::empty(),
            knight: Bitboard::empty(),
            rook: Bitboard::empty(),
            pawn: Bitboard::empty(),
        }
    }

    pub fn set(&mut self, index: u8, piece: PieceType, value: bool)
        requires
            index < 64,
        ensures
            final(self).of(piece).has(index as int) == value,
            forall|k: PieceType, i: int|
                (k != piece || i != index) ==> #[trigger] final(self).of(k).has(i) == old(self).of(k).has(i),
    {
        match piece {
            PieceType::King => self.king.set(index, value),
            PieceType::Queen => self.queen.set(index, value),
            PieceType::Bishop => self.bishop.set(index, value),
            PieceType::Knight => self.knight.set(index, value),
            PieceType::Rook => self.rook.set(index, value),
            PieceType::Pawn => self.pawn.set(index, value),
        };
    }

    /// The word of all pieces of this color.
    pub open spec fn word(self) -> u64 {
        ((((self.king.0 | self.queen.0) | self.bishop.0) | self.knight.0) | self.rook.0)
            | self.pawn.0
    }

    /// The squares of all pieces of this color.
    pub fn any(&self) -> (r: Bitboard)
        ensures
            r.0 == self.word(),
            forall|i: int| r.has(i) <==> self.occupies(i),
    {
        let r = self.king.or(self.queen).or(self.bishop).or(self.knight).or(self.rook).or(
            self.pawn,
        );
        proof {
            assert forall|i: int| r.has(i) <==> self.occupies(i) by {
                if self.occupies(i) {
                    let k = choose|k: PieceType| #[trigger] self.of(k).has(i);
                    match k {
                        PieceType::King => {},
                        PieceType::Queen => {},
                        PieceType::Bishop => {},
                        PieceType::Knight => {},
                        PieceType::Rook => {},
                        PieceType::Pawn => {},
                    }
                }
                if r.has(i) {
                    if self.king.has(i) {
                        assert(self.of(PieceType::King).has(i));
                    } else if self.queen.has(i) {
                        assert(self.of(PieceType::Queen).has(i));
                    } else if self.bishop.has(i) {
                        assert(self.of(PieceType::Bishop).has(i));
                    } else if self.knight.has(i) {
                        assert(self.of(PieceType::Knight).has(i));
                    } else if self.rook.has(i) {
                        assert(self.of(PieceType::Rook).has(i));
                    } else {
                        assert(self.of(PieceType::Pawn).has(i));
                    }
                }
            }
        }
        r
    }
}

/// The twelve bitboards of a position, one per color and kind.
#[derive(Debug, PartialEq, Eq, Structural, Copy, Clone)]
pub struct Bitboards {
    pub white: ColorBitboards,
    pub black: ColorBitboards,
}

impl Bitboards {
    pub open spec fn color(self, color: PieceColor) -> ColorBitboards {
        match color {
            PieceColor::White => self.white,
            PieceColor::Black => self.black,
        }
    }

    /// The bitboard of pieces of one color and kind.
    pub open spec fn of(self, color: PieceColor, kind: PieceType) -> Bitboard {
        self.color(color).of(kind)
    }

    pub fn empty() -> (r: Self)
        ensures
            forall|c: PieceColor, k: PieceType, i: int| !(#[trigger] r.of(c, k).has(i)),
    {
        let r = Self { white: ColorBitboards::empty(), black: ColorBitboards::empty() };
        proof {
            assert forall|c: PieceColor, k: PieceType, i: int| !(#[trigger] r.of(c, k).has(i)) by {
                match c {
                    PieceColor::White => assert(!r.white.of(k).has(i)),
                    PieceColor::Black => assert(!r.black.of(k).has(i)),
                }
            }
        }
        r
    }

    pub fn insert(&mut self, index: u8, piece: Piece)
        requires
            index < 64,
        ensures
            final(self).of(piece.color, piece.kind).has(index as int),
            forall|c: PieceColor, k: PieceType, i: int|
                (c != piece.color || k != piece.kind || i != index) ==> #[trigger] final(self).of(c, k).has(i) == old(self).of(c, k).has(i),
    {
        match piece.color {
            PieceColor::White => self.white.set(index, piece.kind, true),
            PieceColor::Black => self.black.set(index, piece.kind, true),
        }
    }

    pub fn remove(&mut self, index: u8, piece: Piece)
        requires
            index < 64,
        ensures
            !final(self).of(piece.color, piece.kind).has(index as int),
            forall|c: PieceColor, k: PieceType, i: int|
                (c != piece.color || k != piece.kind || i != index) ==> #[trigger] final(self).of(c, k).has(i) == old(self).of(c, k).has(i),
    {
        match piece.color {
            PieceColor::White => self.white.set(index, piece.kind, false),
            PieceColor::Black => self.black.set(index, piece.kind, false),
        }
    }

    /// The word of all pieces.
    pub open spec fn word(self) -> u64 {
        self.white.word() | self.black.word()
    }

    /// The squares of all pieces.
    pub fn all_pieces(&self) -> (r: Bitboard)
        ensures
            r.0 == self.word(),
            forall|i: int|
                r.has(i) <==> (self.white.occupies(i) || self.black.occupies(i)),
    {
        self.white.any().or(self.black.any())
    }

    pub fn get_color(&self, color: PieceColor) -> (r: &ColorBitboards)
        ensures
            *r == self.color(color),
    {
        match color {
            PieceColor::White => &self.white,
            PieceColor::Black => &self.black,
        }
    }

    /// The squares that hold a queen of both colors at once (the intersection of the two
    /// queen bitboards).
    pub fn queens(&self) -> (r: Bitboard)
        ensures
            r.0 == self.white.queen.0 & self.black.queen.0,
    {
        self.white.queen.and(self.black.queen)
    }

    /// The intersection of the two king bitboards.
    pub fn kings(&self) -> (r: Bitboard)
        ensures
            r.0 == self.white.king.0 & self.black.king.0,
    {
        self.white.king.and(self.black.king)
    }

    /// The intersection of the two rook bitboards.
    pub fn rooks(&self) -> (r: Bitboard)
        ensures
            r.0 == self.white.rook.0 & self.black.rook.0,
    {
        self.white.rook.and(self.black.rook)
    }

    /// The intersection of the two knight bitboards.
    pub fn knights(&self) -> (r: Bitboard)
        ensures
            r.0 == self.white.knight.0 & self.black.knight.0,
    {
        self.white.knight.and(self.black.knight)
    }
}

} // verus!
