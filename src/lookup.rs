use vstd::prelude::*;

use crate::bitboards::{bit, Bitboard};
use crate::magics::{bishop_magic, bishop_magic_entry, rook_magic, rook_magic_entry};
use crate::masks::{
    bishop_attack, bishop_move_mask, bishop_occupancy_mask, bishop_occupancy_target,
    count_squares, generate_obstruction_maps, king_move_mask, king_target, knight_move_mask,
    knight_target, pawn_attack_mask, pawn_attack_target, pawn_move_mask, pawn_push_target,
    rook_attack, rook_move_mask, rook_occupancy_mask, rook_occupancy_target, forward, rk,
};
use crate::piece::PieceColor;
use crate::position::BoardPosition;

verus! {

/// Slots of the rook attack table.
pub const ROOK_TABLE_SIZE: usize = 180224;

/// Slots of the bishop attack table.
pub const BISHOP_TABLE_SIZE: usize = 7296;

/// A magic multiplier, the number of index bits it yields, and the start of its square's
/// region in the attack table.
#[derive(Debug, PartialEq, Eq, Structural, Copy, Clone)]
pub struct MagicLookup {
    pub magic: u64,
    pub length: u8,
    pub offset: u64,
}

/// The table slot of a blocker set: `((blockers * magic) >> (64 - length)) + offset`, the
/// product taken modulo 2^64.
pub open spec fn magic_index(m: MagicLookup, blockers: u64) -> int {
    (vstd::wrapping::u64_specs::wrapping_mul(blockers, m.magic) >> ((64 - m.length) as u64))
        + m.offset
}

/// An entry fits in a table of `size` slots.
pub open spec fn magic_fits(m: MagicLookup, size: int) -> bool {
    1 <= m.length <= 63 && m.offset + vstd::arithmetic::power2::pow2(m.length as nat) <= size
}

proof fn lemma_high_part_bound(x: u64, l: u64)
    requires
        1 <= l <= 63,
    ensures
        x >> ((64 - l) as u64) < (1u64 << l),
{
    assert(x >> ((64 - l) as u64) < (1u64 << l)) by (bit_vector)
        requires
            1 <= l <= 63,
    ;
}

/// Every blocker set, for every square, gives a slot inside the table that the entry was
/// made for.
pub proof fn lemma_magic_index_in_range(m: MagicLookup, blockers: u64, size: int)
    requires
        magic_fits(m, size),
    ensures
        0 <= magic_index(m, blockers) < size,
{
    let x = vstd::wrapping::u64_specs::wrapping_mul(blockers, m.magic);
    lemma_high_part_bound(x, m.length as u64);
    vstd::arithmetic::power2::lemma_pow2_strictly_increases(m.length as nat, 64);
    vstd::arithmetic::power2::lemma2_to64();
    vstd::bits::lemma_u64_shl_is_mul(1, m.length as u64);
}

/// Every entry of the rook and bishop magic tables fits its table.
pub proof fn lemma_magic_entries_fit(square: int)
    requires
        0 <= square < 64,
    ensures
        magic_fits(rook_magic_entry(square), ROOK_TABLE_SIZE as int),
        magic_fits(bishop_magic_entry(square), BISHOP_TABLE_SIZE as int),
{
    vstd::arithmetic::power2::lemma2_to64();
}

/// Magic lookup stays in range: for every square and every blocker set, the rook and the
/// bishop index fall inside their tables.
pub proof fn lemma_lookup_index_in_range(square: int, blockers: u64)
    requires
        0 <= square < 64,
    ensures
        0 <= magic_index(rook_magic_entry(square), blockers) < ROOK_TABLE_SIZE,
        0 <= magic_index(bishop_magic_entry(square), blockers) < BISHOP_TABLE_SIZE,
{
    lemma_magic_entries_fit(square);
    lemma_magic_index_in_range(rook_magic_entry(square), blockers, ROOK_TABLE_SIZE as int);
    lemma_magic_index_in_range(bishop_magic_entry(square), blockers, BISHOP_TABLE_SIZE as int);
}

impl MagicLookup {
    pub fn get_index(&self, mask: Bitboard) -> (r: usize)
        requires
            magic_fits(*self, usize::MAX as int),
        ensures
            r == magic_index(*self, mask.0),
            r < self.offset + vstd::arithmetic::power2::pow2(self.length as nat),
    {
        proof {
            lemma_magic_index_in_range(*self, mask.0, self.offset + vstd::arithmetic::power2::pow2(
                self.length as nat,
            ));
            lemma_high_part_bound(
                vstd::wrapping::u64_specs::wrapping_mul(mask.0, self.magic),
                self.length as u64,
            );
        }
        ((mask.inner().wrapping_mul(self.magic) >> (64 - self.length)) + self.offset) as usize
    }
}

/// What a sliding piece on `sq` attacks, given the blockers: a rook's rays when `rook`
/// holds, a bishop's otherwise.
pub open spec fn slider_attack(rook: bool, sq: BoardPosition, blockers: u64, j: int) -> bool {
    if rook {
        rook_attack(sq, blockers, j)
    } else {
        bishop_attack(sq, blockers, j)
    }
}

/// The squares whose occupancy decides a sliding piece's attacks from `sq`.
pub open spec fn slider_occupancy(rook: bool, sq: BoardPosition, j: int) -> bool {
    if rook {
        rook_occupancy_target(sq, j)
    } else {
        bishop_occupancy_target(sq, j)
    }
}

pub open spec fn square_of(i: int) -> BoardPosition {
    BoardPosition { rank: (i / 8) as u8, file: (i % 8) as u8 }
}

/// A filled slot of a sliding-piece table: the square and blocker set it was computed for,
/// and the attacks.
#[derive(Debug, PartialEq, Eq, Structural, Copy, Clone)]
pub struct MagicSlot {
    pub square: u8,
    pub blockers: u64,
    pub attacks: Bitboard,
}

/// The magic table of one sliding piece kind.
#[derive(Debug, PartialEq, Eq, Clone)]
pub struct SlidingPieceLookup {
    pub rook: bool,
    pub magic_numbers: Vec<MagicLookup>,
    pub masks: Vec<Bitboard>,
    pub lookup_table: Vec<Option<MagicSlot>>,
}

impl SlidingPieceLookup {
    pub open spec fn wf(&self) -> bool {
        &&& self.magic_numbers.len() == 64
        &&& self.masks.len() == 64
        &&& forall|i: int|
            0 <= i < 64 ==> #[trigger] self.magic_numbers[i] == if self.rook {
                rook_magic_entry(i)
            } else {
                bishop_magic_entry(i)
            }
        &&& forall|i: int, j: int|
            0 <= i < 64 ==> (#[trigger] self.masks[i].has(j) <==> slider_occupancy(
                self.rook,
                square_of(i),
                j,
            ))
        &&& self.lookup_table.len() == if self.rook {
            ROOK_TABLE_SIZE
        } else {
            BISHOP_TABLE_SIZE
        }
        &&& forall|k: int|
            0 <= k < self.lookup_table.len() ==> match #[trigger] self.lookup_table[k] {
                Some(slot) => slot.square < 64 && forall|j: int|
                    slot.attacks.has(j) <==> slider_attack(
                        self.rook,
                        square_of(slot.square as int),
                        slot.blockers,
                        j,
                    ),
                None => true,
            }
    }

    fn generate(rook: bool) -> (r: Self)
        ensures
            r.wf(),
            r.rook == rook,
    {
        let size: usize = if rook {
            ROOK_TABLE_SIZE
        } else {
            BISHOP_TABLE_SIZE
        };
        let mut lookup_table: Vec<Option<MagicSlot>> = Vec::new();
        while lookup_table.len() < size
            invariant
                lookup_table.len() <= size,
                forall|k: int| 0 <= k < lookup_table.len() ==> lookup_table[k] is None,
            decreases size - lookup_table.len(),
        {
            lookup_table.push(None);
        }
        let mut magic_numbers: Vec<MagicLookup> = Vec::new();
        let mut masks: Vec<Bitboard> = Vec::new();
        let mut i: u8 = 0;
        while i < 64
            invariant
                i <= 64,
                size == if rook { ROOK_TABLE_SIZE } else { BISHOP_TABLE_SIZE },
                lookup_table.len() == size,
                magic_numbers.len() == i,
                masks.len() == i,
                forall|q: int|
                    0 <= q < i ==> #[trigger] magic_numbers[q] == if rook {
                        rook_magic_entry(q)
                    } else {
                        bishop_magic_entry(q)
                    },
                forall|q: int, j: int|
                    0 <= q < i ==> (#[trigger] masks[q].has(j) <==> slider_occupancy(
                        rook,
                        square_of(q),
                        j,
                    )),
                forall|k: int|
                    0 <= k < lookup_table.len() ==> match #[trigger] lookup_table[k] {
                        Some(slot) => slot.square < 64 && forall|j: int|
                            slot.attacks.has(j) <==> slider_attack(
                                rook,
                                square_of(slot.square as int),
                                slot.blockers,
                                j,
                            ),
                        None => true,
                    },
            decreases 64 - i,
        {
            let square = BoardPosition::from_index(i);
            let (magic, occupancy) = if rook {
                (rook_magic(i), rook_occupancy_mask(square))
            } else {
                (bishop_magic(i), bishop_occupancy_mask(square))
            };
            proof {
                lemma_magic_entries_fit(i as int);
                assert(square == square_of(i as int));
            }
            if count_squares(occupancy) < 32 {
                let maps = generate_obstruction_maps(occupancy);
                let mut m: usize = 0;
                while m < maps.len()
                    invariant
                        m <= maps.len(),
                        i < 64,
                        square == square_of(i as int),
                        square.valid(),
                        magic_fits(magic, size as int),
                        lookup_table.len() == size,
                        forall|k: int|
                            0 <= k < lookup_table.len() ==> match #[trigger] lookup_table[k] {
                                Some(slot) => slot.square < 64 && forall|j: int|
                                    slot.attacks.has(j) <==> slider_attack(
                                        rook,
                                        square_of(slot.square as int),
                                        slot.blockers,
                                        j,
                                    ),
                                None => true,
                            },
                    decreases maps.len() - m,
                {
                    let blockers = maps[m];
                    let attacks = if rook {
                        rook_move_mask(square, blockers)
                    } else {
                        bishop_move_mask(square, blockers)
                    };
                    let index = magic.get_index(blockers);
                    let slot = MagicSlot { square: i, blockers: blockers.0, attacks };
                    lookup_table.set(index, Some(slot));
                    m = m + 1;
                }
            }
            magic_numbers.push(magic);
            masks.push(occupancy);
            i = i + 1;
        }
        Self { rook, magic_numbers, masks, lookup_table }
    }

    pub fn generate_rook() -> (r: Self)
        ensures
            r.wf(),
            r.rook,
    {
        Self::generate(true)
    }

    pub fn generate_bishop() -> (r: Self)
        ensures
            r.wf(),
            !r.rook,
    {
        Self::generate(false)
    }

    /// The attacks from `square`, the blockers being those of `piece_mask` that stand on the
    /// square's occupancy mask.
    pub fn lookup(&self, square: &BoardPosition, piece_mask: Bitboard) -> (r: Bitboard)
        requires
            self.wf(),
            square.valid(),
        ensures
            forall|j: int|
                r.has(j) <==> slider_attack(
                    self.rook,
                    *square,
                    piece_mask.0 & self.masks[square.idx()].0,
                    j,
                ),
    {
        let idx = square.index() as usize;
        let masked = piece_mask.and(self.masks[idx]);
        proof {
            lemma_magic_entries_fit(idx as int);
        }
        let index = self.magic_numbers[idx].get_index(masked);
        if index < self.lookup_table.len() {
            if let Some(slot) = self.lookup_table[index] {
                if slot.square as usize == idx && slot.blockers == masked.0 {
                    proof {
                        assert(square_of(slot.square as int) == *square);
                    }
                    return slot.attacks;
                }
            }
        }
        if self.rook {
            rook_move_mask(*square, masked)
        } else {
            bishop_move_mask(*square, masked)
        }
    }
}

/// A pawn of color `c` on `sq` may go to `j`, given the occupied squares and the enemy's:
/// a push onto an empty square (a double push also needs the square it passes to be
/// empty), or a capture onto an enemy piece.
pub open spec fn pawn_reach(c: PieceColor, sq: BoardPosition, occupied: u64, enemy: u64, j: int) -> bool {
    (pawn_push_target(c, sq, j) && !bit(occupied, j) && (rk(j) == sq.rank + 2 * forward(c)
        ==> !bit(occupied, j - 8 * forward(c)))) || (pawn_attack_target(c, sq, j) && bit(enemy, j))
}

#[derive(Debug, PartialEq, Eq, Clone)]
pub struct PawnLookup {
    pub white_move_masks: Vec<Bitboard>,
    pub white_attack_masks: Vec<Bitboard>,
    pub black_move_masks: Vec<Bitboard>,
    pub black_attack_masks: Vec<Bitboard>,
}

impl PawnLookup {
    pub open spec fn wf(&self) -> bool {
        &&& self.white_move_masks.len() == 64
        &&& self.white_attack_masks.len() == 64
        &&& self.black_move_masks.len() == 64
        &&& self.black_attack_masks.len() == 64
        &&& forall|i: int, j: int|
            0 <= i < 64 ==> (#[trigger] self.white_move_masks[i].has(j) <==> pawn_push_target(
                PieceColor::White,
                square_of(i),
                j,
            ))
        &&& forall|i: int, j: int|
            0 <= i < 64 ==> (#[trigger] self.black_move_masks[i].has(j) <==> pawn_push_target(
                PieceColor::Black,
                square_of(i),
                j,
            ))
        &&& forall|i: int, j: int|
            0 <= i < 64 ==> (#[trigger] self.white_attack_masks[i].has(j) <==> pawn_attack_target(
                PieceColor::White,
                square_of(i),
                j,
            ))
        &&& forall|i: int, j: int|
            0 <= i < 64 ==> (#[trigger] self.black_attack_masks[i].has(j) <==> pawn_attack_target(
                PieceColor::Black,
                square_of(i),
                j,
            ))
    }

    pub fn generate() -> (r: Self)
        ensures
            r.wf(),
    {
        let mut white_move_masks: Vec<Bitboard> = Vec::new();
        let mut white_attack_masks: Vec<Bitboard> = Vec::new();
        let mut black_move_masks: Vec<Bitboard> = Vec::new();
        let mut black_attack_masks: Vec<Bitboard> = Vec::new();
        let mut i: u8 = 0;
        while i < 64
            invariant
                i <= 64,
                white_move_masks.len() == i,
                white_attack_masks.len() == i,
                black_move_masks.len() == i,
                black_attack_masks.len() == i,
                forall|q: int, j: int|
                    0 <= q < i ==> (#[trigger] white_move_masks[q].has(j) <==> pawn_push_target(
                        PieceColor::White,
                        square_of(q),
                        j,
                    )),
                forall|q: int, j: int|
                    0 <= q < i ==> (#[trigger] black_move_masks[q].has(j) <==> pawn_push_target(
                        PieceColor::Black,
                        square_of(q),
                        j,
                    )),
                forall|q: int, j: int|
                    0 <= q < i ==> (#[trigger] white_attack_masks[q].has(j) <==> pawn_attack_target(
                        PieceColor::White,
                        square_of(q),
                        j,
                    )),
                forall|q: int, j: int|
                    0 <= q < i ==> (#[trigger] black_attack_masks[q].has(j) <==> pawn_attack_target(
                        PieceColor::Black,
                        square_of(q),
                        j,
                    )),
            decreases 64 - i,
        {
            let sq = BoardPosition::from_index(i);
            proof {
                assert(sq == square_of(i as int));
            }
            white_move_masks.push(pawn_move_mask(sq, PieceColor::White));
            white_attack_masks.push(pawn_attack_mask(sq, PieceColor::White));
            black_move_masks.push(pawn_move_mask(sq, PieceColor::Black));
            black_attack_masks.push(pawn_attack_mask(sq, PieceColor::Black));
            i = i + 1;
        }
        Self { white_move_masks, white_attack_masks, black_move_masks, black_attack_masks }
    }

    /// The squares a pawn on `square` may move to, given all pieces and the enemy's.
    pub fn lookup(
        &self,
        square: &BoardPosition,
        color: PieceColor,
        piece_mask: Bitboard,
        enemy_mask: Bitboard,
    ) -> (r: Bitboard)
        requires
            self.wf(),
            square.valid(),
        ensures
            forall|j: int| r.has(j) <==> pawn_reach(color, *square, piece_mask.0, enemy_mask.0, j),
    {
        let idx = square.index();
        proof {
            assert(square_of(idx as int) == *square);
        }
        let (moves, attacks) = match color {
            PieceColor::White => (self.white_move_masks[idx as usize], self.white_attack_masks[idx as usize]),
            PieceColor::Black => (self.black_move_masks[idx as usize], self.black_attack_masks[idx as usize]),
        };
        let mut board = moves.and(piece_mask.not());
        let ghost pushes = board;
        match color {
            PieceColor::White => {
                if square.rank == 1 && piece_mask.get(idx + 8) {
                    board.set(idx + 16, false);
                }
            },
            PieceColor::Black => {
                if square.rank == 6 && piece_mask.get(idx - 8) {
                    board.set(idx - 16, false);
                }
            },
        }
        let r = board.or(attacks.and(enemy_mask));
        proof {
            assert forall|j: int| r.has(j) <==> pawn_reach(color, *square, piece_mask.0, enemy_mask.0, j) by {
                if pawn_push_target(color, *square, j) {
                    assert(0 <= j < 64);
                }
            }
        }
        r
    }

    pub fn attacks(&self, square: &BoardPosition, color: PieceColor) -> (r: Bitboard)
        requires
            self.wf(),
            square.valid(),
        ensures
            forall|j: int| r.has(j) <==> pawn_attack_target(color, *square, j),
    {
        let idx = square.index() as usize;
        proof {
            assert(square_of(idx as int) == *square);
        }
        match color {
            PieceColor::White => self.white_attack_masks[idx],
            PieceColor::Black => self.black_attack_masks[idx],
        }
    }
}

/// Precomputed target squares of a jumping piece (king or knight), one bitboard per square.
#[derive(Debug, PartialEq, Eq, Clone)]
pub struct JumpingPieceLookup {
    pub masks: Vec<Bitboard>,
}

impl JumpingPieceLookup {
    pub fn generate_knight() -> (r: Self)
        ensures
            r.masks.len() == 64,
            forall|i: int, j: int|
                0 <= i < 64 ==> (#[trigger] r.masks[i].has(j) <==> knight_target(square_of(i), j)),
    {
        let mut masks: Vec<Bitboard> = Vec::new();
        let mut i: u8 = 0;
        while i < 64
            invariant
                i <= 64,
                masks.len() == i,
                forall|q: int, j: int|
                    0 <= q < i ==> (#[trigger] masks[q].has(j) <==> knight_target(square_of(q), j)),
            decreases 64 - i,
        {
            let sq = BoardPosition::from_index(i);
            proof {
                assert(sq == square_of(i as int));
            }
            masks.push(knight_move_mask(sq));
            i = i + 1;
        }
        Self { masks }
    }

    pub fn generate_king() -> (r: Self)
        ensures
            r.masks.len() == 64,
            forall|i: int, j: int|
                0 <= i < 64 ==> (#[trigger] r.masks[i].has(j) <==> king_target(square_of(i), j)),
    {
        let mut masks: Vec<Bitboard> = Vec::new();
        let mut i: u8 = 0;
        while i < 64
            invariant
                i <= 64,
                masks.len() == i,
                forall|q: int, j: int|
                    0 <= q < i ==> (#[trigger] masks[q].has(j) <==> king_target(square_of(q), j)),
            decreases 64 - i,
        {
            let sq = BoardPosition::from_index(i);
            proof {
                assert(sq == square_of(i as int));
            }
            masks.push(king_move_mask(sq));
            i = i + 1;
        }
        Self { masks }
    }

    pub fn lookup(&self, square: &BoardPosition) -> (r: Bitboard)
        requires
            self.masks.len() == 64,
            square.valid(),
        ensures
            r == self.masks[square.idx()],
    {
        self.masks[square.index() as usize]
    }
}

/// All precomputed move tables.
#[derive(Debug, PartialEq, Clone)]
pub struct LookupTables {
    pub pawn_lookup: PawnLookup,
    pub king_lookup: JumpingPieceLookup,
    pub knight_lookup: JumpingPieceLookup,
    pub rook_lookup: SlidingPieceLookup,
    pub bishop_lookup: SlidingPieceLookup,
}

impl LookupTables {
    pub open spec fn wf(&self) -> bool {
        &&& self.pawn_lookup.wf()
        &&& self.king_lookup.masks.len() == 64
        &&& self.knight_lookup.masks.len() == 64
        &&& forall|i: int, j: int|
            0 <= i < 64 ==> (#[trigger] self.king_lookup.masks[i].has(j) <==> king_target(
                square_of(i),
                j,
            ))
        &&& forall|i: int, j: int|
            0 <= i < 64 ==> (#[trigger] self.knight_lookup.masks[i].has(j) <==> knight_target(
                square_of(i),
                j,
            ))
        &&& self.rook_lookup.wf()
        &&& self.rook_lookup.rook
        &&& self.bishop_lookup.wf()
        &&& !self.bishop_lookup.rook
    }

    /// The blockers that decide a rook's attacks from `sq`.
    pub open spec fn rook_blockers(&self, sq: BoardPosition, piece_mask: u64) -> u64 {
        piece_mask & self.rook_lookup.masks[sq.idx()].0
    }

    /// The blockers that decide a bishop's attacks from `sq`.
    pub open spec fn bishop_blockers(&self, sq: BoardPosition, piece_mask: u64) -> u64 {
        piece_mask & self.bishop_lookup.masks[sq.idx()].0
    }

    pub fn new() -> (r: Self)
        ensures
            r.wf(),
    {
        Self {
            pawn_lookup: PawnLookup::generate(),
            king_lookup: JumpingPieceLookup::generate_king(),
            knight_lookup: JumpingPieceLookup::generate_knight(),
            rook_lookup: SlidingPieceLookup::generate_rook(),
            bishop_lookup: SlidingPieceLookup::generate_bishop(),
        }
    }

    pub fn pawn_lookup(
        &self,
        square: &BoardPosition,
        color: PieceColor,
        piece_mask: Bitboard,
        enemy_mask: Bitboard,
    ) -> (r: Bitboard)
        requires
            self.wf(),
            square.valid(),
        ensures
            forall|j: int| r.has(j) <==> pawn_reach(color, *square, piece_mask.0, enemy_mask.0, j),
    {
        self.pawn_lookup.lookup(square, color, piece_mask, enemy_mask)
    }

    pub fn pawn_attacks(&self, square: &BoardPosition, color: PieceColor) -> (r: Bitboard)
        requires
            self.wf(),
            square.valid(),
        ensures
            forall|j: int| r.has(j) <==> pawn_attack_target(color, *square, j),
    {
        self.pawn_lookup.attacks(square, color)
    }

    pub fn king_lookup(&self, square: &BoardPosition) -> (r: Bitboard)
        requires
            self.wf(),
            square.valid(),
        ensures
            forall|j: int| r.has(j) <==> king_target(*square, j),
    {
        proof {
            assert(square_of(square.idx()) == *square);
        }
        self.king_lookup.lookup(square)
    }

    pub fn knight_lookup(&self, square: &BoardPosition) -> (r: Bitboard)
        requires
            self.wf(),
            square.valid(),
        ensures
            forall|j: int| r.has(j) <==> knight_target(*square, j),
    {
        proof {
            assert(square_of(square.idx()) == *square);
        }
        self.knight_lookup.lookup(square)
    }

    pub fn rook_lookup(&self, square: &BoardPosition, piece_mask: Bitboard) -> (r: Bitboard)
        requires
            self.wf(),
            square.valid(),
        ensures
            forall|j: int| r.has(j) <==> rook_attack(*square, self.rook_blockers(*square, piece_mask.0), j),
    {
        self.rook_lookup.lookup(square, piece_mask)
    }

    pub fn bishop_lookup(&self, square: &BoardPosition, piece_mask: Bitboard) -> (r: Bitboard)
        requires
            self.wf(),
            square.valid(),
        ensures
            forall|j: int| r.has(j) <==> bishop_attack(*square, self.bishop_blockers(*square, piece_mask.0), j),
    {
        self.bishop_lookup.lookup(square, piece_mask)
    }

    /// A queen's attacks: the union of a rook's and a bishop's from the same square.
    pub fn queen_lookup(&self, square: &BoardPosition, piece_mask: Bitboard) -> (r: Bitboard)
        requires
            self.wf(),
            square.valid(),
        ensures
            forall|j: int|
                r.has(j) <==> (rook_attack(*square, self.rook_blockers(*square, piece_mask.0), j)
                    || bishop_attack(*square, self.bishop_blockers(*square, piece_mask.0), j)),
    {
        self.rook_lookup.lookup(square, piece_mask).or(self.bishop_lookup.lookup(square, piece_mask))
    }
}

} // verus!
