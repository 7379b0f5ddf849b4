use vstd::prelude::*;

use crate::bitboards::{bit, count_bits_below, lemma_same_bits, popcount, Bitboard};
use crate::piece::PieceColor;
use crate::position::BoardPosition;

verus! {

pub open spec fn abs(x: int) -> int {
    if x < 0 {
        -x
    } else {
        x
    }
}

/// Rank of the square of index `j`.
pub open spec fn rk(j: int) -> int {
    j / 8
}

/// File of the square of index `j`.
pub open spec fn fl(j: int) -> int {
    j % 8
}

/// The rank a pawn of this color advances towards, as a step.
pub open spec fn forward(c: PieceColor) -> int {
    match c {
        PieceColor::White => 1,
        PieceColor::Black => -1,
    }
}

/// The rank on which the pawns of this color start.
pub open spec fn pawn_start_rank(c: PieceColor) -> int {
    match c {
        PieceColor::White => 1,
        PieceColor::Black => 6,
    }
}

/// A pawn of color `c` on `sq` captures towards square `j`.
pub open spec fn pawn_attack_target(c: PieceColor, sq: BoardPosition, j: int) -> bool {
    0 <= j < 64 && rk(j) == sq.rank + forward(c) && abs(fl(j) - sq.file) == 1
}

/// A pawn of color `c` on `sq` advances to square `j` (one rank, or two from its start rank).
pub open spec fn pawn_push_target(c: PieceColor, sq: BoardPosition, j: int) -> bool {
    0 <= j < 64 && fl(j) == sq.file && (rk(j) == sq.rank + forward(c) || (sq.rank
        == pawn_start_rank(c) && rk(j) == sq.rank + 2 * forward(c)))
}

/// A knight on `sq` jumps to square `j`.
pub open spec fn knight_target(sq: BoardPosition, j: int) -> bool {
    0 <= j < 64 && ((abs(rk(j) - sq.rank) == 1 && abs(fl(j) - sq.file) == 2) || (abs(
        rk(j) - sq.rank,
    ) == 2 && abs(fl(j) - sq.file) == 1))
}

/// A king on `sq` steps to square `j`.
pub open spec fn king_target(sq: BoardPosition, j: int) -> bool {
    0 <= j < 64 && abs(rk(j) - sq.rank) <= 1 && abs(fl(j) - sq.file) <= 1 && j != sq.idx()
}

/// Square `j` is one of the inner squares of the rank and file through `sq`.
pub open spec fn rook_occupancy_target(sq: BoardPosition, j: int) -> bool {
    0 <= j < 64 && j != sq.idx() && ((rk(j) == sq.rank && 1 <= fl(j) <= 6) || (fl(j) == sq.file
        && 1 <= rk(j) <= 6))
}

/// Square `j` is one of the inner squares of the diagonals through `sq`.
pub open spec fn bishop_occupancy_target(sq: BoardPosition, j: int) -> bool {
    0 <= j < 64 && j != sq.idx() && abs(rk(j) - sq.rank) == abs(fl(j) - sq.file) && 1 <= rk(j)
        <= 6 && 1 <= fl(j) <= 6
}

/// `t` steps of `d` (a unit step -1, 0 or 1).
pub open spec fn scale(t: int, d: int) -> int {
    if d > 0 {
        t
    } else if d < 0 {
        -t
    } else {
        0
    }
}

/// The square `t` steps away from `sq` in direction (`dr`, `df`) is on the board.
pub open spec fn ray_on_board(sq: BoardPosition, dr: int, df: int, t: int) -> bool {
    0 <= sq.rank + scale(t, dr) < 8 && 0 <= sq.file + scale(t, df) < 8
}

/// The index of the square `t` steps away from `sq` in direction (`dr`, `df`).
pub open spec fn ray_square(sq: BoardPosition, dr: int, df: int, t: int) -> int {
    (sq.rank + scale(t, dr)) * 8 + sq.file + scale(t, df)
}

/// Walking from `sq` in direction (`dr`, `df`), the `t`-th square is reached: it is on the
/// board and none of the squares before it holds a blocker.
pub open spec fn ray_reaches(sq: BoardPosition, blockers: u64, dr: int, df: int, t: int) -> bool {
    1 <= t && ray_on_board(sq, dr, df, t) && forall|s: int|
        1 <= s < t ==> !bit(blockers, #[trigger] ray_square(sq, dr, df, s))
}

/// Square `j` is reached from `sq` in direction (`dr`, `df`), stopping on the first blocker.
pub open spec fn on_ray(sq: BoardPosition, blockers: u64, dr: int, df: int, j: int) -> bool {
    exists|t: int| ray_reaches(sq, blockers, dr, df, t) && j == #[trigger] ray_square(
        sq,
        dr,
        df,
        t,
    )
}

/// A rook on `sq` attacks `j`, given the blockers.
pub open spec fn rook_attack(sq: BoardPosition, blockers: u64, j: int) -> bool {
    on_ray(sq, blockers, 1, 0, j) || on_ray(sq, blockers, -1, 0, j) || on_ray(sq, blockers, 0, 1, j)
        || on_ray(sq, blockers, 0, -1, j)
}

/// A bishop on `sq` attacks `j`, given the blockers.
pub open spec fn bishop_attack(sq: BoardPosition, blockers: u64, j: int) -> bool {
    on_ray(sq, blockers, 1, 1, j) || on_ray(sq, blockers, 1, -1, j) || on_ray(sq, blockers, -1, 1, j)
        || on_ray(sq, blockers, -1, -1, j)
}

/// A knight's jump from any square, edge squares included, lands on the board, at most two
/// files and two ranks away: the file clamp never lets a jump wrap to the other side.
pub proof fn lemma_knight_stays_on_board(sq: BoardPosition, j: int)
    requires
        sq.valid(),
        knight_target(sq, j),
    ensures
        0 <= j < 64,
        abs(fl(j) - sq.file) <= 2,
        abs(rk(j) - sq.rank) <= 2,
        0 <= sq.file + (fl(j) - sq.file) < 8,
{
}

pub fn pawn_attack_mask(position: BoardPosition, color: PieceColor) -> (r: Bitboard)
    requires
        position.valid(),
    ensures
        forall|j: int| r.has(j) <==> pawn_attack_target(color, position, j),
{
    let mut board = Bitboard::empty();
    let mut j: u8 = 0;
    let rank = position.rank as i16;
    let file = position.file as i16;
    let fwd: i16 = match color {
        PieceColor::White => 1,
        PieceColor::Black => -1,
    };
    while j < 64
        invariant
            j <= 64,
            rank == position.rank,
            file == position.file,
            fwd == forward(color),
            forall|i: int| board.has(i) <==> (i < j && pawn_attack_target(color, position, i)),
        decreases 64 - j,
    {
        let dr: i16 = (j / 8) as i16 - rank;
        let df: i16 = (j % 8) as i16 - file;
        if dr == fwd && (df == 1 || df == -1) {
            board.set(j, true);
        }
        j = j + 1;
    }
    board
}

pub fn pawn_move_mask(position: BoardPosition, color: PieceColor) -> (r: Bitboard)
    requires
        position.valid(),
    ensures
        forall|j: int| r.has(j) <==> pawn_push_target(color, position, j),
{
    let mut board = Bitboard::empty();
    let mut j: u8 = 0;
    let rank = position.rank as i16;
    let file = position.file as i16;
    let (fwd, start): (i16, i16) = match color {
        PieceColor::White => (1, 1),
        PieceColor::Black => (-1, 6),
    };
    while j < 64
        invariant
            j <= 64,
            rank == position.rank,
            file == position.file,
            fwd == forward(color),
            start == pawn_start_rank(color),
            forall|i: int| board.has(i) <==> (i < j && pawn_push_target(color, position, i)),
        decreases 64 - j,
    {
        let dr: i16 = (j / 8) as i16 - rank;
        let df: i16 = (j % 8) as i16 - file;
        if df == 0 && (dr == fwd || (rank == start && dr == 2 * fwd)) {
            board.set(j, true);
        }
        j = j + 1;
    }
    board
}

pub fn knight_move_mask(position: BoardPosition) -> (r: Bitboard)
    requires
        position.valid(),
    ensures
        forall|j: int| r.has(j) <==> knight_target(position, j),
{
    let mut board = Bitboard::empty();
    let mut j: u8 = 0;
    let rank = position.rank as i16;
    let file = position.file as i16;
    while j < 64
        invariant
            j <= 64,
            rank == position.rank,
            file == position.file,
            forall|i: int| board.has(i) <==> (i < j && knight_target(position, i)),
        decreases 64 - j,
    {
        let dr: i16 = (j / 8) as i16 - rank;
        let df: i16 = (j % 8) as i16 - file;
        let ar: i16 = if dr < 0 { -dr } else { dr };
        let af: i16 = if df < 0 { -df } else { df };
        if (ar == 1 && af == 2) || (ar == 2 && af == 1) {
            board.set(j, true);
        }
        j = j + 1;
    }
    board
}

pub fn king_move_mask(position: BoardPosition) -> (r: Bitboard)
    requires
        position.valid(),
    ensures
        forall|j: int| r.has(j) <==> king_target(position, j),
{
    let mut board = Bitboard::empty();
    let mut j: u8 = 0;
    let rank = position.rank as i16;
    let file = position.file as i16;
    let index = position.index();
    while j < 64
        invariant
            j <= 64,
            rank == position.rank,
            file == position.file,
            index == position.idx(),
            forall|i: int| board.has(i) <==> (i < j && king_target(position, i)),
        decreases 64 - j,
    {
        let dr: i16 = (j / 8) as i16 - rank;
        let df: i16 = (j % 8) as i16 - file;
        if -1 <= dr && dr <= 1 && -1 <= df && df <= 1 && j != index {
            board.set(j, true);
        }
        j = j + 1;
    }
    board
}

pub fn bishop_occupancy_mask(position: BoardPosition) -> (r: Bitboard)
    requires
        position.valid(),
    ensures
        forall|j: int| r.has(j) <==> bishop_occupancy_target(position, j),
{
    let mut board = Bitboard::empty();
    let mut j: u8 = 0;
    let rank = position.rank as i16;
    let file = position.file as i16;
    let index = position.index();
    while j < 64
        invariant
            j <= 64,
            rank == position.rank,
            file == position.file,
            index == position.idx(),
            forall|i: int| board.has(i) <==> (i < j && bishop_occupancy_target(position, i)),
        decreases 64 - j,
    {
        let r: i16 = (j / 8) as i16;
        let f: i16 = (j % 8) as i16;
        let ar: i16 = if r < rank { rank - r } else { r - rank };
        let af: i16 = if f < file { file - f } else { f - file };
        if j != index && ar == af && 1 <= r && r <= 6 && 1 <= f && f <= 6 {
            board.set(j, true);
        }
        j = j + 1;
    }
    board
}

pub fn rook_occupancy_mask(position: BoardPosition) -> (r: Bitboard)
    requires
        position.valid(),
    ensures
        forall|j: int| r.has(j) <==> rook_occupancy_target(position, j),
{
    let mut board = Bitboard::empty();
    let mut j: u8 = 0;
    let index = position.index();
    while j < 64
        invariant
            j <= 64,
            index == position.idx(),
            position.valid(),
            forall|i: int| board.has(i) <==> (i < j && rook_occupancy_target(position, i)),
        decreases 64 - j,
    {
        let r: u8 = j / 8;
        let f: u8 = j % 8;
        if j != index && ((r == position.rank && 1 <= f && f <= 6) || (f == position.file && 1
            <= r && r <= 6)) {
            board.set(j, true);
        }
        j = j + 1;
    }
    board
}

/// The squares reached from `position` in direction (`dr`, `df`), up to and including the
/// first square that holds a blocker.
fn ray(position: BoardPosition, blockers: Bitboard, dr: i8, df: i8) -> (r: Bitboard)
    requires
        position.valid(),
        -1 <= dr <= 1,
        -1 <= df <= 1,
        dr != 0 || df != 0,
    ensures
        forall|j: int| r.has(j) <==> on_ray(position, blockers.0, dr as int, df as int, j),
{
    let mut board = Bitboard::empty();
    let mut rank: i8 = position.rank as i8 + dr;
    let mut file: i8 = position.file as i8 + df;
    let ghost mut t: int = 1;
    let mut blocked = false;
    while 0 <= rank && rank < 8 && 0 <= file && file < 8 && !blocked
        invariant
            position.valid(),
            -1 <= dr <= 1,
            -1 <= df <= 1,
            dr != 0 || df != 0,
            1 <= t <= 8,
            rank == position.rank + scale(t, dr as int),
            file == position.file + scale(t, df as int),
            blocked ==> !ray_reaches(position, blockers.0, dr as int, df as int, t),
            !blocked ==> forall|s: int|
                1 <= s < t ==> !bit(blockers.0, #[trigger] ray_square(position, dr as int, df as int, s)),
            !blocked ==> forall|s: int| 1 <= s < t ==> ray_on_board(position, dr as int, df as int, s),
            forall|u: int| t <= u ==> !ray_reaches(position, blockers.0, dr as int, df as int, u)
                || !blocked,
            forall|j: int|
                board.has(j) <==> exists|s: int|
                    1 <= s < t && ray_reaches(position, blockers.0, dr as int, df as int, s) && j
                        == #[trigger] ray_square(position, dr as int, df as int, s),
        decreases 8 - t,
    {
        let index: u8 = (rank as u8) * 8 + (file as u8);
        proof {
            assert(index == ray_square(position, dr as int, df as int, t));
            assert(ray_reaches(position, blockers.0, dr as int, df as int, t));
        }
        let ghost old_board = board;
        board.set(index, true);
        proof {
            assert forall|j: int|
                board.has(j) <==> exists|s: int|
                    1 <= s < t + 1 && ray_reaches(position, blockers.0, dr as int, df as int, s)
                        && j == #[trigger] ray_square(position, dr as int, df as int, s) by {
                if j == index {
                    assert(ray_reaches(position, blockers.0, dr as int, df as int, t) && j
                        == ray_square(position, dr as int, df as int, t));
                } else {
                    if old_board.has(j) {
                    } else {
                        if exists|s: int|
                            1 <= s < t + 1 && ray_reaches(position, blockers.0, dr as int, df as int, s)
                                && j == #[trigger] ray_square(position, dr as int, df as int, s) {
                            let s = choose|s: int|
                                1 <= s < t + 1 && ray_reaches(position, blockers.0, dr as int, df as int, s)
                                    && j == #[trigger] ray_square(position, dr as int, df as int, s);
                            assert(s != t);
                        }
                    }
                }
            }
        }
        if blockers.get(index) {
            blocked = true;
            proof {
                assert(bit(blockers.0, ray_square(position, dr as int, df as int, t)));
                assert forall|u: int| t + 1 <= u implies !ray_reaches(position, blockers.0, dr as int, df as int, u) by {
                    assert(bit(blockers.0, ray_square(position, dr as int, df as int, t)));
                }
            }
        }
        rank = rank + dr;
        file = file + df;
        proof {
            t = t + 1;
        }
    }
    proof {
        assert forall|j: int| on_ray(position, blockers.0, dr as int, df as int, j) implies board.has(j) by {
            {
                let u = choose|u: int| ray_reaches(position, blockers.0, dr as int, df as int, u) && j
                    == #[trigger] ray_square(position, dr as int, df as int, u);
                if u >= t {
                    if !blocked {
                        assert(!ray_on_board(position, dr as int, df as int, t));
                        assert(1 <= t <= u);
                        assert(!ray_on_board(position, dr as int, df as int, u));
                    }
                }
            }
        }
    }
    board
}

pub fn rook_move_mask(position: BoardPosition, piece_mask: Bitboard) -> (r: Bitboard)
    requires
        position.valid(),
    ensures
        forall|j: int| r.has(j) <==> rook_attack(position, piece_mask.0, j),
{
    ray(position, piece_mask, 1, 0).or(ray(position, piece_mask, -1, 0)).or(
        ray(position, piece_mask, 0, 1),
    ).or(ray(position, piece_mask, 0, -1))
}

pub fn bishop_move_mask(position: BoardPosition, piece_mask: Bitboard) -> (r: Bitboard)
    requires
        position.valid(),
    ensures
        forall|j: int| r.has(j) <==> bishop_attack(position, piece_mask.0, j),
{
    ray(position, piece_mask, 1, 1).or(ray(position, piece_mask, 1, -1)).or(
        ray(position, piece_mask, -1, 1),
    ).or(ray(position, piece_mask, -1, -1))
}

/// The number of squares in a bitboard.
pub fn count_squares(mask: Bitboard) -> (r: u32)
    ensures
        r == popcount(mask.0),
        r <= 64,
{
    let mut count: u32 = 0;
    let mut i: u8 = 0;
    while i < 64
        invariant
            i <= 64,
            count == count_bits_below(mask.0, i as int),
            count <= i,
        decreases 64 - i,
    {
        if mask.get(i) {
            count = count + 1;
        }
        i = i + 1;
    }
    count
}

/// Every subset of the squares of `mask`, each once: the `p`-th one holds the mask squares
/// whose rank among the mask's squares (in increasing order) is a set bit of `p`. There are
/// 2^k of them for a mask of k squares, the first one empty and the last one the mask.
pub fn generate_obstruction_maps(mask: Bitboard) -> (r: Vec<Bitboard>)
    requires
        popcount(mask.0) < 32,
    ensures
        r.len() == vstd::arithmetic::power2::pow2(popcount(mask.0)),
        forall|p: int, i: int|
            0 <= p < r.len() ==> (#[trigger] r[p].has(i) <==> (mask.has(i) && bit(p as u64, count_bits_below(mask.0, i) as int))),
        forall|p: int, q: int| 0 <= p < q < r.len() ==> r[p] != r[q],
        r[0].0 == 0,
        r[r.len() - 1] == mask,
{
    let indices = mask.filled_indices();
    let count = count_squares(mask);
    proof {
        assert(count < 32);
        vstd::arithmetic::power2::lemma2_to64();
        vstd::arithmetic::power2::lemma_pow2_strictly_increases(count as nat, 32);
    }
    let total: u64 = 1u64 << count;
    proof {
        vstd::bits::lemma_u64_shl_is_mul(1, count as u64);
        vstd::arithmetic::power2::lemma_pow2(count as nat);
        assert forall|i: int| 0 <= i < 64 && mask.has(i) implies count_bits_below(mask.0, i) < count by {
            let k = choose|k: int| 0 <= k < indices.len() && indices[k] == i;
            assert(count_bits_below(mask.0, indices[k] as int) == k);
        }
    }
    let mut boards: Vec<Bitboard> = Vec::new();
    let mut p: u64 = 0;
    while p < total
        invariant
            p <= total,
            total == vstd::arithmetic::power2::pow2(count as nat),
            total == 1u64 << count,
            count < 32,
            count == indices.len(),
            boards.len() == p,
            forall|q: int, i: int|
                0 <= q < boards.len() ==> (#[trigger] boards[q].has(i) <==> (mask.has(i) && bit(q as u64, count_bits_below(mask.0, i) as int))),
            p > 0 ==> boards[0].0 == 0,
            forall|k: int| 0 <= k < indices.len() ==> indices[k] < 64 && mask.has(indices[k] as int),
            forall|k: int| 0 <= k < indices.len() ==> count_bits_below(mask.0, #[trigger] indices[k] as int) == k,
            forall|i: int| 0 <= i < 64 && mask.has(i) ==> exists|k: int| 0 <= k < indices.len() && indices[k] == i,
            forall|i: int| 0 <= i < 64 && mask.has(i) ==> count_bits_below(mask.0, i) < count,
        decreases total - p,
    {
        let mut board = Bitboard::empty();
        let mut j: usize = 0;
        while j < indices.len() && j < 64
            invariant
                j <= indices.len(),
                indices.len() < 32,
                forall|i: int| #[trigger] board.has(i) <==> exists|jj: int| 0 <= jj < j && indices[jj] == i && bit(p, jj),
                p == 0 ==> board.0 == 0,
                forall|k: int| 0 <= k < indices.len() ==> indices[k] < 64 && mask.has(indices[k] as int),
            decreases indices.len() - j,
        {
            let ghost before = board;
            if (p >> j as u64) & 1 == 1 {
                proof {
                    if p == 0 {
                        lemma_zero_bits(j as u64);
                    }
                }
                board.set(indices[j], true);
            }
            proof {
                let taken = bit(p, j as int);
                assert forall|i: int| #[trigger] board.has(i) <==> exists|jj: int| 0 <= jj < j + 1 && indices[jj] == i && bit(p, jj) by {
                    if exists|jj: int| 0 <= jj < j + 1 && indices[jj] == i && bit(p, jj) {
                        let jj = choose|jj: int| 0 <= jj < j + 1 && indices[jj] == i && bit(p, jj);
                        if jj < j {
                            assert(before.has(i));
                        } else {
                            assert(taken);
                        }
                    }
                    if board.has(i) {
                        if before.has(i) {
                            let jj = choose|jj: int| 0 <= jj < j && indices[jj] == i && bit(p, jj);
                            assert(0 <= jj < j + 1 && indices[jj] == i && bit(p, jj));
                        } else {
                            assert(taken && i == indices[j as int]);
                            assert(0 <= j < j + 1 && indices[j as int] == i && bit(p, j as int));
                        }
                    }
                }
            }
            j = j + 1;
        }
        proof {
            assert forall|i: int| #[trigger] board.has(i) <==> (mask.has(i) && bit(p, count_bits_below(mask.0, i) as int)) by {
                if board.has(i) {
                    let jj = choose|jj: int| 0 <= jj < j && indices[jj] == i && bit(p, jj);
                    assert(count_bits_below(mask.0, indices[jj] as int) == jj);
                }
                if mask.has(i) && bit(p, count_bits_below(mask.0, i) as int) {
                    let k = choose|k: int| 0 <= k < indices.len() && indices[k] == i;
                    assert(count_bits_below(mask.0, indices[k] as int) == k);
                }
            }
        }
        let ghost before_boards = boards@;
        boards.push(board);
        proof {
            assert forall|q: int, i: int|
                0 <= q < boards.len() implies (#[trigger] boards[q].has(i) <==> (mask.has(i) && bit(q as u64, count_bits_below(mask.0, i) as int))) by {
                if q < before_boards.len() {
                    assert(boards[q] == before_boards[q]);
                }
            }
        }
        p = p + 1;
    }
    proof {
        assert forall|a: int, b: int| 0 <= a < b < boards.len() implies boards[a] != boards[b] by {
            let pa = a as u64;
            let pb = b as u64;
            lemma_subset_numbers_differ(pa, pb, count as u64);
            let j = choose|j: int| 0 <= j < count && bit(pa, j) != bit(pb, j);
            let i = indices[j] as int;
            assert(count_bits_below(mask.0, indices[j] as int) == j);
            assert(boards[a].has(i) != boards[b].has(i));
        }
        let last = (total - 1) as u64;
        lemma_all_low_bits(count as u64);
        assert forall|i: int| bit(boards[last as int].0, i) == bit(mask.0, i) by {
            assert(boards[last as int].has(i) == mask.has(i));
        }
        lemma_same_bits(boards[last as int].0, mask.0);
    }
    boards
}

/// Two different numbers below 2^k differ in one of their k low bits.
proof fn lemma_subset_numbers_differ(a: u64, b: u64, k: u64)
    requires
        a != b,
        a < (1u64 << k),
        b < (1u64 << k),
        k < 64,
    ensures
        exists|j: int| 0 <= j < k && bit(a, j) != bit(b, j),
{
    if forall|j: int| 0 <= j < k ==> bit(a, j) == bit(b, j) {
        assert forall|j: int| bit(a, j) == bit(b, j) by {
            if k <= j < 64 {
                let ju = j as u64;
                assert(a < (1u64 << k) && k <= ju && ju < 64 ==> (a >> ju) & 1 != 1) by (bit_vector);
                assert(b < (1u64 << k) && k <= ju && ju < 64 ==> (b >> ju) & 1 != 1) by (bit_vector);
            }
        }
        lemma_same_bits(a, b);
    }
}

/// The number 2^k - 1 has its k low bits set.
proof fn lemma_all_low_bits(k: u64)
    requires
        k < 64,
    ensures
        forall|j: int| 0 <= j < k ==> #[trigger] bit(((1u64 << k) - 1) as u64, j),
{
    assert forall|j: int| 0 <= j < k implies #[trigger] bit(((1u64 << k) - 1) as u64, j) by {
        let ju = j as u64;
        assert(ju < k && k < 64 ==> ((((1u64 << k) - 1) as u64 >> ju) & 1 == 1)) by (bit_vector);
    }
}

proof fn lemma_zero_bits(j: u64)
    requires
        j < 64,
    ensures
        (0u64 >> j) & 1 != 1,
{
    assert((0u64 >> j) & 1 != 1) by (bit_vector)
        requires
            j < 64,
    ;
}

} // verus!
