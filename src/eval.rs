use vstd::prelude::*;

use crate::piece::PieceType;

verus! {

/// The piece-square bonuses of a king, written from white's side: the first row is the
/// eighth rank.
pub open spec fn king_table() -> Seq<int> {
    seq![
        -30, -40, -40, -50, -50, -40, -40, -30,
        -30, -40, -40, -50, -50, -40, -40, -30,
        -30, -40, -40, -50, -50, -40, -40, -30,
        -30, -40, -40, -50, -50, -40, -40, -30,
        -20, -30, -30, -40, -40, -30, -30, -20,
        -10, -20, -20, -20, -20, -20, -20, -10,
        20, 20, 0, 0, 0, 0, 20, 20,
        20, 30, 10, 0, 0, 10, 30, 20,
    ]
}

/// The piece-square bonuses of a queen, written from white's side: the first row is the
/// eighth rank.
pub open spec fn queen_table() -> Seq<int> {
    seq![
        -20, -10, -10, -5, -5, -10, -10, -20,
        -10, 0, 0, 0, 0, 0, 0, -10,
        -10, 0, 5, 5, 5, 5, 0, -10,
        -5, 0, 5, 5, 5, 5, 0, -5,
        0, 0, 5, 5, 5, 5, 0, -5,
        -10, 5, 5, 5, 5, 5, 0, -10,
        -10, 0, 5, 0, 0, 0, 0, -10,
        -20, -10, -10, -5, -5, -10, -10, -20,
    ]
}

/// The piece-square bonuses of a bishop, written from white's side: the first row is the
/// eighth rank.
pub open spec fn bishop_table() -> Seq<int> {
    seq![
        -20, -10, -10, -10, -10, -10, -10, -20,
        -10, 0, 0, 0, 0, 0, 0, -10,
        -10, 0, 5, 10, 10, 5, 0, -10,
        -10, 5, 5, 10, 10, 5, 5, -10,
        -10, 0, 10, 10, 10, 10, 0, -10,
        -10, 10, 10, 10, 10, 10, 10, -10,
        -10, 5, 0, 0, 0, 0, 5, -10,
        -20, -10, -10, -10, -10, -10, -10, -20,
    ]
}

/// The piece-square bonuses of a knight, written from white's side: the first row is the
/// eighth rank.
pub open spec fn knight_table() -> Seq<int> {
    seq![
        -50, -40, -30, -30, -30, -30, -40, -50,
        -40, -20, 0, 0, 0, 0, -20, -40,
        -30, 0, 10, 15, 15, 10, 0, -30,
        -30, 5, 15, 20, 20, 15, 5, -30,
        -30, 0, 15, 20, 20, 15, 0, -30,
        -30, 5, 10, 15, 15, 10, 5, -30,
        -40, -20, 0, 5, 5, 0, -20, -40,
        -50, -40, -30, -30, -30, -30, -40, -50,
    ]
}

/// The piece-square bonuses of a rook, written from white's side: the first row is the
/// eighth rank.
pub open spec fn rook_table() -> Seq<int> {
    seq![
        0, 0, 0, 0, 0, 0, 0, 0,
        5, 10, 10, 10, 10, 10, 10, 5,
        -5, 0, 0, 0, 0, 0, 0, -5,
        -5, 0, 0, 0, 0, 0, 0, -5,
        -5, 0, 0, 0, 0, 0, 0, -5,
        -5, 0, 0, 0, 0, 0, 0, -5,
        -5, 0, 0, 0, 0, 0, 0, -5,
        0, 0, 0, 5, 5, 0, 0, 0,
    ]
}

/// The piece-square bonuses of a pawn, written from white's side: the first row is the
/// eighth rank.
pub open spec fn pawn_table() -> Seq<int> {
    seq![
        0, 0, 0, 0, 0, 0, 0, 0,
        50, 50, 50, 50, 50, 50, 50, 50,
        10, 10, 20, 30, 30, 20, 10, 10,
        5, 5, 10, 25, 25, 10, 5, 5,
        0, 0, 0, 20, 20, 0, 0, 0,
        5, -5, -10, 0, 0, -10, -5, 5,
        5, 10, 10, -20, -20, 10, 10, 5,
        0, 0, 0, 0, 0, 0, 0, 0,
    ]
}

/// The piece-square table of a kind.
pub open spec fn pst_table(k: PieceType) -> Seq<int> {
    match k {
        PieceType::King => king_table(),
        PieceType::Queen => queen_table(),
        PieceType::Bishop => bishop_table(),
        PieceType::Knight => knight_table(),
        PieceType::Rook => rook_table(),
        PieceType::Pawn => pawn_table(),
    }
}

fn king_bonus(i: usize) -> (r: i32)
    requires
        i < 64,
    ensures
        r == king_table()[i as int],
        -50 <= r <= 50,
{
    let t: [i32; 64] = [
        -30i32, -40i32, -40i32, -50i32, -50i32, -40i32, -40i32, -30i32,
        -30i32, -40i32, -40i32, -50i32, -50i32, -40i32, -40i32, -30i32,
        -30i32, -40i32, -40i32, -50i32, -50i32, -40i32, -40i32, -30i32,
        -30i32, -40i32, -40i32, -50i32, -50i32, -40i32, -40i32, -30i32,
        -20i32, -30i32, -30i32, -40i32, -40i32, -30i32, -30i32, -20i32,
        -10i32, -20i32, -20i32, -20i32, -20i32, -20i32, -20i32, -10i32,
        20i32, 20i32, 0i32, 0i32, 0i32, 0i32, 20i32, 20i32,
        20i32, 30i32, 10i32, 0i32, 0i32, 10i32, 30i32, 20i32,
    ];
    proof {
        assert(t@ =~= seq![
            -30i32, -40i32, -40i32, -50i32, -50i32, -40i32, -40i32, -30i32,
            -30i32, -40i32, -40i32, -50i32, -50i32, -40i32, -40i32, -30i32,
            -30i32, -40i32, -40i32, -50i32, -50i32, -40i32, -40i32, -30i32,
            -30i32, -40i32, -40i32, -50i32, -50i32, -40i32, -40i32, -30i32,
            -20i32, -30i32, -30i32, -40i32, -40i32, -30i32, -30i32, -20i32,
            -10i32, -20i32, -20i32, -20i32, -20i32, -20i32, -20i32, -10i32,
            20i32, 20i32, 0i32, 0i32, 0i32, 0i32, 20i32, 20i32,
            20i32, 30i32, 10i32, 0i32, 0i32, 10i32, 30i32, 20i32,
        ]);
        assert(t@.map_values(|x: i32| x as int) =~= king_table());
    }
    t[i]
}

fn queen_bonus(i: usize) -> (r: i32)
    requires
        i < 64,
    ensures
        r == queen_table()[i as int],
        -50 <= r <= 50,
{
    let t: [i32; 64] = [
        -20i32, -10i32, -10i32, -5i32, -5i32, -10i32, -10i32, -20i32,
        -10i32, 0i32, 0i32, 0i32, 0i32, 0i32, 0i32, -10i32,
        -10i32, 0i32, 5i32, 5i32, 5i32, 5i32, 0i32, -10i32,
        -5i32, 0i32, 5i32, 5i32, 5i32, 5i32, 0i32, -5i32,
        0i32, 0i32, 5i32, 5i32, 5i32, 5i32, 0i32, -5i32,
        -10i32, 5i32, 5i32, 5i32, 5i32, 5i32, 0i32, -10i32,
        -10i32, 0i32, 5i32, 0i32, 0i32, 0i32, 0i32, -10i32,
        -20i32, -10i32, -10i32, -5i32, -5i32, -10i32, -10i32, -20i32,
    ];
    proof {
        assert(t@ =~= seq![
            -20i32, -10i32, -10i32, -5i32, -5i32, -10i32, -10i32, -20i32,
            -10i32, 0i32, 0i32, 0i32, 0i32, 0i32, 0i32, -10i32,
            -10i32, 0i32, 5i32, 5i32, 5i32, 5i32, 0i32, -10i32,
            -5i32, 0i32, 5i32, 5i32, 5i32, 5i32, 0i32, -5i32,
            0i32, 0i32, 5i32, 5i32, 5i32, 5i32, 0i32, -5i32,
            -10i32, 5i32, 5i32, 5i32, 5i32, 5i32, 0i32, -10i32,
            -10i32, 0i32, 5i32, 0i32, 0i32, 0i32, 0i32, -10i32,
            -20i32, -10i32, -10i32, -5i32, -5i32, -10i32, -10i32, -20i32,
        ]);
        assert(t@.map_values(|x: i32| x as int) =~= queen_table());
    }
    t[i]
}

fn bishop_bonus(i: usize) -> (r: i32)
    requires
        i < 64,
    ensures
        r == bishop_table()[i as int],
        -50 <= r <= 50,
{
    let t: [i32; 64] = [
        -20i32, -10i32, -10i32, -10i32, -10i32, -10i32, -10i32, -20i32,
        -10i32, 0i32, 0i32, 0i32, 0i32, 0i32, 0i32, -10i32,
        -10i32, 0i32, 5i32, 10i32, 10i32, 5i32, 0i32, -10i32,
        -10i32, 5i32, 5i32, 10i32, 10i32, 5i32, 5i32, -10i32,
        -10i32, 0i32, 10i32, 10i32, 10i32, 10i32, 0i32, -10i32,
        -10i32, 10i32, 10i32, 10i32, 10i32, 10i32, 10i32, -10i32,
        -10i32, 5i32, 0i32, 0i32, 0i32, 0i32, 5i32, -10i32,
        -20i32, -10i32, -10i32, -10i32, -10i32, -10i32, -10i32, -20i32,
    ];
    proof {
        assert(t@ =~= seq![
            -20i32, -10i32, -10i32, -10i32, -10i32, -10i32, -10i32, -20i32,
            -10i32, 0i32, 0i32, 0i32, 0i32, 0i32, 0i32, -10i32,
            -10i32, 0i32, 5i32, 10i32, 10i32, 5i32, 0i32, -10i32,
            -10i32, 5i32, 5i32, 10i32, 10i32, 5i32, 5i32, -10i32,
            -10i32, 0i32, 10i32, 10i32, 10i32, 10i32, 0i32, -10i32,
            -10i32, 10i32, 10i32, 10i32, 10i32, 10i32, 10i32, -10i32,
            -10i32, 5i32, 0i32, 0i32, 0i32, 0i32, 5i32, -10i32,
            -20i32, -10i32, -10i32, -10i32, -10i32, -10i32, -10i32, -20i32,
        ]);
        assert(t@.map_values(|x: i32| x as int) =~= bishop_table());
    }
    t[i]
}

fn knight_bonus(i: usize) -> (r: i32)
    requires
        i < 64,
    ensures
        r == knight_table()[i as int],
        -50 <= r <= 50,
{
    let t: [i32; 64] = [
        -50i32, -40i32, -30i32, -30i32, -30i32, -30i32, -40i32, -50i32,
        -40i32, -20i32, 0i32, 0i32, 0i32, 0i32, -20i32, -40i32,
        -30i32, 0i32, 10i32, 15i32, 15i32, 10i32, 0i32, -30i32,
        -30i32, 5i32, 15i32, 20i32, 20i32, 15i32, 5i32, -30i32,
        -30i32, 0i32, 15i32, 20i32, 20i32, 15i32, 0i32, -30i32,
        -30i32, 5i32, 10i32, 15i32, 15i32, 10i32, 5i32, -30i32,
        -40i32, -20i32, 0i32, 5i32, 5i32, 0i32, -20i32, -40i32,
        -50i32, -40i32, -30i32, -30i32, -30i32, -30i32, -40i32, -50i32,
    ];
    proof {
        assert(t@ =~= seq![
            -50i32, -40i32, -30i32, -30i32, -30i32, -30i32, -40i32, -50i32,
            -40i32, -20i32, 0i32, 0i32, 0i32, 0i32, -20i32, -40i32,
            -30i32, 0i32, 10i32, 15i32, 15i32, 10i32, 0i32, -30i32,
            -30i32, 5i32, 15i32, 20i32, 20i32, 15i32, 5i32, -30i32,
            -30i32, 0i32, 15i32, 20i32, 20i32, 15i32, 0i32, -30i32,
            -30i32, 5i32, 10i32, 15i32, 15i32, 10i32, 5i32, -30i32,
            -40i32, -20i32, 0i32, 5i32, 5i32, 0i32, -20i32, -40i32,
            -50i32, -40i32, -30i32, -30i32, -30i32, -30i32, -40i32, -50i32,
        ]);
        assert(t@.map_values(|x: i32| x as int) =~= knight_table());
    }
    t[i]
}

fn rook_bonus(i: usize) -> (r: i32)
    requires
        i < 64,
    ensures
        r == rook_table()[i as int],
        -50 <= r <= 50,
{
    let t: [i32; 64] = [
        0i32, 0i32, 0i32, 0i32, 0i32, 0i32, 0i32, 0i32,
        5i32, 10i32, 10i32, 10i32, 10i32, 10i32, 10i32, 5i32,
        -5i32, 0i32, 0i32, 0i32, 0i32, 0i32, 0i32, -5i32,
        -5i32, 0i32, 0i32, 0i32, 0i32, 0i32, 0i32, -5i32,
        -5i32, 0i32, 0i32, 0i32, 0i32, 0i32, 0i32, -5i32,
        -5i32, 0i32, 0i32, 0i32, 0i32, 0i32, 0i32, -5i32,
        -5i32, 0i32, 0i32, 0i32, 0i32, 0i32, 0i32, -5i32,
        0i32, 0i32, 0i32, 5i32, 5i32, 0i32, 0i32, 0i32,
    ];
    proof {
        assert(t@ =~= seq![
            0i32, 0i32, 0i32, 0i32, 0i32, 0i32, 0i32, 0i32,
            5i32, 10i32, 10i32, 10i32, 10i32, 10i32, 10i32, 5i32,
            -5i32, 0i32, 0i32, 0i32, 0i32, 0i32, 0i32, -5i32,
            -5i32, 0i32, 0i32, 0i32, 0i32, 0i32, 0i32, -5i32,
            -5i32, 0i32, 0i32, 0i32, 0i32, 0i32, 0i32, -5i32,
            -5i32, 0i32, 0i32, 0i32, 0i32, 0i32, 0i32, -5i32,
            -5i32, 0i32, 0i32, 0i32, 0i32, 0i32, 0i32, -5i32,
            0i32, 0i32, 0i32, 5i32, 5i32, 0i32, 0i32, 0i32,
        ]);
        assert(t@.map_values(|x: i32| x as int) =~= rook_table());
    }
    t[i]
}

fn pawn_bonus(i: usize) -> (r: i32)
    requires
        i < 64,
    ensures
        r == pawn_table()[i as int],
        -50 <= r <= 50,
{
    let t: [i32; 64] = [
        0i32, 0i32, 0i32, 0i32, 0i32, 0i32, 0i32, 0i32,
        50i32, 50i32, 50i32, 50i32, 50i32, 50i32, 50i32, 50i32,
        10i32, 10i32, 20i32, 30i32, 30i32, 20i32, 10i32, 10i32,
        5i32, 5i32, 10i32, 25i32, 25i32, 10i32, 5i32, 5i32,
        0i32, 0i32, 0i32, 20i32, 20i32, 0i32, 0i32, 0i32,
        5i32, -5i32, -10i32, 0i32, 0i32, -10i32, -5i32, 5i32,
        5i32, 10i32, 10i32, -20i32, -20i32, 10i32, 10i32, 5i32,
        0i32, 0i32, 0i32, 0i32, 0i32, 0i32, 0i32, 0i32,
    ];
    proof {
        assert(t@ =~= seq![
            0i32, 0i32, 0i32, 0i32, 0i32, 0i32, 0i32, 0i32,
            50i32, 50i32, 50i32, 50i32, 50i32, 50i32, 50i32, 50i32,
            10i32, 10i32, 20i32, 30i32, 30i32, 20i32, 10i32, 10i32,
            5i32, 5i32, 10i32, 25i32, 25i32, 10i32, 5i32, 5i32,
            0i32, 0i32, 0i32, 20i32, 20i32, 0i32, 0i32, 0i32,
            5i32, -5i32, -10i32, 0i32, 0i32, -10i32, -5i32, 5i32,
            5i32, 10i32, 10i32, -20i32, -20i32, 10i32, 10i32, 5i32,
            0i32, 0i32, 0i32, 0i32, 0i32, 0i32, 0i32, 0i32,
        ]);
        assert(t@.map_values(|x: i32| x as int) =~= pawn_table());
    }
    t[i]
}
/// The bonus of a kind on the table square of index `i`.
pub fn pst_bonus(kind: PieceType, i: usize) -> (r: i32)
    requires
        i < 64,
    ensures
        r == pst_table(kind)[i as int],
        -50 <= r <= 50,
{
    match kind {
        PieceType::King => king_bonus(i),
        PieceType::Queen => queen_bonus(i),
        PieceType::Bishop => bishop_bonus(i),
        PieceType::Knight => knight_bonus(i),
        PieceType::Rook => rook_bonus(i),
        PieceType::Pawn => pawn_bonus(i),
    }
}

} // verus!
