use chess_bot::bitboards::Bitboard;
use chess_bot::lookup::{LookupTables, MagicLookup, BISHOP_TABLE_SIZE, ROOK_TABLE_SIZE};
use chess_bot::magics::{bishop_magic, rook_magic};
use chess_bot::masks::{
    bishop_move_mask, bishop_occupancy_mask, generate_obstruction_maps, king_move_mask,
    knight_move_mask, pawn_attack_mask, pawn_move_mask, rook_move_mask, rook_occupancy_mask,
};
use chess_bot::piece::PieceColor;
use chess_bot::position::BoardPosition;
use chess_bot::score::{Score, ScoreBound};

fn squares(b: Bitboard) -> Vec<u8> {
    b.filled_indices()
}

#[test]
fn knight_on_edges_stays_on_board() {
    for i in 0..64u8 {
        let pos = BoardPosition::from_index(i);
        if pos.rank != 0 && pos.rank != 7 && pos.file != 0 && pos.file != 7 {
            continue;
        }
        for j in squares(knight_move_mask(pos)) {
            let to = BoardPosition::from_index(j);
            let dr = (to.rank as i32 - pos.rank as i32).abs();
            let df = (to.file as i32 - pos.file as i32).abs();
            assert!((dr == 1 && df == 2) || (dr == 2 && df == 1), "{} -> {}", i, j);
        }
    }
    assert_eq!(squares(knight_move_mask(BoardPosition::from_index(0))), vec![10, 17]);
    assert_eq!(squares(knight_move_mask(BoardPosition::from_index(7))), vec![13, 22]);
}

#[test]
fn bishop_in_empty_corner_has_seven_moves() {
    let tables = LookupTables::new();
    for corner in [0u8, 7, 56, 63] {
        let pos = BoardPosition::from_index(corner);
        let attacks = tables.bishop_lookup(&pos, Bitboard::from_index(corner));
        assert_eq!(squares(attacks).len(), 7);
    }
    let a1 = tables.bishop_lookup(&BoardPosition::from_index(0), Bitboard::empty());
    assert_eq!(squares(a1), vec![9, 18, 27, 36, 45, 54, 63]);
}

#[test]
fn magic_index_in_range_for_every_subset() {
    for i in 0..64u8 {
        let pos = BoardPosition::from_index(i);
        for (mask, magic, size) in [
            (rook_occupancy_mask(pos), rook_magic(i), ROOK_TABLE_SIZE),
            (bishop_occupancy_mask(pos), bishop_magic(i), BISHOP_TABLE_SIZE),
        ] {
            let subsets = generate_obstruction_maps(mask);
            assert_eq!(subsets.len(), 1usize << mask.inner().count_ones());
            assert_eq!(subsets[0], Bitboard::empty());
            assert_eq!(*subsets.last().unwrap(), mask);
            let mut words: Vec<u64> = subsets.iter().map(|b| b.inner()).collect();
            words.sort();
            words.dedup();
            assert_eq!(words.len(), subsets.len());
            for b in subsets {
                assert_eq!(b.inner() & !mask.inner(), 0);
                assert!(magic.get_index(b) < size);
            }
        }
    }
}

#[test]
fn magic_lookup_matches_ray_walk() {
    let tables = LookupTables::new();
    let blockers = Bitboard::from_value(0x0042_1000_2400_8100);
    for i in 0..64u8 {
        let pos = BoardPosition::from_index(i);
        let rook_masked = blockers.and(rook_occupancy_mask(pos));
        let bishop_masked = blockers.and(bishop_occupancy_mask(pos));
        assert_eq!(tables.rook_lookup(&pos, blockers), rook_move_mask(pos, rook_masked));
        assert_eq!(tables.bishop_lookup(&pos, blockers), bishop_move_mask(pos, bishop_masked));
        assert_eq!(
            tables.queen_lookup(&pos, blockers),
            rook_move_mask(pos, rook_masked).or(bishop_move_mask(pos, bishop_masked))
        );
    }
}

#[test]
fn rook_rays_stop_on_blockers() {
    let d4 = BoardPosition::from_rank_file(3, 3);
    let blockers = Bitboard::from_index(3 * 8 + 5).or(Bitboard::from_index(5 * 8 + 3));
    assert_eq!(
        squares(rook_move_mask(d4, blockers)),
        vec![3, 11, 19, 24, 25, 26, 28, 29, 35, 43]
    );
}

#[test]
fn occupancy_masks() {
    assert_eq!(squares(rook_occupancy_mask(BoardPosition::from_index(0))).len(), 12);
    assert_eq!(squares(rook_occupancy_mask(BoardPosition::from_index(27))).len(), 10);
    assert_eq!(squares(bishop_occupancy_mask(BoardPosition::from_index(0))).len(), 6);
    assert_eq!(squares(bishop_occupancy_mask(BoardPosition::from_index(27))).len(), 9);
}

#[test]
fn king_and_pawn_masks() {
    assert_eq!(squares(king_move_mask(BoardPosition::from_index(0))), vec![1, 8, 9]);
    assert_eq!(squares(king_move_mask(BoardPosition::from_index(7))), vec![6, 14, 15]);
    assert_eq!(squares(pawn_move_mask(BoardPosition::from_index(12), PieceColor::White)), vec![20, 28]);
    assert_eq!(squares(pawn_move_mask(BoardPosition::from_index(52), PieceColor::Black)), vec![36, 44]);
    assert_eq!(squares(pawn_attack_mask(BoardPosition::from_index(8), PieceColor::White)), vec![17]);
    assert_eq!(squares(pawn_attack_mask(BoardPosition::from_index(15), PieceColor::Black)), vec![6]);
}

#[test]
fn pawn_lookup_blocks_double_push() {
    let tables = LookupTables::new();
    let e2 = BoardPosition::from_rank_file(1, 4);
    let own = Bitboard::from_index(12);
    assert_eq!(squares(tables.pawn_lookup(&e2, PieceColor::White, own, Bitboard::empty())), vec![20, 28]);
    let blocked = own.or(Bitboard::from_index(20));
    assert!(squares(tables.pawn_lookup(&e2, PieceColor::White, blocked, Bitboard::empty())).is_empty());
    let far = own.or(Bitboard::from_index(28));
    assert_eq!(squares(tables.pawn_lookup(&e2, PieceColor::White, far, Bitboard::empty())), vec![20]);
    let enemy = Bitboard::from_index(21);
    assert_eq!(squares(tables.pawn_lookup(&e2, PieceColor::White, own.or(enemy), enemy)), vec![20, 21, 28]);
}

#[test]
fn magic_get_index_formula() {
    let m = MagicLookup { magic: 3, length: 4, offset: 100 };
    let b = Bitboard::from_value(1u64 << 62);
    assert_eq!(m.get_index(b), ((b.inner().wrapping_mul(3) >> 60) + 100) as usize);
    assert_eq!(m.get_index(b), 112);
}

#[test]
fn score_tags() {
    for v in [-1000, -1, 0, 7, 12345] {
        let s = Score::exact(v);
        assert_eq!(s.bound(), ScoreBound::Exact);
        assert_eq!(s.make_upper_bound().bound(), ScoreBound::UpperBound);
        assert_eq!(s.make_lower_bound().bound(), ScoreBound::LowerBound);
        assert_eq!(s.neg().neg(), s);
        assert_eq!(s.make_upper_bound().make_exact(), s);
        assert_eq!(s.make_lower_bound().make_exact(), s);
        assert_eq!(s.make_lower_bound().neg().bound(), ScoreBound::UpperBound);
    }
    assert_eq!(Score::exact(3).0, 12);
    assert_eq!(Score::lowest().neg().0, i32::MAX - 3);
    assert_eq!(Score::initial_alpha().neg().0, i32::MAX - 4);
}

#[test]
fn square_names() {
    assert_eq!(BoardPosition::from_rank_file(3, 4).to_string(), "e4");
    assert_eq!(BoardPosition::from_index(63).index(), 63);
}
