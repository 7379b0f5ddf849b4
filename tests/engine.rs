use std::time::{Duration, Instant};

use chess_bot::board::{FastBoard, FenError, MoveError};
use chess_bot::movement::{CastleDirection, Move, Promotion};
use chess_bot::piece::{Piece, PieceColor, PieceType};
use chess_bot::position::BoardPosition;
use chess_bot::search::{EndState, MoveEngine};

fn square(name: &str) -> BoardPosition {
    let b = name.as_bytes();
    BoardPosition::from_rank_file(b[1] - b'1', b[0] - b'a')
}

fn direct(text: &str) -> Move {
    Move::Direct { from: square(&text[0..2]), to: square(&text[2..4]), promotion: None }
}

fn legal_moves(board: &mut FastBoard) -> Vec<Move> {
    let mut legal = Vec::new();
    for m in board.calculate_pseudo_moves() {
        match board.make_move(m) {
            Ok(()) => {
                board.unmake_last_move();
                legal.push(m);
            }
            Err(MoveError::IllegalMove) => {}
            Err(e) => panic!("candidate move {:?} gave {:?}", m, e),
        }
    }
    legal
}

#[test]
fn start_position_has_twenty_legal_moves() {
    let mut board = FastBoard::initial();
    let legal = legal_moves(&mut board);
    assert_eq!(legal.len(), 20);
    let mut pawn = 0;
    let mut knight = 0;
    for m in &legal {
        match m {
            Move::Direct { from, .. } => match board.mailbox.get(from).unwrap().kind {
                PieceType::Pawn => pawn += 1,
                PieceType::Knight => knight += 1,
                other => panic!("unexpected mover {:?}", other),
            },
            Move::Castle(_) => panic!("no castle from the start"),
        }
    }
    assert_eq!(pawn, 16);
    assert_eq!(knight, 4);
}

#[test]
fn fools_mate_is_checkmate() {
    let mut board = FastBoard::initial();
    let mut engine = MoveEngine::new();
    for m in ["f2f3", "e7e5", "g2g4", "d8h4"] {
        assert_eq!(board.make_move(direct(m)), Ok(()));
    }
    assert_eq!(engine.get_end_state(&mut board), Some(EndState::Checkmate));
    assert_eq!(board.next_to_move, PieceColor::White);
}

#[test]
fn stalemate_probe() {
    let mut board = FastBoard::from_fen("7k/5Q2/6K1/8/8/8/8/8 b - - 0 1").unwrap();
    let mut engine = MoveEngine::new();
    assert_eq!(engine.get_end_state(&mut board), Some(EndState::Stalemate));
}

#[test]
fn threefold_repetition() {
    let mut board = FastBoard::initial();
    let mut engine = MoveEngine::new();
    for round in 0..2 {
        for m in ["g1f3", "g8f6", "f3g1", "f6g8"] {
            assert_eq!(engine.get_end_state(&mut board), None, "round {}", round);
            assert_eq!(board.make_move(direct(m)), Ok(()));
        }
    }
    assert_eq!(board.get_repetitions(), 3);
    assert_eq!(engine.get_end_state(&mut board), Some(EndState::ThreeFoldRepetition));
}

#[test]
fn castle_through_check_is_rejected() {
    let mut board = FastBoard::from_fen("5r1k/8/8/8/8/8/8/4K2R w K - 0 1").unwrap();
    let before = board.to_fen();
    let key = board.zobrist_key;
    assert_eq!(board.make_move(Move::Castle(CastleDirection::KingSide)), Err(MoveError::IllegalMove));
    assert_eq!(board.to_fen(), before);
    assert_eq!(board.zobrist_key, key);
    assert!(board.move_list.is_empty());
}

#[test]
fn castle_when_free_moves_king_and_rook() {
    let mut board = FastBoard::from_fen("7k/8/8/8/8/8/8/R3K2R w KQ - 0 1").unwrap();
    assert!(board.calculate_pseudo_moves().contains(&Move::Castle(CastleDirection::KingSide)));
    assert!(board.calculate_pseudo_moves().contains(&Move::Castle(CastleDirection::QueenSide)));
    let before = board.to_fen();
    assert_eq!(board.make_move(Move::Castle(CastleDirection::QueenSide)), Ok(()));
    assert_eq!(board.to_fen(), "7k/8/8/8/8/8/8/2KR3R b - - 1 0");
    board.unmake_last_move();
    assert_eq!(board.to_fen(), before);
}

#[test]
fn best_move_at_depth_two_is_a_knight_or_pawn_move() {
    let mut board = FastBoard::initial();
    let mut engine = MoveEngine::new();
    let before = board.to_fen();
    let expiry = Instant::now() + Duration::from_secs(60 * 60 * 24);
    let best = engine.find_best_move(&mut board, 2, expiry).expect("a move");
    match best {
        Move::Direct { from, .. } => {
            let kind = board.mailbox.get(&from).unwrap().kind;
            assert!(kind == PieceType::Knight || kind == PieceType::Pawn);
        }
        Move::Castle(_) => panic!("no castle from the start"),
    }
    assert_eq!(board.to_fen(), before);
}

#[test]
fn iterative_deepening_returns_a_legal_move() {
    let mut board = FastBoard::initial();
    let mut engine = MoveEngine::new();
    let best = engine.iterative_deepening(&mut board, Duration::from_millis(200)).expect("a move");
    assert!(legal_moves(&mut board).contains(&best));
}

#[test]
fn make_unmake_round_trip_restores_everything() {
    let fens = [
        "rnbqkbnr/pppppppp/8/8/8/8/PPPPPPPP/RNBQKBNR w KQkq - 0 1",
        "r3k2r/pPpp1ppp/8/4pP2/8/8/PPPPPPPP/R3K2R w KQkq e6 4 1",
        "8/P6k/8/8/8/8/6Kp/8 b - - 10 1",
    ];
    for fen in fens {
        let mut board = FastBoard::from_fen(fen).unwrap();
        let fen_before = board.to_fen();
        let key = board.zobrist_key;
        let reps = board.repetitions.clone();
        let castling = board.castling_rights;
        for m in board.calculate_pseudo_moves() {
            if board.make_move(m).is_ok() {
                board.unmake_last_move();
            }
            assert_eq!(board.to_fen(), fen_before, "{:?}", m);
            assert_eq!(board.zobrist_key, key, "{:?}", m);
            assert_eq!(board.repetitions, reps, "{:?}", m);
            assert_eq!(board.castling_rights, castling);
        }
    }
}

#[test]
fn bitboards_agree_with_mailbox_after_moves() {
    let mut board = FastBoard::initial();
    for m in ["e2e4", "d7d5", "e4d5", "d8d5", "b1c3", "d5a5"] {
        assert_eq!(board.make_move(direct(m)), Ok(()));
        for i in 0..64u8 {
            let content = board.mailbox.get(&BoardPosition::from_index(i));
            for color in [PieceColor::White, PieceColor::Black] {
                let boards = board.bitboards.get_color(color);
                for (kind, bb) in [
                    (PieceType::King, boards.king),
                    (PieceType::Queen, boards.queen),
                    (PieceType::Bishop, boards.bishop),
                    (PieceType::Knight, boards.knight),
                    (PieceType::Rook, boards.rook),
                    (PieceType::Pawn, boards.pawn),
                ] {
                    assert_eq!(bb.get(i), content == Some(Piece::new(color, kind)));
                }
            }
        }
    }
}

#[test]
fn zobrist_key_returns_with_the_position() {
    let mut board = FastBoard::initial();
    let start = board.zobrist_key;
    for m in ["g1f3", "g8f6", "f3g1"] {
        board.make_move(direct(m)).unwrap();
        assert_ne!(board.zobrist_key, start);
    }
    board.make_move(direct("f6g8")).unwrap();
    assert_eq!(board.zobrist_key, start);
    assert_eq!(board.get_repetitions(), 2);
    board.unmake_last_move();
    assert_eq!(board.get_repetitions(), 1);
}

#[test]
fn candidate_moves_never_capture_own_pieces() {
    let mut board = FastBoard::from_fen("r3k2r/pPpp1ppp/2n2n2/4pP2/1b6/2N2N2/PPPPQPPP/R1B1K2R w KQkq e6 0 1").unwrap();
    for m in board.calculate_pseudo_moves() {
        if let Move::Direct { to, .. } = m {
            if let Some(p) = board.mailbox.get(&to) {
                assert_ne!(p.color, PieceColor::White);
            }
        }
        let r = board.make_move(m);
        assert!(r.is_ok() || r == Err(MoveError::IllegalMove));
        if r.is_ok() {
            board.unmake_last_move();
        }
    }
}

#[test]
fn promotion_fans_out_into_four_moves() {
    let board = FastBoard::from_fen("7k/1P6/8/8/8/8/8/K7 w - - 0 1").unwrap();
    let pawn = square("b7");
    let moves = board.calculate_pseudo_moves_for_piece(&pawn, &Piece::new(PieceColor::White, PieceType::Pawn));
    assert_eq!(moves.len(), 4);
    for p in [Promotion::Queen, Promotion::Rook, Promotion::Bishop, Promotion::Knight] {
        assert!(moves.contains(&Move::Direct { from: pawn, to: square("b8"), promotion: Some(p) }));
    }
}

#[test]
fn knight_promotion_gives_a_knight() {
    let mut board = FastBoard::from_fen("7k/1P6/8/8/8/8/8/K7 w - - 0 1").unwrap();
    let m = Move::Direct { from: square("b7"), to: square("b8"), promotion: Some(Promotion::Knight) };
    board.make_move(m).unwrap();
    assert_eq!(board.mailbox.get(&square("b8")), Some(Piece::new(PieceColor::White, PieceType::Knight)));
    board.unmake_last_move();
    assert_eq!(board.mailbox.get(&square("b7")), Some(Piece::new(PieceColor::White, PieceType::Pawn)));
}

#[test]
fn structural_errors_leave_the_board_alone() {
    let mut board = FastBoard::initial();
    let before = board.to_fen();
    assert_eq!(
        board.make_move(direct("e4e5")),
        Err(MoveError::PieceNotFound { origin: square("e4") })
    );
    assert_eq!(
        board.make_move(direct("e7e5")),
        Err(MoveError::MovesOpponentsPiece { origin: square("e7"), moved_color: PieceColor::Black })
    );
    assert_eq!(
        board.make_move(direct("a1a2")),
        Err(MoveError::CapturesOwnPiece { destination: square("a2"), captured_color: PieceColor::White })
    );
    assert_eq!(board.to_fen(), before);
}

#[test]
fn moving_into_check_is_illegal() {
    let mut board = FastBoard::from_fen("4r2k/8/8/8/8/8/4B3/4K3 w - - 0 1").unwrap();
    let before = board.to_fen();
    assert_eq!(board.make_move(direct("e2d3")), Err(MoveError::IllegalMove));
    assert_eq!(board.to_fen(), before);
    assert!(board.is_in_check(PieceColor::Black) == false);
}

#[test]
fn fen_round_trip() {
    for fen in [
        "rnbqkbnr/pppppppp/8/8/8/8/PPPPPPPP/RNBQKBNR w KQkq - 0 0",
        "r3k2r/pPpp1ppp/8/4pP2/8/8/PPPPPPPP/R3K2R w Kq e6 4 2",
        "8/8/8/8/3p4/8/8/K6k b - d3 123 61",
        "7k/5Q2/6K1/8/8/8/8/8 b - - 0 0",
    ] {
        assert_eq!(FastBoard::from_fen(fen).unwrap().to_fen(), fen);
    }
}

#[test]
fn to_fen_of_start_position() {
    assert_eq!(
        FastBoard::initial().to_fen(),
        "rnbqkbnr/pppppppp/8/8/8/8/PPPPPPPP/RNBQKBNR w KQkq - 0 0"
    );
}

#[test]
fn initial_equals_parsed_start() {
    let board = FastBoard::initial();
    assert!(board.check_board_state("rnbqkbnr/pppppppp/8/8/8/8/PPPPPPPP/RNBQKBNR w KQkq - 0 1"));
    assert!(!board.check_board_state("rnbqkbnr/pppppppp/8/8/4P3/8/PPPP1PPP/RNBQKBNR b KQkq e3 0 1"));
    assert!(!board.check_board_state("not a fen"));
}

#[test]
fn fen_errors() {
    assert_eq!(FastBoard::from_fen("8/8/8/8/8/8/8/8 w - -").err(), Some(FenError::FieldCount));
    assert_eq!(FastBoard::from_fen("8/8/8/8/8/8/8 w - - 0 1").err(), Some(FenError::RankCount));
    assert_eq!(FastBoard::from_fen("8/8/8/8/8/8/8/7x w - - 0 1").err(), Some(FenError::InvalidPiece));
    assert_eq!(FastBoard::from_fen("8/8/8/8/8/8/8/44k w - - 0 1").err(), Some(FenError::RankOverflow));
    assert_eq!(FastBoard::from_fen("8/8/8/8/8/8/8/7 w - - 0 1").err(), Some(FenError::ShortRank));
    assert_eq!(FastBoard::from_fen("8/8/8/8/8/8/8/8 x - - 0 1").err(), Some(FenError::InvalidColor));
    assert_eq!(FastBoard::from_fen("8/8/8/8/8/8/8/8 w - e 0 1").err(), Some(FenError::InvalidEnPassant));
    assert_eq!(FastBoard::from_fen("8/8/8/8/8/8/8/8 w - z3 0 1").err(), Some(FenError::InvalidEnPassant));
    assert_eq!(FastBoard::from_fen("8/8/8/8/8/8/8/8 w - - x 1").err(), Some(FenError::InvalidHalfmoves));
}

#[test]
fn deadline_free_best_move_finds_a_legal_move() {
    let mut board = FastBoard::initial();
    let mut engine = MoveEngine::new();
    let best = engine.best_move(&mut board, 1, None).expect("a move");
    assert!(legal_moves(&mut board).contains(&best));
    let mut mated = FastBoard::initial();
    for m in ["f2f3", "e7e5", "g2g4", "d8h4"] {
        mated.make_move(direct(m)).unwrap();
    }
    assert_eq!(engine.best_move(&mut mated, 1, None), None);
}

#[test]
fn unmake_restores_the_repetition_map() {
    let mut board = FastBoard::initial();
    let before = board.repetitions.clone();
    board.make_move(direct("e2e4")).unwrap();
    assert_ne!(board.repetitions, before);
    board.unmake_last_move();
    assert_eq!(board.repetitions, before);
}

#[test]
fn bitboard_shift_by_combined_offset() {
    let b = chess_bot::bitboards::Bitboard::from_index(10);
    assert_eq!(b.shift(1, 9).inner(), 1u64 << 27);
    assert_eq!(b.shift(-1, -2).inner(), 1u64);
}

#[test]
fn evaluate_start_is_balanced() {
    assert_eq!(FastBoard::initial().evaluate(), 0);
}

#[test]
fn evaluate_counts_material_and_tables() {
    // White queen on d1 (table bonus -5), black king on h8 (table square 63: 20),
    // white king on a1 (table square 56: 20); white to move.
    let board = FastBoard::from_fen("7k/8/8/8/8/8/8/K2Q4 w - - 0 1").unwrap();
    assert_eq!(board.evaluate(), (20000 + 20) + (900 - 5) - (20000 + 20));
    let board = FastBoard::from_fen("7k/8/8/8/8/8/8/K2Q4 b - - 0 1").unwrap();
    assert_eq!(board.evaluate(), -((20000 + 20) + (900 - 5) - (20000 + 20)));
}
