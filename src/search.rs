use vstd::prelude::*;

use std::time::{Duration, Instant};

use crate::board::{lemma_boards_unique, lemma_opponent_twice, has_move, move_ok, pseudo_ok, rep_count, same_snapshot, FastBoard, Snapshot};
use crate::movement::Move;
use crate::piece::{opponent, PieceColor};
use crate::score::{bound_of_tag, exact_score, Score, ScoreBound};
use crate::transposition::{Transposition, TranspositionTable};

verus! {

/// `std::time::Instant`, carried opaquely as the search deadline.
#[verifier::external_type_specification]
#[verifier::external_body]
pub struct ExInstant(Instant);

/// Relies on `Instant::now`: the current time; nothing is assumed of its value.
#[verifier::external_body]
fn now() -> Instant {
    Instant::now()
}

/// Relies on the order of `Instant` (`PartialOrd::gt`): whether `a` is later than `b`.
#[verifier::external_body]
fn is_later(a: &Instant, b: &Instant) -> bool {
    a > b
}

/// Relies on `Instant::checked_add`: the instant `d` after `start`, if it can be
/// represented.
#[verifier::external_body]
fn checked_deadline(start: &Instant, d: Duration) -> Option<Instant> {
    start.checked_add(d)
}

/// How a game has ended.
#[derive(Debug, PartialEq, Eq, Structural, Copy, Clone)]
pub enum EndState {
    Checkmate,
    Stalemate,
    ThreeFoldRepetition,
}

/// A searcher with its transposition table.
#[derive(Debug, Clone)]
pub struct MoveEngine {
    pub transposition_table: TranspositionTable,
}

/// The board after a search holds the same position, counters, repetition counts and
/// history as before.
pub open spec fn restored(before: &FastBoard, after: &FastBoard) -> bool {
    &&& after.valid()
    &&& after.move_list@ == before.move_list@
    &&& after.next_to_move == before.next_to_move
    &&& after.history == before.history
    &&& same_snapshot(after.snapshot(), before.snapshot())
    &&& after.zobrist == before.zobrist
    &&& after.lookup == before.lookup
}

/// `m` is a candidate move of the side to move that `make_move` accepts.
pub open spec fn legal(b: &FastBoard, m: Move) -> bool {
    pseudo_ok(b, m) && move_ok(b.lookup, b.squares(), b.next_to_move, m)
}

/// The side to move has a legal move.
pub open spec fn has_legal_move(b: &FastBoard) -> bool {
    exists|m: Move| #[trigger] legal(b, m)
}

/// Every element of a list that holds exactly the candidate moves is a candidate.
proof fn lemma_candidates(b: &FastBoard, ms: Seq<Move>)
    requires
        forall|m: Move| #[trigger] has_move(ms, m) <==> pseudo_ok(b, m),
    ensures
        forall|k: int| 0 <= k < ms.len() ==> pseudo_ok(b, #[trigger] ms[k]),
        has_legal_move(b) <==> exists|k: int| 0 <= k < ms.len() && #[trigger] legal(b, ms[k]),
{
    assert forall|k: int| 0 <= k < ms.len() implies pseudo_ok(b, #[trigger] ms[k]) by {
        assert(has_move(ms, ms[k]));
    }
    if has_legal_move(b) {
        let m = choose|m: Move| #[trigger] legal(b, m);
        assert(has_move(ms, m));
        let k = choose|k: int| 0 <= k < ms.len() && ms[k] == m;
        assert(legal(b, ms[k]));
    }
    if exists|k: int| 0 <= k < ms.len() && #[trigger] legal(b, ms[k]) {
        let k = choose|k: int| 0 <= k < ms.len() && #[trigger] legal(b, ms[k]);
        assert(legal(b, ms[k]));
    }
}

/// Whether a move is legal depends on the snapshot and the tables alone.
proof fn lemma_legal_same(a: &FastBoard, b: &FastBoard, m: Move)
    requires
        a.wf(),
        b.wf(),
        a.lookup == b.lookup,
        same_snapshot(a.snapshot(), b.snapshot()),
    ensures
        legal(a, m) == legal(b, m),
{
    lemma_boards_unique(a.bitboards, b.bitboards, a.squares());
}

/// A move made, searched below and taken back leaves the board as the loop found it.
proof fn lemma_child_restored(start: FastBoard, b0: FastBoard, b1: FastBoard, b2: FastBoard, now: FastBoard)
    requires
        restored(&start, &b0),
        b1.history@ == b0.history@.push(b0.snapshot()),
        b1.move_list@.drop_last() == b0.move_list@,
        b1.next_to_move == opponent(b0.next_to_move),
        b1.zobrist == b0.zobrist,
        b1.lookup == b0.lookup,
        restored(&b1, &b2),
        now.valid(),
        now.move_list@ == b2.move_list@.drop_last(),
        now.history@ == b2.history@.drop_last(),
        same_snapshot(now.snapshot(), b2.history@.last()),
        now.next_to_move == opponent(b2.next_to_move),
        now.zobrist == b2.zobrist,
        now.lookup == b2.lookup,
    ensures
        restored(&start, &now),
{
    lemma_opponent_twice(b0.next_to_move);
    assert(b0.history@.push(b0.snapshot()).drop_last() =~= b0.history@);
    lemma_same_snapshot_trans(now.snapshot(), b0.snapshot(), start.snapshot());
}

proof fn lemma_same_snapshot_trans(a: Snapshot, b: Snapshot, c: Snapshot)
    requires
        same_snapshot(a, b),
        same_snapshot(b, c),
    ensures
        same_snapshot(a, c),
{
    assert forall|k: u64| #[trigger] rep_count(a.repetitions, k) == rep_count(c.repetitions, k) by {
        assert(rep_count(b.repetitions, k) == rep_count(c.repetitions, k));
    }
}

impl MoveEngine {
    /// Every cached score is a well-formed score.
    pub open spec fn wf(&self) -> bool {
        forall|k: u64| #[trigger] self.transposition_table.view().contains_key(k)
            ==> self.transposition_table.view()[k].score.wf()
    }

    pub fn new() -> (r: Self)
        ensures
            r.wf(),
            r.transposition_table.view() == Map::<u64, Transposition>::empty(),
    {
        Self { transposition_table: TranspositionTable::new() }
    }

    /// Whether the game is over: the current position reached three times, or no legal
    /// move, checkmate when the side to move is in check and stalemate otherwise.
    pub fn get_end_state(&mut self, board: &mut FastBoard) -> (r: Option<EndState>)
        requires
            old(board).valid(),
        ensures
            restored(&*old(board), &*final(board)),
            (rep_count(old(board).repetitions@, old(board).zobrist_key.0) >= 3) <==> r == Some(EndState::ThreeFoldRepetition),
            rep_count(old(board).repetitions@, old(board).zobrist_key.0) < 3 ==> {
                &&& (r is None <==> has_legal_move(&*old(board)))
                &&& (r == Some(EndState::Checkmate) <==> (!has_legal_move(&*old(board)) && old(board).in_check(old(board).next_to_move)))
                &&& (r == Some(EndState::Stalemate) <==> (!has_legal_move(&*old(board)) && !old(board).in_check(old(board).next_to_move)))
            },
    {
        if board.get_repetitions() >= 3 {
            return Some(EndState::ThreeFoldRepetition);
        }
        let in_check = board.is_in_check(board.next_to_move);
        let possible_moves = board.calculate_pseudo_moves();
        let ghost start = *board;
        proof {
            lemma_candidates(&start, possible_moves@);
        }
        let mut able_to_move = false;
        let mut i: usize = 0;
        while i < possible_moves.len()
            invariant
                restored(&start, &*board),
                start == *old(board),
                i <= possible_moves.len(),
                forall|k: int| 0 <= k < possible_moves.len() ==> pseudo_ok(&start, #[trigger] possible_moves[k]),
                able_to_move <==> exists|k: int| 0 <= k < i && #[trigger] legal(&start, possible_moves[k]),
            decreases possible_moves.len() - i,
        {
            let m = possible_moves[i];
            let ok = legal_now(board, m);
            proof {
                assert(legal(&start, possible_moves[i as int]) == ok);
            }
            if ok {
                able_to_move = true;
            }
            i = i + 1;
        }
        if able_to_move {
            None
        } else if in_check {
            Some(EndState::Checkmate)
        } else {
            Some(EndState::Stalemate)
        }
    }
}

/// Tries `m` and takes it back: whether the move is legal in the current position.
fn legal_now(board: &mut FastBoard, m: Move) -> (r: bool)
    requires
        old(board).valid(),
        m matches Move::Direct { from, to, .. } ==> from.valid() && to.valid(),
    ensures
        restored(&*old(board), &*final(board)),
        r == move_ok(old(board).lookup, old(board).squares(), old(board).next_to_move, m),
{
    match board.make_move(m) {
        Ok(()) => {
            board.unmake_last_move();
            proof {
                assert(old(board).history@.push(old(board).snapshot()).drop_last() =~= old(board).history@);
            }
            true
        },
        Err(_) => false,
    }
}

/// The deadline has passed (never, when there is none).
fn expired(expiry: Option<&Instant>) -> (r: bool)
    ensures
        expiry is None ==> !r,
{
    match expiry {
        Some(e) => is_later(&now(), e),
        None => false,
    }
}

/// The larger of two scores by their words.
fn max_score(a: Score, b: Score) -> (r: Score)
    ensures
        r == if a.0 >= b.0 { a } else { b },
{
    if a.0 >= b.0 {
        a
    } else {
        b
    }
}

/// A cached entry may stand for a search of `depth` in the window (`alpha`, `beta`): it was
/// searched at least as deep and is exact, an upper bound below `alpha`, or a lower bound at
/// or above `beta`.
pub open spec fn usable(t: Transposition, depth: u32, alpha: Score, beta: Score) -> bool {
    t.depth >= depth && match bound_of_tag(t.score.tag()) {
        ScoreBound::Exact => true,
        ScoreBound::UpperBound => t.score.0 < alpha.0,
        ScoreBound::LowerBound => t.score.0 >= beta.0,
    }
}

/// The table holds an entry for `key` that may stand for a search of `depth` in the window.
pub open spec fn cached(e: &MoveEngine, key: u64, depth: u32, alpha: Score, beta: Score) -> bool {
    e.transposition_table.view().contains_key(key) && usable(e.transposition_table.view()[key], depth, alpha, beta)
}

/// Whether a cached entry may be used for a search of `depth` in the window.
pub fn transposition_usable(t: &Transposition, depth: u32, alpha: Score, beta: Score) -> (r: bool)
    ensures
        r == usable(*t, depth, alpha, beta),
{
    if t.depth < depth {
        return false;
    }
    match t.score.bound() {
        ScoreBound::Exact => true,
        ScoreBound::UpperBound => t.score.0 < alpha.0,
        ScoreBound::LowerBound => t.score.0 >= beta.0,
    }
}

impl MoveEngine {
    /// Negamax with alpha-beta pruning and the transposition table, `expiry` being the
    /// deadline if there is one. `None` only when a deadline passed; without one the search
    /// always finishes.
    pub fn search(&mut self, board: &mut FastBoard, depth: u32, alpha: Score, beta: Score, expiry: Option<&Instant>) -> (r: Option<Score>)
        requires
            old(board).valid(),
            old(self).wf(),
            alpha.wf(),
            beta.wf(),
        ensures
            final(self).wf(),
            restored(&*old(board), &*final(board)),
            r matches Some(s) ==> s.wf(),
            rep_count(old(board).repetitions@, old(board).zobrist_key.0) == 3 && r is Some ==> r == Some(Score(0)),
            rep_count(old(board).repetitions@, old(board).zobrist_key.0) != 3 && cached(old(self), old(board).zobrist_key.0, depth, alpha, beta)
                && r is Some ==> r == Some(old(self).transposition_table.view()[old(board).zobrist_key.0].score),
            rep_count(old(board).repetitions@, old(board).zobrist_key.0) != 3 && !cached(old(self), old(board).zobrist_key.0, depth, alpha, beta)
                && depth == 0 && r is Some ==> r == Some(exact_score(old(board).evaluate_spec())),
            expiry is None ==> r is Some,
        decreases depth,
    {
        if expired(expiry) {
            return None;
        }
        if board.get_repetitions() == 3 {
            return Some(Score::exact(0));
        }
        if let Some(transposition) = self.transposition_table.get(&board.zobrist_key) {
            if transposition_usable(transposition, depth, alpha, beta) {
                return Some(transposition.score);
            }
        }
        if depth == 0 {
            return Some(self.quiesce(board, alpha, beta));
        }
        let in_check = board.is_in_check(board.next_to_move);
        let cut = beta.make_exact();
        let mut alpha = alpha;
        let mut best_score = Score::lowest();
        let mut able_to_move = false;
        let possible_moves = board.calculate_pseudo_moves();
        let ghost start = *board;
        proof {
            lemma_candidates(&start, possible_moves@);
        }
        let mut i: usize = 0;
        while i < possible_moves.len()
            invariant
                restored(&start, &*board),
                start.move_list@ == old(board).move_list@,
                start.next_to_move == old(board).next_to_move,
                start == *old(board),
                self.wf(),
                alpha.wf(),
                beta.wf(),
                best_score.wf(),
                depth > 0,
                forall|k: int| 0 <= k < possible_moves.len() ==> pseudo_ok(&start, #[trigger] possible_moves[k]),
                i <= possible_moves.len(),
                !able_to_move ==> forall|k: int| 0 <= k < i ==> !#[trigger] legal(&start, possible_moves[k]),
            ensures
                !able_to_move ==> i == possible_moves.len(),
                !able_to_move ==> forall|k: int| 0 <= k < i ==> !#[trigger] legal(&start, possible_moves[k]),
                restored(&start, &*board),
                self.wf(),
                best_score.wf(),
            decreases possible_moves.len() - i,
        {
            let m = possible_moves[i];
            i = i + 1;
            let ghost b0 = *board;
            match board.make_move(m) {
                Err(_) => {
                    proof {
                        assert(!legal(&start, possible_moves[i - 1]));
                    }
                    continue;
                },
                Ok(()) => {},
            }
            let ghost b1 = *board;
            able_to_move = true;
            let child = self.search(board, depth - 1, beta.neg(), alpha.neg(), expiry);
            let ghost b2 = *board;
            board.unmake_last_move();
            proof {
                lemma_child_restored(start, b0, b1, b2, *board);
            }
            let score = match child {
                Some(s) => s.neg(),
                None => return None,
            };
            best_score = max_score(best_score, score);
            alpha = max_score(alpha, score.make_upper_bound());
            if score.0 >= cut.0 {
                best_score = score.make_lower_bound();
                break;
            }
        }
        self.transposition_table.set(board.zobrist_key, Transposition::new(best_score, depth));
        Some(
            if able_to_move {
                best_score
            } else if in_check {
                Score::lowest()
            } else {
                Score::exact(0)
            },
        )
    }

    /// Negamax search of `depth` plies in the window (`alpha`, `beta`); `None` when the
    /// deadline passed first.
    pub fn alpha_beta(&mut self, board: &mut FastBoard, depth: u32, alpha: Score, beta: Score, expiry: Instant) -> (r: Option<Score>)
        requires
            old(board).valid(),
            old(self).wf(),
            alpha.wf(),
            beta.wf(),
        ensures
            final(self).wf(),
            restored(&*old(board), &*final(board)),
            r matches Some(s) ==> s.wf(),
            rep_count(old(board).repetitions@, old(board).zobrist_key.0) == 3 && r is Some ==> r == Some(Score(0)),
            rep_count(old(board).repetitions@, old(board).zobrist_key.0) != 3 && cached(old(self), old(board).zobrist_key.0, depth, alpha, beta)
                && r is Some ==> r == Some(old(self).transposition_table.view()[old(board).zobrist_key.0].score),
            rep_count(old(board).repetitions@, old(board).zobrist_key.0) != 3 && !cached(old(self), old(board).zobrist_key.0, depth, alpha, beta)
                && depth == 0 && r is Some ==> r == Some(exact_score(old(board).evaluate_spec())),
    {
        self.search(board, depth, alpha, beta, Some(&expiry))
    }

    /// The score at the search horizon: the exact static evaluation.
    pub fn quiesce(&mut self, board: &mut FastBoard, alpha: Score, beta: Score) -> (r: Score)
        requires
            old(board).valid(),
        ensures
            *final(board) == *old(board),
            *final(self) == *old(self),
            r == crate::score::exact_score(old(board).evaluate_spec()),
            r.wf(),
    {
        Score::exact(board.evaluate())
    }

    /// The best move found by a search of `depth` plies below each legal candidate, with
    /// `expiry` as the deadline if there is one; `None` when the deadline passed first or the
    /// side to move has no legal move. Without a deadline it finds a move exactly when there
    /// is a legal one.
    pub fn best_move(&mut self, board: &mut FastBoard, depth: u32, expiry: Option<&Instant>) -> (r: Option<Move>)
        requires
            old(board).valid(),
            old(self).wf(),
        ensures
            final(self).wf(),
            restored(&*old(board), &*final(board)),
            r matches Some(m) ==> legal(&*old(board), m),
            expiry is None ==> (r is Some <==> has_legal_move(&*old(board))),
    {
        let possible_moves = board.calculate_pseudo_moves();
        let ghost start = *board;
        proof {
            lemma_candidates(&start, possible_moves@);
        }
        let mut best_move: Option<Move> = None;
        let mut best_score = Score::lowest();
        let mut i: usize = 0;
        while i < possible_moves.len()
            invariant
                restored(&start, &*board),
                start.move_list@ == old(board).move_list@,
                start.next_to_move == old(board).next_to_move,
                start == *old(board),
                self.wf(),
                best_score.wf(),
                forall|k: int| 0 <= k < possible_moves.len() ==> pseudo_ok(&start, #[trigger] possible_moves[k]),
                best_move matches Some(m) ==> legal(&start, m),
                i <= possible_moves.len(),
                expiry is None ==> (best_move is Some <==> exists|k: int| 0 <= k < i && #[trigger] legal(&start, possible_moves[k])),
            decreases possible_moves.len() - i,
        {
            let m = possible_moves[i];
            i = i + 1;
            let ghost b0 = *board;
            match board.make_move(m) {
                Err(_) => {
                    proof {
                        assert(!legal(&start, possible_moves[i - 1]));
                    }
                    continue;
                },
                Ok(()) => {},
            }
            proof {
                assert(legal(&start, possible_moves[i - 1]));
            }
            let ghost b1 = *board;
            if best_move.is_none() {
                best_move = Some(m);
            }
            let child = self.search(board, depth, Score::initial_alpha(), Score::initial_beta(), expiry);
            let ghost b2 = *board;
            board.unmake_last_move();
            proof {
                lemma_child_restored(start, b0, b1, b2, *board);
            }
            let score = match child {
                Some(s) => s.neg(),
                None => return None,
            };
            if score.0 > best_score.0 {
                best_move = Some(m);
                best_score = score;
            }
        }
        best_move
    }

    /// The best move found by a search of `depth` plies below each candidate; `None` when
    /// the deadline passed first or the side to move has no legal move.
    pub fn find_best_move(&mut self, board: &mut FastBoard, depth: u32, expiry: Instant) -> (r: Option<Move>)
        requires
            old(board).valid(),
            old(self).wf(),
        ensures
            final(self).wf(),
            restored(&*old(board), &*final(board)),
            r matches Some(m) ==> legal(&*old(board), m),
    {
        self.best_move(board, depth, Some(&expiry))
    }

    /// Searches one ply deeper at a time until `max_time` has passed, returning the best
    /// move of the deepest search that finished. The first search (depth 0) always
    /// finishes. `None` when the side to move has no legal move.
    pub fn iterative_deepening(&mut self, board: &mut FastBoard, max_time: Duration) -> (r: Option<Move>)
        requires
            old(board).valid(),
            old(self).wf(),
        ensures
            final(self).wf(),
            restored(&*old(board), &*final(board)),
            r matches Some(m) ==> legal(&*old(board), m),
            has_legal_move(&*old(board)) ==> r is Some,
    {
        let start = now();
        let expiry = checked_deadline(&start, max_time);
        let mut best_move = self.best_move(board, 0, None);
        let mut depth: u32 = 1;
        while depth < u32::MAX
            invariant
                self.wf(),
                restored(&*old(board), &*board),
                best_move matches Some(m) ==> legal(&*old(board), m),
                has_legal_move(&*old(board)) ==> best_move is Some,
                old(board).valid(),
            decreases u32::MAX - depth,
        {
            let ghost pre = *board;
            let found = match &expiry {
                Some(e) => self.best_move(board, depth, Some(e)),
                None => self.best_move(board, depth, None),
            };
            proof {
                if let Some(m) = found {
                    lemma_legal_same(&pre, &*old(board), m);
                }
            }
            match found {
                Some(m) => best_move = Some(m),
                None => return best_move,
            }
            depth = depth + 1;
        }
        best_move
    }
}

} // verus!
