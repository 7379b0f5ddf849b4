use vstd::prelude::*;

use std::collections::HashMap;

use crate::bitboards::{bit, lemma_same_bits, Bitboard, Bitboards, ColorBitboards};
use crate::castle::{CastlingRights, PlayerCastlingRights};
use crate::eval::{pst_bonus, pst_table};
use crate::lookup::{pawn_reach, square_of, LookupTables};
use crate::masks::{bishop_attack, king_target, knight_target, pawn_attack_target, rook_attack};
use crate::movement::{promoted_kind, CastleDirection, Move, PastMove, Promotion};
use crate::piece::{opponent, piece_letter, Piece, PieceColor, PieceType};
use crate::position::BoardPosition;
use crate::text::{
    all_digits, chars_of_str, decimal, decimal_value, digit_char, parse_decimal, push_decimal, split,
    split_fields, string_of_chars,
};
use crate::transposition::{rights_feature, ZobristKey, ZobristTables};

verus! {

broadcast use vstd::std_specs::hash::group_hash_axioms;

pub proof fn lemma_xor_facts(a: u64, b: u64, c: u64)
    ensures
        (a ^ b) ^ c == a ^ (b ^ c),
        a ^ b == b ^ a,
        a ^ a == 0,
        a ^ 0 == a,
{
    assert((a ^ b) ^ c == a ^ (b ^ c)) by (bit_vector);
    assert(a ^ b == b ^ a) by (bit_vector);
    assert(a ^ a == 0) by (bit_vector);
    assert(a ^ 0 == a) by (bit_vector);
}

/// The bitstring that the content of square `i` contributes to the key.
pub open spec fn square_key(t: ZobristTables, mb: Seq<Option<Piece>>, i: int) -> u64 {
    match mb[i] {
        Some(p) => t.piece_key(p, i),
        None => 0,
    }
}

/// The XOR of the bitstrings of the pieces on the first `n` squares.
pub open spec fn pieces_key(t: ZobristTables, mb: Seq<Option<Piece>>, n: int) -> u64
    decreases n,
{
    if n <= 0 {
        0
    } else {
        pieces_key(t, mb, n - 1) ^ square_key(t, mb, n - 1)
    }
}

/// The Zobrist key that a fresh build over a position gives: its pieces, its castling
/// rights, its en-passant file if any, and the side to move if black.
pub open spec fn position_key(
    t: ZobristTables,
    mb: Seq<Option<Piece>>,
    rights: CastlingRights,
    en_passant: Option<u8>,
    side: PieceColor,
) -> u64 {
    pieces_key(t, mb, 64) ^ t.castling_rights[rights_feature(rights)] ^ (match en_passant {
        Some(f) => t.en_passants[f as int],
        None => 0u64,
    }) ^ (match side {
        PieceColor::White => 0u64,
        PieceColor::Black => t.black_to_move,
    })
}

/// Changing square `s` changes the pieces' part of the key by the XOR of the old and the
/// new content's bitstrings.
pub proof fn lemma_pieces_key_update(
    t: ZobristTables,
    mb: Seq<Option<Piece>>,
    s: int,
    x: Option<Piece>,
    n: int,
)
    requires
        0 <= s < mb.len(),
        n <= mb.len(),
    ensures
        pieces_key(t, mb.update(s, x), n) == if s < n {
            pieces_key(t, mb, n) ^ square_key(t, mb, s) ^ square_key(t, mb.update(s, x), s)
        } else {
            pieces_key(t, mb, n)
        },
    decreases n,
{
    let mb2 = mb.update(s, x);
    if n <= 0 {
    } else {
        lemma_pieces_key_update(t, mb, s, x, n - 1);
        let a = pieces_key(t, mb, n - 1);
        let b = square_key(t, mb, s);
        let c = square_key(t, mb2, s);
        if s < n - 1 {
            assert(square_key(t, mb2, n - 1) == square_key(t, mb, n - 1));
            let d = square_key(t, mb, n - 1);
            assert(((a ^ b) ^ c) ^ d == ((a ^ d) ^ b) ^ c) by (bit_vector);
        } else if s == n - 1 {
            assert(a ^ c == ((a ^ b) ^ b) ^ c) by (bit_vector);
        } else {
            assert(square_key(t, mb2, n - 1) == square_key(t, mb, n - 1));
        }
    }
}

/// The 64 squares, each holding a piece or not.
#[derive(Debug, PartialEq, Eq, Clone)]
pub struct Mailbox {
    pub pieces: Vec<Option<Piece>>,
}

impl Mailbox {
    pub fn new() -> (r: Self)
        ensures
            r.pieces.len() == 64,
            forall|i: int| 0 <= i < 64 ==> r.pieces[i] is None,
    {
        let mut pieces: Vec<Option<Piece>> = Vec::new();
        while pieces.len() < 64
            invariant
                pieces.len() <= 64,
                forall|i: int| 0 <= i < pieces.len() ==> pieces[i] is None,
            decreases 64 - pieces.len(),
        {
            pieces.push(None);
        }
        Self { pieces }
    }

    pub fn get(&self, position: &BoardPosition) -> (r: Option<Piece>)
        requires
            self.pieces.len() == 64,
            position.valid(),
        ensures
            r == self.pieces[position.idx()],
    {
        self.pieces[position.index() as usize]
    }

    pub fn insert(&mut self, position: BoardPosition, piece: Piece) -> (r: Option<Piece>)
        requires
            old(self).pieces.len() == 64,
            position.valid(),
        ensures
            r == old(self).pieces[position.idx()],
            final(self).pieces@ == old(self).pieces@.update(position.idx(), Some(piece)),
    {
        let old_piece = self.get(&position);
        self.pieces.set(position.index() as usize, Some(piece));
        old_piece
    }

    pub fn remove(&mut self, position: &BoardPosition) -> (r: Option<Piece>)
        requires
            old(self).pieces.len() == 64,
            position.valid(),
        ensures
            r == old(self).pieces[position.idx()],
            final(self).pieces@ == old(self).pieces@.update(position.idx(), None),
    {
        let old_piece = self.get(position);
        self.pieces.set(position.index() as usize, None);
        old_piece
    }

    /// The occupied squares with their pieces, in increasing square order.
    pub fn iter(&self) -> (r: Vec<(BoardPosition, Piece)>)
        requires
            self.pieces.len() == 64,
        ensures
            forall|k: int|
                0 <= k < r.len() ==> r[k].0.valid() && self.pieces[r[k].0.idx()] == Some(r[k].1),
            forall|i: int|
                0 <= i < 64 && self.pieces[i] is Some ==> exists|k: int|
                    0 <= k < r.len() && r[k].0.idx() == i,
            forall|k: int, l: int| 0 <= k < l < r.len() ==> r[k].0.idx() < r[l].0.idx(),
    {
        let mut r: Vec<(BoardPosition, Piece)> = Vec::new();
        let mut i: u8 = 0;
        while i < 64
            invariant
                i <= 64,
                self.pieces.len() == 64,
                forall|k: int|
                    0 <= k < r.len() ==> r[k].0.valid() && r[k].0.idx() < i && self.pieces[r[k].0.idx()]
                        == Some(r[k].1),
                forall|j: int|
                    0 <= j < i && self.pieces[j] is Some ==> exists|k: int|
                        0 <= k < r.len() && r[k].0.idx() == j,
                forall|k: int, l: int| 0 <= k < l < r.len() ==> r[k].0.idx() < r[l].0.idx(),
            decreases 64 - i,
        {
            let ghost r0 = r@;
            if let Some(p) = self.pieces[i as usize] {
                let pos = BoardPosition::from_index(i);
                r.push((pos, p));
                proof {
                    assert forall|j: int|
                        0 <= j < i && self.pieces[j] is Some implies exists|k: int|
                            0 <= k < r.len() && r[k].0.idx() == j by {
                        let k = choose|k: int| 0 <= k < r0.len() && r0[k].0.idx() == j;
                        assert(r[k] == r0[k]);
                    }
                    assert(r[r.len() - 1].0.idx() == i);
                }
            }
            i = i + 1;
        }
        r
    }
}

/// Errors of `make_move`.
#[derive(Debug, PartialEq, Eq, Structural, Copy, Clone)]
pub enum MoveError {
    PieceNotFound { origin: BoardPosition },
    CapturesOwnPiece { destination: BoardPosition, captured_color: PieceColor },
    MovesOpponentsPiece { origin: BoardPosition, moved_color: PieceColor },
    IllegalMove,
}

/// What a half-move changes in a position, as values.
pub struct Snapshot {
    pub squares: Seq<Option<Piece>>,
    pub rights: CastlingRights,
    pub en_passant: Option<u8>,
    pub side: PieceColor,
    pub halfmoves: u64,
    pub repetitions: Map<u64, u64>,
}

/// A chess position with its move history.
#[derive(Clone)]
pub struct FastBoard {
    pub mailbox: Mailbox,
    pub move_list: Vec<PastMove>,
    pub zobrist_key: ZobristKey,
    pub next_to_move: PieceColor,
    pub repetitions: HashMap<u64, u64>,
    pub bitboards: Bitboards,
    pub en_passant: Option<u8>,
    pub castling_rights: CastlingRights,
    pub halfmoves: u64,
    pub lookup: LookupTables,
    pub zobrist: ZobristTables,
    /// The position before each half-move of `move_list`.
    pub history: Ghost<Seq<Snapshot>>,
}

/// An undo record names squares on the board and a file for its en-passant snapshot.
pub open spec fn record_ok(p: PastMove) -> bool {
    &&& (p.previous_en_passant matches Some(f) ==> f < 8)
    &&& match p.move_made {
        Move::Direct { from, to, .. } => from.valid() && to.valid(),
        Move::Castle(_) => true,
    }
}

/// The bitboards hold a piece on a square exactly where the mailbox does.
pub open spec fn boards_agree(bb: Bitboards, mb: Seq<Option<Piece>>) -> bool {
    forall|c: PieceColor, k: PieceType, i: int|
        #[trigger] bb.of(c, k).has(i) <==> (0 <= i < 64 && mb[i] == Some(Piece { color: c, kind: k }))
}

impl FastBoard {
    pub open spec fn squares(&self) -> Seq<Option<Piece>> {
        self.mailbox.pieces@
    }

    /// The position's invariant.
    pub open spec fn wf(&self) -> bool {
        &&& self.mailbox.pieces.len() == 64
        &&& boards_agree(self.bitboards, self.squares())
        &&& self.lookup.wf()
        &&& self.zobrist.wf()
        &&& (self.en_passant matches Some(f) ==> f < 8)
        &&& forall|k: int| 0 <= k < self.move_list.len() ==> record_ok(#[trigger] self.move_list[k])
        &&& no_zero(self.repetitions@)
        &&& self.zobrist_key.0 == position_key(
            self.zobrist,
            self.squares(),
            self.castling_rights,
            self.en_passant,
            self.next_to_move,
        )
    }

    /// Everything but the pieces, the key and the bitboards is unchanged from `o`.
    pub open spec fn same_state(&self, o: &FastBoard) -> bool {
        &&& self.move_list@ == o.move_list@
        &&& self.next_to_move == o.next_to_move
        &&& self.repetitions@ == o.repetitions@
        &&& self.en_passant == o.en_passant
        &&& self.castling_rights == o.castling_rights
        &&& self.halfmoves == o.halfmoves
        &&& self.lookup == o.lookup
        &&& self.zobrist == o.zobrist
        &&& self.history == o.history
    }

    /// An empty board, white to move, all castling rights held.
    pub fn empty() -> (r: Self)
        ensures
            r.valid(),
            r.history@.len() == 0,
            forall|i: int| 0 <= i < 64 ==> r.squares()[i] is None,
            r.next_to_move == PieceColor::White,
            r.en_passant is None,
            r.move_list.len() == 0,
            r.halfmoves == 0,
            r.repetitions@ == Map::<u64, u64>::empty(),
            r.castling_rights == CastlingRights::default_spec(),
    {
        let zobrist = ZobristTables::new();
        let castling_rights = CastlingRights::default();
        let mut zobrist_key = ZobristKey::new();
        zobrist_key.toggle_castling_rights(&zobrist, &castling_rights);
        let r = Self {
            mailbox: Mailbox::new(),
            bitboards: Bitboards::empty(),
            move_list: Vec::new(),
            next_to_move: PieceColor::White,
            en_passant: None,
            castling_rights,
            zobrist_key,
            halfmoves: 0,
            repetitions: HashMap::new(),
            lookup: LookupTables::new(),
            zobrist,
            history: Ghost(Seq::empty()),
        };
        proof {
            lemma_pieces_key_empty(r.zobrist, r.squares(), 64);
            let c = zobrist.castling_rights[rights_feature(castling_rights)];
            lemma_xor_facts(0, c, 0);
            lemma_xor_facts(c, 0, 0);
            assert(boards_agree(r.bitboards, r.squares()));
        }
        r
    }
}

proof fn lemma_pieces_key_empty(t: ZobristTables, mb: Seq<Option<Piece>>, n: int)
    requires
        n <= mb.len(),
        forall|i: int| 0 <= i < n ==> mb[i] is None,
    ensures
        pieces_key(t, mb, n) == 0,
    decreases n,
{
    if n > 0 {
        lemma_pieces_key_empty(t, mb, n - 1);
        lemma_xor_facts(0, 0, 0);
    }
}

proof fn lemma_xor_move(p: u64, a: u64, b: u64, c: u64, e: u64, s: u64)
    ensures
        ((((p ^ a) ^ b) ^ c) ^ e) ^ s == ((((p ^ c) ^ e) ^ s) ^ a) ^ b,
        (((p ^ c) ^ a) ^ e) ^ s == ((((p ^ c) ^ e) ^ s) ^ a),
        (((p ^ c) ^ e) ^ a) ^ s == ((((p ^ c) ^ e) ^ s) ^ a),
        (((p ^ c) ^ e) ^ s) ^ a ^ a == (((p ^ c) ^ e) ^ s),
        (((p ^ c) ^ e) ^ s) ^ a ^ b == (((p ^ c) ^ e) ^ s) ^ b ^ a,
        (((p ^ c) ^ 0) ^ s) == ((p ^ c) ^ s),
{
    assert(((((p ^ a) ^ b) ^ c) ^ e) ^ s == ((((p ^ c) ^ e) ^ s) ^ a) ^ b) by (bit_vector);
    assert((((p ^ c) ^ a) ^ e) ^ s == ((((p ^ c) ^ e) ^ s) ^ a)) by (bit_vector);
    assert((((p ^ c) ^ e) ^ a) ^ s == ((((p ^ c) ^ e) ^ s) ^ a)) by (bit_vector);
    assert((((p ^ c) ^ e) ^ s) ^ a ^ a == (((p ^ c) ^ e) ^ s)) by (bit_vector);
    assert((((p ^ c) ^ e) ^ s) ^ a ^ b == (((p ^ c) ^ e) ^ s) ^ b ^ a) by (bit_vector);
    assert((((p ^ c) ^ 0) ^ s) == ((p ^ c) ^ s)) by (bit_vector);
}

/// The home rank of a color.
pub open spec fn home_rank(c: PieceColor) -> u8 {
    match c {
        PieceColor::White => 0,
        PieceColor::Black => 7,
    }
}

impl FastBoard {
    /// Puts `piece` on `position`, returning the piece it replaces.
    fn place_piece(&mut self, position: BoardPosition, piece: Piece) -> (r: Option<Piece>)
        requires
            old(self).wf(),
            position.valid(),
        ensures
            final(self).wf(),
            r == old(self).squares()[position.idx()],
            final(self).squares() == old(self).squares().update(position.idx(), Some(piece)),
            final(self).same_state(&*old(self)),
    {
        let ghost old_sq = self.squares();
        let replaced = self.mailbox.insert(position, piece);
        if let Some(replaced) = replaced {
            self.bitboards.remove(position.index(), replaced);
            self.zobrist_key.toggle_piece(&self.zobrist, &replaced, &position);
        }
        self.bitboards.insert(position.index(), piece);
        self.zobrist_key.toggle_piece(&self.zobrist, &piece, &position);
        proof {
            let t = self.zobrist;
            lemma_pieces_key_update(t, old_sq, position.idx(), Some(piece), 64);
            let pk = pieces_key(t, old_sq, 64);
            let c = t.castling_rights[rights_feature(self.castling_rights)];
            let e = match self.en_passant {
                Some(f) => t.en_passants[f as int],
                None => 0u64,
            };
            let sd = match self.next_to_move {
                PieceColor::White => 0u64,
                PieceColor::Black => t.black_to_move,
            };
            let a = square_key(t, old_sq, position.idx());
            let b = square_key(t, self.squares(), position.idx());
            lemma_xor_move(pk, a, b, c, e, sd);
            lemma_xor_facts((((pk ^ c) ^ e) ^ sd), 0, 0);
            assert(boards_agree(self.bitboards, self.squares()));
        }
        replaced
    }

    /// Takes the piece off `position`, returning it.
    fn remove_piece(&mut self, position: &BoardPosition) -> (r: Option<Piece>)
        requires
            old(self).wf(),
            position.valid(),
        ensures
            final(self).wf(),
            r == old(self).squares()[position.idx()],
            final(self).squares() == old(self).squares().update(position.idx(), None),
            final(self).same_state(&*old(self)),
    {
        let ghost old_sq = self.squares();
        let piece = self.mailbox.remove(position);
        if let Some(piece) = piece {
            self.bitboards.remove(position.index(), piece);
            self.zobrist_key.toggle_piece(&self.zobrist, &piece, position);
        }
        proof {
            let t = self.zobrist;
            lemma_pieces_key_update(t, old_sq, position.idx(), None, 64);
            let pk = pieces_key(t, old_sq, 64);
            let c = t.castling_rights[rights_feature(self.castling_rights)];
            let e = match self.en_passant {
                Some(f) => t.en_passants[f as int],
                None => 0u64,
            };
            let sd = match self.next_to_move {
                PieceColor::White => 0u64,
                PieceColor::Black => t.black_to_move,
            };
            let a = square_key(t, old_sq, position.idx());
            lemma_xor_move(pk, a, 0, c, e, sd);
            lemma_xor_facts(pk ^ a, 0, 0);
            lemma_xor_facts((((pk ^ c) ^ e) ^ sd), 0, 0);
            assert(boards_agree(self.bitboards, self.squares()));
        }
        piece
    }

    pub fn home_row(player: PieceColor) -> (r: u8)
        ensures
            r == home_rank(player),
    {
        match player {
            PieceColor::White => 0,
            PieceColor::Black => 7,
        }
    }

    fn set_en_passant(&mut self, file: Option<u8>)
        requires
            old(self).wf(),
            file matches Some(f) ==> f < 8,
        ensures
            final(self).wf(),
            final(self).en_passant == file,
            final(self).squares() == old(self).squares(),
            final(self).bitboards == old(self).bitboards,
            final(self).move_list@ == old(self).move_list@,
            final(self).next_to_move == old(self).next_to_move,
            final(self).repetitions@ == old(self).repetitions@,
            final(self).castling_rights == old(self).castling_rights,
            final(self).halfmoves == old(self).halfmoves,
            final(self).lookup == old(self).lookup,
            final(self).zobrist == old(self).zobrist,
            final(self).history == old(self).history,
    {
        let ghost k0 = self.zobrist_key.0;
        if let Some(old_file) = self.en_passant {
            self.zobrist_key.toggle_en_passant(&self.zobrist, old_file);
        }
        let ghost k1 = self.zobrist_key.0;
        if let Some(new_file) = file {
            self.zobrist_key.toggle_en_passant(&self.zobrist, new_file);
        }
        self.en_passant = file;
        proof {
            let t = self.zobrist;
            let pk = pieces_key(t, self.squares(), 64);
            let c = t.castling_rights[rights_feature(self.castling_rights)];
            let sd = match self.next_to_move {
                PieceColor::White => 0u64,
                PieceColor::Black => t.black_to_move,
            };
            let e0 = match old(self).en_passant {
                Some(f) => t.en_passants[f as int],
                None => 0u64,
            };
            let e1 = match file {
                Some(f) => t.en_passants[f as int],
                None => 0u64,
            };
            assert(k1 == ((pk ^ c) ^ 0u64) ^ sd) by {
                lemma_xor_move(pk, e0, 0, c, e0, sd);
                lemma_xor_facts((((pk ^ c) ^ e0) ^ sd), 0, 0);
                assert((((pk ^ c) ^ e0) ^ sd) ^ e0 == ((pk ^ c) ^ 0u64) ^ sd) by (bit_vector);
            }
            assert(self.zobrist_key.0 == ((pk ^ c) ^ e1) ^ sd) by {
                assert((((pk ^ c) ^ 0u64) ^ sd) ^ e1 == ((pk ^ c) ^ e1) ^ sd) by (bit_vector);
            }
        }
    }

    fn toggle_next_player(&mut self)
        requires
            old(self).wf(),
        ensures
            final(self).wf(),
            final(self).next_to_move == opponent(old(self).next_to_move),
            final(self).squares() == old(self).squares(),
            final(self).bitboards == old(self).bitboards,
            final(self).move_list@ == old(self).move_list@,
            final(self).en_passant == old(self).en_passant,
            final(self).repetitions@ == old(self).repetitions@,
            final(self).castling_rights == old(self).castling_rights,
            final(self).halfmoves == old(self).halfmoves,
            final(self).lookup == old(self).lookup,
            final(self).zobrist == old(self).zobrist,
            final(self).history == old(self).history,
    {
        self.next_to_move = self.next_to_move.other();
        self.zobrist_key.toggle_player(&self.zobrist);
        proof {
            let t = self.zobrist;
            let pk = pieces_key(t, self.squares(), 64);
            let c = t.castling_rights[rights_feature(self.castling_rights)];
            let e = match self.en_passant {
                Some(f) => t.en_passants[f as int],
                None => 0u64,
            };
            let b = t.black_to_move;
            assert((((pk ^ c) ^ e) ^ 0u64) ^ b == ((pk ^ c) ^ e) ^ b) by (bit_vector);
            assert((((pk ^ c) ^ e) ^ b) ^ b == ((pk ^ c) ^ e) ^ 0u64) by (bit_vector);
        }
    }

    /// Replaces the castling rights, keeping the key in step.
    fn set_castling_rights(&mut self, rights: CastlingRights)
        requires
            old(self).wf(),
        ensures
            final(self).wf(),
            final(self).castling_rights == rights,
            final(self).squares() == old(self).squares(),
            final(self).bitboards == old(self).bitboards,
            final(self).move_list@ == old(self).move_list@,
            final(self).next_to_move == old(self).next_to_move,
            final(self).en_passant == old(self).en_passant,
            final(self).repetitions@ == old(self).repetitions@,
            final(self).halfmoves == old(self).halfmoves,
            final(self).lookup == old(self).lookup,
            final(self).zobrist == old(self).zobrist,
            final(self).history == old(self).history,
    {
        let previous = self.castling_rights;
        self.zobrist_key.toggle_castling_rights(&self.zobrist, &previous);
        self.zobrist_key.toggle_castling_rights(&self.zobrist, &rights);
        self.castling_rights = rights;
        proof {
            let t = self.zobrist;
            let pk = pieces_key(t, self.squares(), 64);
            let c0 = t.castling_rights[rights_feature(previous)];
            let c1 = t.castling_rights[rights_feature(rights)];
            let e = match self.en_passant {
                Some(f) => t.en_passants[f as int],
                None => 0u64,
            };
            let sd = match self.next_to_move {
                PieceColor::White => 0u64,
                PieceColor::Black => t.black_to_move,
            };
            assert(((((pk ^ c0) ^ e) ^ sd) ^ c0) ^ c1 == ((pk ^ c1) ^ e) ^ sd) by (bit_vector);
        }
    }
}

/// The first square, from index `i` on, that holds the king of color `c`.
pub open spec fn king_from(sq: Seq<Option<Piece>>, c: PieceColor, i: int) -> Option<int>
    decreases 64 - i,
{
    if i >= 64 || i < 0 {
        None
    } else if sq[i] == Some(Piece { color: c, kind: PieceType::King }) {
        Some(i)
    } else {
        king_from(sq, c, i + 1)
    }
}

/// A piece of color `by` on square `j` attacks square `sq`, each sliding piece's blockers
/// being the occupied squares on its occupancy mask.
pub open spec fn attacks_from(bb: Bitboards, t: LookupTables, sq: BoardPosition, by: PieceColor, j: int) -> bool {
    let occ = bb.word();
    let e = bb.color(by);
    let rook = rook_attack(sq, t.rook_blockers(sq, occ), j);
    let bishop = bishop_attack(sq, t.bishop_blockers(sq, occ), j);
    (e.queen.has(j) && (rook || bishop)) || (e.rook.has(j) && rook) || (e.bishop.has(j) && bishop)
        || (e.king.has(j) && king_target(sq, j)) || (e.knight.has(j) && knight_target(sq, j)) || (
    e.pawn.has(j) && pawn_attack_target(opponent(by), sq, j))
}

/// Square `sq` is attacked by some piece of color `by`.
pub open spec fn attacked_by(bb: Bitboards, t: LookupTables, sq: BoardPosition, by: PieceColor) -> bool {
    exists|j: int| #[trigger] attacks_from(bb, t, sq, by, j)
}

/// With bitboards `bb`, the king of `c` stands on an attacked square (false where it has no
/// king).
pub open spec fn check_with(bb: Bitboards, t: LookupTables, sq: Seq<Option<Piece>>, c: PieceColor) -> bool {
    match king_from(sq, c, 0) {
        Some(k) => attacked_by(bb, t, square_of(k), opponent(c)),
        None => false,
    }
}

/// In the position `sq`, the king of `c` is attacked (the bitboards being those that agree
/// with `sq`).
pub open spec fn king_in_check(t: LookupTables, sq: Seq<Option<Piece>>, c: PieceColor) -> bool {
    exists|bb: Bitboards| boards_agree(bb, sq) && #[trigger] check_with(bb, t, sq, c)
}

/// The squares the king crosses in a castle, besides its own: (first, second) files.
pub open spec fn transit_files(d: CastleDirection) -> (u8, u8) {
    match d {
        CastleDirection::QueenSide => (3, 2),
        CastleDirection::KingSide => (5, 6),
    }
}

/// A castle of `side` is legal: king and rook ready with the squares between them empty, the
/// king not in check, not attacked on either square it crosses, and not in check after the
/// castle.
pub open spec fn castle_ok(t: LookupTables, sq: Seq<Option<Piece>>, side: PieceColor, d: CastleDirection) -> bool {
    let h = home_rank(side);
    let (first, second) = transit_files(d);
    let king = BoardPosition { rank: h, file: 4 };
    &&& castle_ready(sq, side, d)
    &&& !king_in_check(t, sq, side)
    &&& !king_in_check(t, after_direct(sq, king, BoardPosition { rank: h, file: first }, None), side)
    &&& !king_in_check(t, after_direct(sq, king, BoardPosition { rank: h, file: second }, None), side)
    &&& !king_in_check(t, after_castle(sq, side, d), side)
}

/// `make_move` succeeds on `m`: a direct move whose squares fit and that leaves the mover's
/// king unattacked, or a legal castle.
pub open spec fn move_ok(t: LookupTables, sq: Seq<Option<Piece>>, side: PieceColor, m: Move) -> bool {
    match m {
        Move::Direct { from, to, promotion } => structural_error(sq, side, m) is None && !king_in_check(
            t,
            after_direct(sq, from, to, promotion),
            side,
        ),
        Move::Castle(d) => castle_ok(t, sq, side, d),
    }
}

/// On a well-formed board, being in check depends on the squares alone.
pub proof fn lemma_in_check_by_squares(b: &FastBoard, c: PieceColor)
    requires
        b.wf(),
    ensures
        b.in_check(c) == king_in_check(b.lookup, b.squares(), c),
{
    if king_in_check(b.lookup, b.squares(), c) {
        let bb = choose|bb: Bitboards| boards_agree(bb, b.squares()) && #[trigger] check_with(bb, b.lookup, b.squares(), c);
        lemma_boards_unique(bb, b.bitboards, b.squares());
    }
    if b.in_check(c) {
        assert(boards_agree(b.bitboards, b.squares()) && check_with(b.bitboards, b.lookup, b.squares(), c));
    }
}

impl FastBoard {
    /// The king of `color` stands on an attacked square (false where it has no king).
    pub open spec fn in_check(&self, color: PieceColor) -> bool {
        check_with(self.bitboards, self.lookup, self.squares(), color)
    }

    /// The square of the king of `color`, if it has one.
    fn king_position(&self, color: PieceColor) -> (r: Option<BoardPosition>)
        requires
            self.wf(),
        ensures
            match king_from(self.squares(), color, 0) {
                Some(k) => r == Some(square_of(k)) && 0 <= k < 64,
                None => r is None,
            },
    {
        let mut i: u8 = 0;
        while i < 64
            invariant
                i <= 64,
                self.wf(),
                king_from(self.squares(), color, 0) == king_from(self.squares(), color, i as int),
            decreases 64 - i,
        {
            if let Some(p) = self.mailbox.pieces[i as usize] {
                if p.kind == PieceType::King && p.color == color {
                    let pos = BoardPosition::from_index(i);
                    proof {
                        assert(pos == square_of(i as int));
                    }
                    return Some(pos);
                }
            }
            i = i + 1;
        }
        None
    }

    /// Whether the king of `color` is attacked.
    pub fn is_in_check(&self, color: PieceColor) -> (r: bool)
        requires
            self.wf(),
        ensures
            r == self.in_check(color),
    {
        let king_pos = match self.king_position(color) {
            Some(k) => k,
            None => return false,
        };
        let mask = self.bitboards.all_pieces();
        let bitboards = self.bitboards.get_color(color.other());
        let t = &self.lookup;
        let queen = t.queen_lookup(&king_pos, mask).and(bitboards.queen);
        let rook = t.rook_lookup(&king_pos, mask).and(bitboards.rook);
        let bishop = t.bishop_lookup(&king_pos, mask).and(bitboards.bishop);
        let king = t.king_lookup(&king_pos).and(bitboards.king);
        let knight = t.knight_lookup(&king_pos).and(bitboards.knight);
        let pawn = t.pawn_attacks(&king_pos, color).and(bitboards.pawn);
        let r = queen.any() || rook.any() || bishop.any() || king.any() || knight.any() || pawn.any();
        proof {
            let by = opponent(color);
            if attacked_by(self.bitboards, self.lookup, king_pos, by) {
                let j = choose|j: int| #[trigger] attacks_from(self.bitboards, self.lookup, king_pos, by, j);
                assert(queen.has(j) || rook.has(j) || bishop.has(j) || king.has(j) || knight.has(j) || pawn.has(j));
            }
            if r {
                let j = choose|j: int| queen.has(j) || rook.has(j) || bishop.has(j) || king.has(j) || knight.has(j) || pawn.has(j);
                assert(attacks_from(self.bitboards, self.lookup, king_pos, by, j));
            }
        }
        r
    }
}

/// How many times the position of key `k` has been recorded.
pub open spec fn rep_count(m: Map<u64, u64>, k: u64) -> u64 {
    if m.contains_key(k) {
        m[k]
    } else {
        0
    }
}

/// No position is recorded with a count of zero: a key is either absent or counted.
pub open spec fn no_zero(m: Map<u64, u64>) -> bool {
    forall|k: u64| #[trigger] m.contains_key(k) ==> m[k] != 0
}

/// Two repetition maps without zero counts that count every key alike are equal.
pub proof fn lemma_counts_determine_map(a: Map<u64, u64>, b: Map<u64, u64>)
    requires
        no_zero(a),
        no_zero(b),
        forall|k: u64| #[trigger] rep_count(a, k) == rep_count(b, k),
    ensures
        a == b,
{
    assert forall|k: u64| a.contains_key(k) <==> b.contains_key(k) by {
        assert(rep_count(a, k) == rep_count(b, k));
    }
    assert forall|k: u64| a.contains_key(k) implies a[k] == b[k] by {
        assert(rep_count(a, k) == rep_count(b, k));
    }
    assert(a =~= b);
}

/// The error that `make_move` gives for a move whose squares do not fit the position, if
/// any: an empty origin, an origin holding the opponent's piece, or a destination holding
/// one's own piece.
pub open spec fn structural_error(sq: Seq<Option<Piece>>, side: PieceColor, m: Move) -> Option<MoveError> {
    match m {
        Move::Direct { from, to, .. } => match sq[from.idx()] {
            None => Some(MoveError::PieceNotFound { origin: from }),
            Some(p) => if p.color != side {
                Some(MoveError::MovesOpponentsPiece { origin: from, moved_color: p.color })
            } else {
                match sq[to.idx()] {
                    Some(c) => if c.color == side {
                        Some(MoveError::CapturesOwnPiece { destination: to, captured_color: c.color })
                    } else {
                        None
                    },
                    None => None,
                }
            },
        },
        Move::Castle(_) => None,
    }
}

/// The piece that arrives on the destination: a pawn takes the promotion's kind.
pub open spec fn arriving_piece(p: Piece, promotion: Option<Promotion>) -> Piece {
    match promotion {
        Some(pr) => if p.kind == PieceType::Pawn {
            Piece { color: p.color, kind: promoted_kind(pr) }
        } else {
            p
        },
        None => p,
    }
}

/// The squares after a direct move of the piece on `from` to `to`.
pub open spec fn after_direct(sq: Seq<Option<Piece>>, from: BoardPosition, to: BoardPosition, promotion: Option<Promotion>) -> Seq<Option<Piece>> {
    match sq[from.idx()] {
        Some(p) => sq.update(from.idx(), None).update(to.idx(), Some(arriving_piece(p, promotion))),
        None => sq,
    }
}

/// The rights of a player after one of its pieces leaves `from`: a piece leaving the home
/// rank from file 0 or 7 ends that side's castle, from file 4 both.
pub open spec fn rights_after_leaving(r: PlayerCastlingRights, from: BoardPosition, home: u8) -> PlayerCastlingRights {
    if from.rank == home {
        PlayerCastlingRights {
            queenside: r.queenside && from.file != 0 && from.file != 4,
            kingside: r.kingside && from.file != 7 && from.file != 4,
        }
    } else {
        r
    }
}

/// The rights of a player after a piece lands on `to`: landing on its home corners ends the
/// castle on that side.
pub open spec fn rights_after_landing(r: PlayerCastlingRights, to: BoardPosition, home: u8) -> PlayerCastlingRights {
    if to.rank == home {
        PlayerCastlingRights {
            queenside: r.queenside && to.file != 0,
            kingside: r.kingside && to.file != 7,
        }
    } else {
        r
    }
}

/// All castling rights after `side` moves a piece from `from` to `to`.
pub open spec fn rights_after_direct(r: CastlingRights, side: PieceColor, from: BoardPosition, to: BoardPosition) -> CastlingRights {
    let mine = rights_after_leaving(r.of(side), from, home_rank(side));
    let theirs = rights_after_landing(r.of(opponent(side)), to, home_rank(opponent(side)));
    match side {
        PieceColor::White => CastlingRights { white: mine, black: theirs },
        PieceColor::Black => CastlingRights { white: theirs, black: mine },
    }
}

/// The en-passant file after `side` moves `p` from `from` to `to`: the origin file of a
/// pawn that advances two ranks from its start rank.
pub open spec fn en_passant_after(p: Piece, side: PieceColor, from: BoardPosition, to: BoardPosition) -> Option<u8> {
    let (start, jump) = match side {
        PieceColor::White => (1u8, 3u8),
        PieceColor::Black => (6u8, 4u8),
    };
    if p.kind == PieceType::Pawn && from.rank == start && to.rank == jump {
        Some(from.file)
    } else {
        None
    }
}

/// The rook's files and the king's destination for a castle: (king to, rook from, rook to).
pub open spec fn castle_files(d: CastleDirection) -> (u8, u8, u8) {
    match d {
        CastleDirection::QueenSide => (2, 0, 3),
        CastleDirection::KingSide => (6, 7, 5),
    }
}

/// The squares after `side` castles: king from file 4 to its destination, rook over it.
pub open spec fn after_castle(sq: Seq<Option<Piece>>, side: PieceColor, d: CastleDirection) -> Seq<Option<Piece>> {
    let h = home_rank(side) as int;
    let (kd, ro, rd) = castle_files(d);
    sq.update(h * 8 + 4, None).update(h * 8 + kd, Some(Piece { color: side, kind: PieceType::King }))
        .update(h * 8 + ro, None).update(h * 8 + rd, Some(Piece { color: side, kind: PieceType::Rook }))
}

/// The castle's pieces stand on their home squares and the squares between them are
/// empty.
pub open spec fn castle_ready(sq: Seq<Option<Piece>>, side: PieceColor, d: CastleDirection) -> bool {
    let h = home_rank(side) as int;
    &&& sq[h * 8 + 4] == Some(Piece { color: side, kind: PieceType::King })
    &&& match d {
        CastleDirection::QueenSide => sq[h * 8] == Some(Piece { color: side, kind: PieceType::Rook })
            && sq[h * 8 + 1] is None && sq[h * 8 + 2] is None && sq[h * 8 + 3] is None,
        CastleDirection::KingSide => sq[h * 8 + 7] == Some(Piece { color: side, kind: PieceType::Rook })
            && sq[h * 8 + 5] is None && sq[h * 8 + 6] is None,
    }
}

impl FastBoard {
    /// Applies the castling-right changes of a direct move, returning the rights held
    /// before if any changed.
    fn update_castling_rights(&mut self, origin: &BoardPosition, destination: &BoardPosition) -> (r: Option<CastlingRights>)
        requires
            old(self).wf(),
        ensures
            final(self).wf(),
            final(self).castling_rights == rights_after_direct(old(self).castling_rights, old(self).next_to_move, *origin, *destination),
            r == if final(self).castling_rights == old(self).castling_rights {
                None
            } else {
                Some(old(self).castling_rights)
            },
            final(self).squares() == old(self).squares(),
            final(self).move_list@ == old(self).move_list@,
            final(self).next_to_move == old(self).next_to_move,
            final(self).en_passant == old(self).en_passant,
            final(self).repetitions@ == old(self).repetitions@,
            final(self).halfmoves == old(self).halfmoves,
            final(self).lookup == old(self).lookup,
            final(self).zobrist == old(self).zobrist,
            final(self).history == old(self).history,
    {
        let previous = self.castling_rights;
        let side = self.next_to_move;
        let home = Self::home_row(side);
        let enemy_home = Self::home_row(side.other());
        let mut rights = previous;
        let mine = rights.get_mut(side);
        if origin.rank == home {
            if origin.file == 0 || origin.file == 4 {
                mine.forbid_queenside();
            }
            if origin.file == 7 || origin.file == 4 {
                mine.forbid_kingside();
            }
        }
        let theirs = rights.get_mut(side.other());
        if destination.rank == enemy_home {
            if destination.file == 0 {
                theirs.forbid_queenside();
            }
            if destination.file == 7 {
                theirs.forbid_kingside();
            }
        }
        proof {
            assert(rights == rights_after_direct(previous, side, *origin, *destination));
        }
        if rights != previous {
            self.set_castling_rights(rights);
            Some(previous)
        } else {
            None
        }
    }

    /// Applies the en-passant change of a direct move, returning the file held before.
    fn update_en_passant(&mut self, moved_piece: &Piece, origin: &BoardPosition, destination: &BoardPosition) -> (r: Option<u8>)
        requires
            old(self).wf(),
            origin.valid(),
        ensures
            final(self).wf(),
            r == old(self).en_passant,
            final(self).en_passant == en_passant_after(*moved_piece, old(self).next_to_move, *origin, *destination),
            final(self).squares() == old(self).squares(),
            final(self).move_list@ == old(self).move_list@,
            final(self).next_to_move == old(self).next_to_move,
            final(self).castling_rights == old(self).castling_rights,
            final(self).repetitions@ == old(self).repetitions@,
            final(self).halfmoves == old(self).halfmoves,
            final(self).lookup == old(self).lookup,
            final(self).zobrist == old(self).zobrist,
            final(self).history == old(self).history,
    {
        let previous = self.en_passant;
        let (pawn_row, jump_row): (u8, u8) = match self.next_to_move {
            PieceColor::White => (1, 3),
            PieceColor::Black => (6, 4),
        };
        if moved_piece.kind == PieceType::Pawn && origin.rank == pawn_row && destination.rank == jump_row {
            self.set_en_passant(Some(origin.file));
        } else {
            self.set_en_passant(None);
        }
        previous
    }
}

impl FastBoard {
    /// Moves king and rook of the side to move for a castle.
    fn perform_castle(&mut self, direction: CastleDirection)
        requires
            old(self).wf(),
            castle_ready(old(self).squares(), old(self).next_to_move, direction),
        ensures
            final(self).wf(),
            final(self).squares() == after_castle(old(self).squares(), old(self).next_to_move, direction),
            final(self).same_state(&*old(self)),
    {
        let home_row = Self::home_row(self.next_to_move);
        let (king_dest, rook_orig, rook_dest): (u8, u8, u8) = match direction {
            CastleDirection::QueenSide => (2, 0, 3),
            CastleDirection::KingSide => (6, 7, 5),
        };
        let king = Piece::new(self.next_to_move, PieceType::King);
        let rook = Piece::new(self.next_to_move, PieceType::Rook);
        self.remove_piece(&BoardPosition::from_rank_file(home_row, 4));
        self.place_piece(BoardPosition::from_rank_file(home_row, king_dest), king);
        self.remove_piece(&BoardPosition::from_rank_file(home_row, rook_orig));
        self.place_piece(BoardPosition::from_rank_file(home_row, rook_dest), rook);
    }

    /// Puts back king and rook of the player who castled last (the opponent of the side to
    /// move).
    fn revert_castle(&mut self, direction: CastleDirection)
        requires
            old(self).wf(),
        ensures
            final(self).wf(),
            final(self).same_state(&*old(self)),
            final(self).squares() == undo_castle_squares(old(self).squares(), opponent(old(self).next_to_move), direction),
    {
        let home_row = Self::home_row(self.next_to_move.other());
        let (king_dest, rook_orig, rook_dest): (u8, u8, u8) = match direction {
            CastleDirection::QueenSide => (2, 0, 3),
            CastleDirection::KingSide => (6, 7, 5),
        };
        if let Some(king) = self.remove_piece(&BoardPosition::from_rank_file(home_row, king_dest)) {
            self.place_piece(BoardPosition::from_rank_file(home_row, 4), king);
        }
        if let Some(rook) = self.remove_piece(&BoardPosition::from_rank_file(home_row, rook_dest)) {
            self.place_piece(BoardPosition::from_rank_file(home_row, rook_orig), rook);
        }
    }

    /// Records a half-move whose pieces have been moved: pushes the undo record, passes the
    /// turn and counts the new position; takes it back when it leaves the mover's king
    /// attacked.
    fn finish_move(&mut self, past_move: PastMove, Ghost(prev): Ghost<Snapshot>) -> (r: Result<(), MoveError>)
        requires
            old(self).wf(),
            record_ok(past_move),
            history_ok(old(self).zobrist, old(self).history@, old(self).move_list@, prev),
            step_core(prev, past_move, old(self).snapshot()),
            old(self).next_to_move == prev.side,
            old(self).halfmoves == prev.halfmoves,
            forall|k: u64| #[trigger] rep_count(old(self).repetitions@, k) == rep_count(prev.repetitions, k),
            no_zero(prev.repetitions),
        ensures
            final(self).valid(),
            final(self).lookup == old(self).lookup,
            final(self).zobrist == old(self).zobrist,
            r is Ok || r == Err::<(), MoveError>(MoveError::IllegalMove),
            r is Ok <==> !king_in_check(old(self).lookup, old(self).squares(), old(self).next_to_move),
            r is Err ==> {
                &&& final(self).move_list@ == old(self).move_list@
                &&& final(self).history == old(self).history
                &&& same_snapshot(final(self).snapshot(), prev)
            },
            r is Ok ==> {
                &&& final(self).squares() == old(self).squares()
                &&& final(self).move_list@ == old(self).move_list@.push(past_move)
                &&& final(self).history@ == old(self).history@.push(prev)
                &&& final(self).next_to_move == opponent(old(self).next_to_move)
                &&& final(self).halfmoves == vstd::wrapping::u64_specs::wrapping_add(old(self).halfmoves, 1)
                &&& final(self).castling_rights == old(self).castling_rights
                &&& final(self).en_passant == old(self).en_passant
                &&& !final(self).in_check(old(self).next_to_move)
            },
    {
        self.move_list.push(past_move);
        self.history = Ghost(self.history@.push(prev));
        self.toggle_next_player();
        self.halfmoves = self.halfmoves.wrapping_add(1);
        let key = self.zobrist_key.0;
        let count: u64 = match self.repetitions.get(&key) {
            Some(c) => *c,
            None => 0,
        };
        let new_count = count.wrapping_add(1);
        if new_count == 0 {
            self.repetitions.remove(&key);
        } else {
            self.repetitions.insert(key, new_count);
        }
        proof {
            assert forall|k: int| 0 <= k < self.move_list.len() implies record_ok(#[trigger] self.move_list[k]) by {
                if k < old(self).move_list.len() {
                    assert(self.move_list[k] == old(self).move_list[k]);
                }
            }
            let t = self.zobrist;
            let cur = self.snapshot();
            assert forall|k: u64| #[trigger] rep_count(cur.repetitions, k) == if k == snapshot_key(t, cur) {
                vstd::wrapping::u64_specs::wrapping_add(rep_count(prev.repetitions, k), 1)
            } else {
                rep_count(prev.repetitions, k)
            } by {
                assert(rep_count(old(self).repetitions@, k) == rep_count(prev.repetitions, k));
            }
            assert(step_ok(t, prev, past_move, cur));
            lemma_history_push(t, old(self).history@, old(self).move_list@, prev, past_move, cur);
        }
        proof {
            lemma_opponent_twice(old(self).next_to_move);
            lemma_in_check_by_squares(self, old(self).next_to_move);
        }
        if self.is_in_check(self.next_to_move.other()) {
            self.unmake_last_move();
            return Err(MoveError::IllegalMove);
        }
        Ok(())
    }

    /// A direct move of the piece on `from` to `to`.
    fn make_direct(&mut self, from: BoardPosition, to: BoardPosition, promotion: Option<Promotion>) -> (r: Result<(), MoveError>)
        requires
            old(self).valid(),
            from.valid(),
            to.valid(),
        ensures
            final(self).valid(),
            final(self).lookup == old(self).lookup,
            final(self).zobrist == old(self).zobrist,
            match structural_error(old(self).squares(), old(self).next_to_move, Move::Direct { from, to, promotion }) {
                Some(e) => r == Err::<(), MoveError>(e) && *final(self) == *old(self),
                None => r is Ok || r == Err::<(), MoveError>(MoveError::IllegalMove),
            },
            r is Ok <==> move_ok(old(self).lookup, old(self).squares(), old(self).next_to_move, Move::Direct { from, to, promotion }),
            r is Err ==> {
                &&& final(self).move_list@ == old(self).move_list@
                &&& final(self).history == old(self).history
                &&& same_snapshot(final(self).snapshot(), old(self).snapshot())
            },
            r is Ok ==> {
                &&& final(self).squares() == after_direct(old(self).squares(), from, to, promotion)
                &&& final(self).next_to_move == opponent(old(self).next_to_move)
                &&& final(self).move_list@.drop_last() == old(self).move_list@
                &&& final(self).move_list.len() == old(self).move_list.len() + 1
                &&& final(self).history@ == old(self).history@.push(old(self).snapshot())
                &&& final(self).halfmoves == vstd::wrapping::u64_specs::wrapping_add(old(self).halfmoves, 1)
                &&& final(self).castling_rights == rights_after_direct(old(self).castling_rights, old(self).next_to_move, from, to)
                &&& final(self).en_passant == en_passant_after(old(self).squares()[from.idx()]->Some_0, old(self).next_to_move, from, to)
                &&& !final(self).in_check(old(self).next_to_move)
            },
    {
        let ghost prev = self.snapshot();
        let moved_piece = match self.mailbox.get(&from) {
            Some(p) => p,
            None => return Err(MoveError::PieceNotFound { origin: from }),
        };
        if moved_piece.color != self.next_to_move {
            return Err(MoveError::MovesOpponentsPiece { origin: from, moved_color: moved_piece.color });
        }
        let captured = self.mailbox.get(&to);
        let captured_kind = match captured {
            Some(c) => {
                if c.color == self.next_to_move {
                    return Err(MoveError::CapturesOwnPiece { destination: to, captured_color: c.color });
                }
                Some(c.kind)
            },
            None => None,
        };
        let previous_en_passant = self.update_en_passant(&moved_piece, &from, &to);
        let previous_castle = self.update_castling_rights(&from, &to);
        let ghost old_promotion = promotion;
        // A promotion only applies to a pawn; the record keeps it only then.
        let promotion = if moved_piece.kind == PieceType::Pawn {
            promotion
        } else {
            None
        };
        let past_move = PastMove::new(Move::Direct { from, to, promotion }, captured_kind, previous_castle, previous_en_passant);
        let mut piece = moved_piece;
        if let Some(p) = promotion {
            piece.kind = p.piece_type();
        }
        self.remove_piece(&from);
        self.place_piece(to, piece);
        proof {
            assert(from != to);
            assert(piece == arriving_piece(moved_piece, promotion));
            if let Some(c) = captured {
                assert(c == Piece { color: opponent(prev.side), kind: c.kind });
            }
            assert(step_core(prev, past_move, self.snapshot()));
            assert(self.squares() == after_direct(prev.squares, from, to, old_promotion));
        }
        self.finish_move(past_move, Ghost(prev))
    }

    /// A castle of the side to move. It is refused as illegal when the king is in check,
    /// when a square the king crosses is attacked, or when king and rook are not on their
    /// home squares with the squares between them empty.
    fn make_castle(&mut self, direction: CastleDirection) -> (r: Result<(), MoveError>)
        requires
            old(self).valid(),
        ensures
            final(self).valid(),
            final(self).lookup == old(self).lookup,
            final(self).zobrist == old(self).zobrist,
            r is Ok || r == Err::<(), MoveError>(MoveError::IllegalMove),
            !castle_ready(old(self).squares(), old(self).next_to_move, direction) ==> r is Err && *final(self) == *old(self),
            old(self).in_check(old(self).next_to_move) ==> r is Err && *final(self) == *old(self),
            r is Ok <==> castle_ok(old(self).lookup, old(self).squares(), old(self).next_to_move, direction),
            r is Err ==> {
                &&& final(self).move_list@ == old(self).move_list@
                &&& final(self).history == old(self).history
                &&& same_snapshot(final(self).snapshot(), old(self).snapshot())
            },
            r is Ok ==> {
                &&& final(self).squares() == after_castle(old(self).squares(), old(self).next_to_move, direction)
                &&& final(self).next_to_move == opponent(old(self).next_to_move)
                &&& final(self).move_list@.drop_last() == old(self).move_list@
                &&& final(self).move_list.len() == old(self).move_list.len() + 1
                &&& final(self).history@ == old(self).history@.push(old(self).snapshot())
                &&& final(self).halfmoves == vstd::wrapping::u64_specs::wrapping_add(old(self).halfmoves, 1)
                &&& final(self).en_passant is None
                &&& !final(self).castling_rights.of(old(self).next_to_move).queenside
                &&& !final(self).castling_rights.of(old(self).next_to_move).kingside
                &&& final(self).castling_rights.of(opponent(old(self).next_to_move)) == old(self).castling_rights.of(opponent(old(self).next_to_move))
                &&& !final(self).in_check(old(self).next_to_move)
            },
    {
        let ghost prev = self.snapshot();
        let side = self.next_to_move;
        if !castle_ready_check(self, direction) {
            return Err(MoveError::IllegalMove);
        }
        proof {
            lemma_in_check_by_squares(self, side);
        }
        if self.is_in_check(side) {
            return Err(MoveError::IllegalMove);
        }
        let rank = Self::home_row(side);
        // The king may not pass through an attacked square: try each square it crosses.
        let (first, second): (u8, u8) = match direction {
            CastleDirection::QueenSide => (3, 2),
            CastleDirection::KingSide => (5, 6),
        };
        let king_square = BoardPosition::from_rank_file(rank, 4);
        proof {
            assert(structural_error(prev.squares, side, Move::Direct { from: king_square, to: BoardPosition { rank, file: first }, promotion: None }) is None);
            assert(structural_error(prev.squares, side, Move::Direct { from: king_square, to: BoardPosition { rank, file: second }, promotion: None }) is None);
        }
        match self.make_direct(king_square, BoardPosition::from_rank_file(rank, first), None) {
            Ok(()) => self.unmake_last_move(),
            Err(_) => return Err(MoveError::IllegalMove),
        }
        let ghost s1 = self.snapshot();
        match self.make_direct(king_square, BoardPosition::from_rank_file(rank, second), None) {
            Ok(()) => {
                proof {
                    assert(self.history@.last() == s1);
                }
                self.unmake_last_move();
            },
            Err(_) => return Err(MoveError::IllegalMove),
        }
        proof {
            assert(self.squares() == prev.squares);
            assert(self.history@ == old(self).history@);
            assert(self.move_list@ == old(self).move_list@);
        }
        let ghost probed = self.repetitions@;
        proof {
            assert forall|k: u64| #[trigger] rep_count(probed, k) == rep_count(s1.repetitions, k) by {
                assert(rep_count(self.snapshot().repetitions, k) == rep_count(s1.repetitions, k));
            }
        }
        self.perform_castle(direction);
        let past_move = PastMove::new(Move::Castle(direction), None, Some(self.castling_rights), self.en_passant);
        self.set_en_passant(None);
        let mut rights = self.castling_rights;
        rights.get_mut(side).forbid_all();
        self.set_castling_rights(rights);
        proof {
            assert(self.squares() == after_castle(prev.squares, side, direction));
            assert(step_core(prev, past_move, self.snapshot()));
            assert(self.repetitions@ == probed);
            assert forall|k: u64| #[trigger] rep_count(self.repetitions@, k) == rep_count(prev.repetitions, k) by {
                assert(rep_count(s1.repetitions, k) == rep_count(prev.repetitions, k));
                assert(rep_count(probed, k) == rep_count(s1.repetitions, k));
            }
        }
        self.finish_move(past_move, Ghost(prev))
    }

    /// Plays a move for the side to move.
    pub fn make_move(&mut self, board_move: Move) -> (r: Result<(), MoveError>)
        requires
            old(self).valid(),
            board_move matches Move::Direct { from, to, .. } ==> from.valid() && to.valid(),
        ensures
            final(self).valid(),
            final(self).lookup == old(self).lookup,
            final(self).zobrist == old(self).zobrist,
            r is Ok <==> move_ok(old(self).lookup, old(self).squares(), old(self).next_to_move, board_move),
            r is Err ==> {
                &&& final(self).history == old(self).history
                &&& same_snapshot(final(self).snapshot(), old(self).snapshot())
            },
            r is Ok ==> final(self).history@ == old(self).history@.push(old(self).snapshot()),
            match structural_error(old(self).squares(), old(self).next_to_move, board_move) {
                Some(e) => r == Err::<(), MoveError>(e) && *final(self) == *old(self),
                None => r is Ok || r == Err::<(), MoveError>(MoveError::IllegalMove),
            },
            r is Err ==> final(self).move_list@ == old(self).move_list@ && final(self).next_to_move == old(self).next_to_move,
            r is Ok ==> {
                &&& final(self).next_to_move == opponent(old(self).next_to_move)
                &&& final(self).move_list@.drop_last() == old(self).move_list@
                &&& final(self).move_list.len() == old(self).move_list.len() + 1
                &&& !final(self).in_check(old(self).next_to_move)
            },
            board_move matches Move::Direct { from, to, promotion } ==> (r is Ok ==> {
                &&& final(self).squares() == after_direct(old(self).squares(), from, to, promotion)
                &&& final(self).move_list.len() == old(self).move_list.len() + 1
                &&& final(self).halfmoves == vstd::wrapping::u64_specs::wrapping_add(old(self).halfmoves, 1)
                &&& final(self).castling_rights == rights_after_direct(old(self).castling_rights, old(self).next_to_move, from, to)
                &&& final(self).en_passant == en_passant_after(old(self).squares()[from.idx()]->Some_0, old(self).next_to_move, from, to)
            }),
            board_move matches Move::Castle(d) ==> (old(self).in_check(old(self).next_to_move)
                || !castle_ready(old(self).squares(), old(self).next_to_move, d)) ==> r is Err && *final(self) == *old(self),
    {
        match board_move {
            Move::Direct { from, to, promotion } => self.make_direct(from, to, promotion),
            Move::Castle(direction) => self.make_castle(direction),
        }
    }

    /// Takes one count off the current position's repetitions.
    fn uncount_position(&mut self)
        requires
            old(self).wf(),
        ensures
            final(self).wf(),
            final(self).squares() == old(self).squares(),
            final(self).move_list@ == old(self).move_list@,
            final(self).next_to_move == old(self).next_to_move,
            final(self).halfmoves == old(self).halfmoves,
            final(self).castling_rights == old(self).castling_rights,
            final(self).en_passant == old(self).en_passant,
            final(self).zobrist_key == old(self).zobrist_key,
            final(self).bitboards == old(self).bitboards,
            final(self).lookup == old(self).lookup,
            final(self).zobrist == old(self).zobrist,
            final(self).history == old(self).history,
            forall|k: u64|
                #[trigger] rep_count(final(self).repetitions@, k) == if k == old(self).zobrist_key.0 {
                    vstd::wrapping::u64_specs::wrapping_sub(rep_count(old(self).repetitions@, k), 1)
                } else {
                    rep_count(old(self).repetitions@, k)
                },
    {
        let key = self.zobrist_key.0;
        let count: u64 = match self.repetitions.get(&key) {
            Some(c) => *c,
            None => 0,
        };
        if count == 1 {
            self.repetitions.remove(&key);
        } else {
            self.repetitions.insert(key, count.wrapping_sub(1));
        }
    }

    /// Puts back the pieces of a direct move: the moved piece (a pawn again after a
    /// promotion) on `from`, the captured piece, if any, on `to`.
    fn undo_direct(&mut self, from: BoardPosition, to: BoardPosition, promotion: Option<Promotion>, captured: Option<PieceType>)
        requires
            old(self).wf(),
            from.valid(),
            to.valid(),
        ensures
            final(self).wf(),
            final(self).same_state(&*old(self)),
            final(self).squares() == undo_direct_squares(old(self).squares(), from, to, promotion, captured, old(self).next_to_move),
    {
        if let Some(mut piece) = self.remove_piece(&to) {
            if promotion.is_some() {
                piece.kind = PieceType::Pawn;
            }
            self.place_piece(from, piece);
        }
        if let Some(captured) = captured {
            self.place_piece(to, Piece::new(self.next_to_move, captured));
        }
    }

    /// Takes back the last half-move: the position, its counters and its repetition counts
    /// return to what they were before it.
    pub fn unmake_last_move(&mut self)
        requires
            old(self).valid(),
            old(self).move_list.len() > 0,
        ensures
            final(self).valid(),
            final(self).move_list@ == old(self).move_list@.drop_last(),
            final(self).history@ == old(self).history@.drop_last(),
            same_snapshot(final(self).snapshot(), old(self).history@.last()),
            final(self).repetitions@ == old(self).history@.last().repetitions,
            final(self).next_to_move == opponent(old(self).next_to_move),
            final(self).halfmoves == vstd::wrapping::u64_specs::wrapping_sub(old(self).halfmoves, 1),
            final(self).lookup == old(self).lookup,
            final(self).zobrist == old(self).zobrist,
    {
        let ghost t = self.zobrist;
        let ghost cur = self.snapshot();
        let ghost prev = self.history@.last();
        let ghost rec = self.move_list@.last();
        proof {
            assert(step_ok(t, self.history@[self.history@.len() - 1], self.move_list@[self.move_list@.len() - 1], cur));
        }
        self.uncount_position();
        let ghost uncounted = self.repetitions@;
        let ghost key = self.zobrist_key.0;
        self.halfmoves = self.halfmoves.wrapping_sub(1);
        let ghost before_pop = self.move_list@;
        let previous_move = match self.move_list.pop() {
            Some(m) => m,
            None => return,
        };
        self.history = Ghost(self.history@.drop_last());
        proof {
            assert(previous_move == rec);
            assert(record_ok(before_pop[before_pop.len() - 1]));
            assert forall|k: int| 0 <= k < self.move_list.len() implies record_ok(#[trigger] self.move_list[k]) by {
                assert(self.move_list[k] == before_pop[k]);
            }
        }
        if let Some(previous_rights) = previous_move.previous_castling_rights {
            self.set_castling_rights(previous_rights);
        }
        self.set_en_passant(previous_move.previous_en_passant);
        match previous_move.move_made {
            Move::Direct { from, to, promotion } => {
                self.undo_direct(from, to, promotion, previous_move.captured);
                proof {
                    let p = prev.squares[from.idx()]->Some_0;
                    assert(self.squares() =~= prev.squares);
                }
            },
            Move::Castle(direction) => {
                self.revert_castle(direction);
                proof {
                    lemma_opponent_twice(prev.side);
                    assert(self.squares() =~= prev.squares);
                }
            },
        }
        self.toggle_next_player();
        proof {
            lemma_opponent_twice(prev.side);
            let now = self.snapshot();
            assert(now.repetitions == uncounted);
            assert(key == snapshot_key(t, cur));
            assert(counters_ok(t, prev, cur));
            assert forall|k: u64| #[trigger] rep_count(now.repetitions, k) == rep_count(prev.repetitions, k) by {
                lemma_wrapping_round_trip(rep_count(prev.repetitions, k));
                assert(rep_count(uncounted, k) == if k == key {
                    vstd::wrapping::u64_specs::wrapping_sub(rep_count(cur.repetitions, k), 1)
                } else {
                    rep_count(cur.repetitions, k)
                });
                assert(rep_count(cur.repetitions, k) == if k == snapshot_key(t, cur) {
                    vstd::wrapping::u64_specs::wrapping_add(rep_count(prev.repetitions, k), 1)
                } else {
                    rep_count(prev.repetitions, k)
                });
            }
            assert(same_snapshot(now, prev));
            lemma_counts_determine_map(now.repetitions, prev.repetitions);
            lemma_history_pop(t, old(self).history@, old(self).move_list@, cur, now);
        }
    }
}

/// The opponent of the opponent is the color itself.
pub proof fn lemma_opponent_twice(c: PieceColor)
    ensures
        opponent(opponent(c)) == c,
{
}

/// The castle's pieces are on their home squares with the squares between them empty.
fn castle_ready_check(board: &FastBoard, direction: CastleDirection) -> (r: bool)
    requires
        board.wf(),
    ensures
        r == castle_ready(board.squares(), board.next_to_move, direction),
{
    let side = board.next_to_move;
    let rank = FastBoard::home_row(side);
    let king = board.mailbox.get(&BoardPosition::from_rank_file(rank, 4)) == Some(Piece::new(side, PieceType::King));
    let rest = match direction {
        CastleDirection::QueenSide => board.mailbox.get(&BoardPosition::from_rank_file(rank, 0)) == Some(Piece::new(side, PieceType::Rook))
            && board.mailbox.get(&BoardPosition::from_rank_file(rank, 1)).is_none()
            && board.mailbox.get(&BoardPosition::from_rank_file(rank, 2)).is_none()
            && board.mailbox.get(&BoardPosition::from_rank_file(rank, 3)).is_none(),
        CastleDirection::KingSide => board.mailbox.get(&BoardPosition::from_rank_file(rank, 7)) == Some(Piece::new(side, PieceType::Rook))
            && board.mailbox.get(&BoardPosition::from_rank_file(rank, 5)).is_none()
            && board.mailbox.get(&BoardPosition::from_rank_file(rank, 6)).is_none(),
    };
    king && rest
}

/// A piece `p` of the side to move on `pos` reaches square `j` by its own movement rule,
/// before own pieces are taken out.
pub open spec fn reaches(bb: Bitboards, t: LookupTables, pos: BoardPosition, p: Piece, j: int) -> bool {
    let occ = bb.word();
    match p.kind {
        PieceType::King => king_target(pos, j),
        PieceType::Knight => knight_target(pos, j),
        PieceType::Rook => rook_attack(pos, t.rook_blockers(pos, occ), j),
        PieceType::Bishop => bishop_attack(pos, t.bishop_blockers(pos, occ), j),
        PieceType::Queen => rook_attack(pos, t.rook_blockers(pos, occ), j) || bishop_attack(
            pos,
            t.bishop_blockers(pos, occ),
            j,
        ),
        PieceType::Pawn => pawn_reach(p.color, pos, occ, bb.color(opponent(p.color)).word(), j),
    }
}

/// Square `j` holds no piece of color `c`.
pub open spec fn not_own(sq: Seq<Option<Piece>>, c: PieceColor, j: int) -> bool {
    match sq[j] {
        Some(q) => q.color != c,
        None => true,
    }
}

/// One of the first `n` indices of `indices` is `j`.
pub open spec fn dest_in(indices: Seq<u8>, n: int, j: int) -> bool {
    exists|q: int| 0 <= q < n && #[trigger] indices[q] == j
}

/// Some element of `ms` is `m`.
pub open spec fn has_move(ms: Seq<Move>, m: Move) -> bool {
    exists|k: int| 0 <= k < ms.len() && ms[k] == m
}

/// `m` is a candidate move of piece `p` of the side to move on `pos`: a direct move onto a
/// square the piece reaches that holds none of the side's pieces, carrying a promotion exactly
/// when a pawn reaches the last rank.
pub open spec fn piece_move_ok(b: &FastBoard, pos: BoardPosition, p: Piece, m: Move) -> bool {
    match m {
        Move::Direct { from, to, promotion } => {
            &&& from == pos
            &&& to.valid()
            &&& reaches(b.bitboards, b.lookup, pos, p, to.idx())
            &&& not_own(b.squares(), b.next_to_move, to.idx())
            &&& (promotion is Some <==> (p.kind == PieceType::Pawn && to.rank == home_rank(opponent(b.next_to_move))))
        },
        Move::Castle(_) => false,
    }
}

/// A candidate move for the side to move: a direct move of one of its pieces onto a square
/// it reaches without one of its pieces, or a castle whose right it holds with the squares between king
/// and rook empty.
pub open spec fn pseudo_ok(b: &FastBoard, m: Move) -> bool {
    let side = b.next_to_move;
    let sq = b.squares();
    let h = home_rank(side) as int;
    match m {
        Move::Direct { from, to, .. } => from.valid() && to.valid() && (sq[from.idx()] matches Some(p) && p.color == side
            && piece_move_ok(b, from, p, m)),
        Move::Castle(CastleDirection::KingSide) => b.castling_rights.of(side).kingside && sq[h * 8 + 5] is None
            && sq[h * 8 + 6] is None,
        Move::Castle(CastleDirection::QueenSide) => b.castling_rights.of(side).queenside && sq[h * 8 + 1] is None
            && sq[h * 8 + 2] is None && sq[h * 8 + 3] is None,
    }
}

/// A candidate move never meets the three errors about squares: `make_move` on it succeeds
/// or reports an illegal move.
pub proof fn lemma_pseudo_moves_fit(b: &FastBoard, m: Move)
    requires
        b.wf(),
        pseudo_ok(b, m),
    ensures
        structural_error(b.squares(), b.next_to_move, m) is None,
{
}

impl FastBoard {
    /// The candidate moves of the piece `piece` of the side to move on `position`, before
    /// the king-safety filter, each once. A pawn reaching the last rank gives one move per
    /// promotion.
    pub fn calculate_pseudo_moves_for_piece(&self, position: &BoardPosition, piece: &Piece) -> (r: Vec<Move>)
        requires
            self.wf(),
            position.valid(),
            piece.color == self.next_to_move,
        ensures
            forall|m: Move| #[trigger] has_move(r@, m) <==> piece_move_ok(self, *position, *piece, m),
            forall|k: int, l: int| 0 <= k < l < r.len() ==> r[k] != r[l],
    {
        let piece_mask = self.bitboards.all_pieces();
        let side = self.next_to_move;
        let enemy_mask = self.bitboards.get_color(side.other()).any();
        let own_piece_mask = self.bitboards.get_color(side).any();
        let t = &self.lookup;
        let targets = match piece.kind {
            PieceType::King => t.king_lookup(position),
            PieceType::Queen => t.queen_lookup(position, piece_mask),
            PieceType::Bishop => t.bishop_lookup(position, piece_mask),
            PieceType::Knight => t.knight_lookup(position),
            PieceType::Rook => t.rook_lookup(position, piece_mask),
            PieceType::Pawn => t.pawn_lookup(position, side, piece_mask, enemy_mask),
        };
        let legal_square_bitboard = targets.and(own_piece_mask.not());
        proof {
            assert forall|j: int| 0 <= j < 64 implies (legal_square_bitboard.has(j) <==> (reaches(self.bitboards, self.lookup, *position, *piece, j)
                && not_own(self.squares(), side, j))) by {
                if self.bitboards.color(side).occupies(j) {
                    let kk = choose|kk: PieceType| #[trigger] self.bitboards.color(side).of(kk).has(j);
                    assert(self.bitboards.of(side, kk).has(j));
                }
                if !not_own(self.squares(), side, j) {
                    let q = self.squares()[j]->Some_0;
                    assert(self.bitboards.of(side, q.kind).has(j));
                    assert(self.bitboards.color(side).of(q.kind).has(j));
                }
            }
        }
        let indices = legal_square_bitboard.filled_indices();
        let last_rank = Self::home_row(side.other());
        let mut moves: Vec<Move> = Vec::new();
        let mut n: usize = 0;
        while n < indices.len()
            invariant
                self.wf(),
                side == self.next_to_move,
                last_rank == home_rank(opponent(side)),
                position.valid(),
                n <= indices.len(),
                forall|k: int| 0 <= k < indices.len() ==> indices[k] < 64 && legal_square_bitboard.has(indices[k] as int),
                forall|i: int| 0 <= i < 64 && legal_square_bitboard.has(i) ==> exists|k: int| 0 <= k < indices.len() && indices[k] == i,
                forall|k: int, l: int| 0 <= k < l < indices.len() ==> indices[k] < indices[l],
                forall|j: int| 0 <= j < 64 ==> (legal_square_bitboard.has(j) <==> (reaches(self.bitboards, self.lookup, *position, *piece, j)
                    && not_own(self.squares(), side, j))),
                forall|m: Move| #[trigger] has_move(moves@, m) <==> (piece_move_ok(self, *position, *piece, m)
                    && (m matches Move::Direct { to, .. } && dest_in(indices@, n as int, to.idx()))),
                forall|k: int| 0 <= k < moves.len() ==> (#[trigger] moves[k] matches Move::Direct { to, .. } && (n < indices.len() ==> to.idx() < indices[n as int])),
                forall|k: int, l: int| 0 <= k < l < moves.len() ==> moves[k] != moves[l],
            decreases indices.len() - n,
        {
            let dest = BoardPosition::from_index(indices[n]);
            let ghost before = moves@;
            if piece.kind == PieceType::Pawn && dest.rank == last_rank {
                moves.push(Move::Direct { from: *position, to: dest, promotion: Some(Promotion::Rook) });
                moves.push(Move::Direct { from: *position, to: dest, promotion: Some(Promotion::Queen) });
                moves.push(Move::Direct { from: *position, to: dest, promotion: Some(Promotion::Bishop) });
                moves.push(Move::Direct { from: *position, to: dest, promotion: Some(Promotion::Knight) });
            } else {
                moves.push(Move::Direct { from: *position, to: dest, promotion: None });
            }
            proof {
                let added = moves@.subrange(before.len() as int, moves@.len() as int);
                assert forall|m: Move| #[trigger] has_move(moves@, m) <==> (piece_move_ok(self, *position, *piece, m)
                    && (m matches Move::Direct { to, .. } && dest_in(indices@, n + 1, to.idx()))) by {
                    if has_move(moves@, m) {
                        let k = choose|k: int| 0 <= k < moves@.len() && moves@[k] == m;
                        if k < before.len() {
                            assert(has_move(before, m));
                        } else {
                            assert(m matches Move::Direct { to, .. } && to.idx() == indices[n as int]);
                        }
                    }
                    if piece_move_ok(self, *position, *piece, m) && (m matches Move::Direct { to, .. } && dest_in(indices@, n + 1, to.idx())) {
                        let q = choose|q: int| 0 <= q < n + 1 && #[trigger] indices@[q] == m->to.idx();
                        if q < n {
                            assert(dest_in(indices@, n as int, m->to.idx()));
                            assert(has_move(before, m));
                            let k = choose|k: int| 0 <= k < before.len() && before[k] == m;
                            assert(moves@[k] == m);
                        } else {
                            let to = m->to;
                            assert(to == dest);
                            match m->promotion {
                                Some(Promotion::Rook) => assert(moves@[before.len() as int] == m),
                                Some(Promotion::Queen) => assert(moves@[before.len() as int + 1] == m),
                                Some(Promotion::Bishop) => assert(moves@[before.len() as int + 2] == m),
                                Some(Promotion::Knight) => assert(moves@[before.len() as int + 3] == m),
                                None => assert(moves@[before.len() as int] == m),
                            }
                        }
                    }
                }
                assert forall|k: int| 0 <= k < moves.len() implies (#[trigger] moves[k] matches Move::Direct { to, .. } && (n + 1 < indices.len() ==> to.idx() < indices[n + 1])) by {
                    if k < before.len() {
                        assert(moves[k] == before[k]);
                    }
                }
                assert forall|k: int, l: int| 0 <= k < l < moves.len() implies moves[k] != moves[l] by {
                    if l >= before.len() && k < before.len() {
                        assert(moves[k] == before[k]);
                    } else if k < before.len() {
                        assert(moves[k] == before[k]);
                        assert(moves[l] == before[l]);
                    }
                }
            }
            n = n + 1;
        }
        proof {
            assert forall|m: Move| #[trigger] has_move(moves@, m) <==> piece_move_ok(self, *position, *piece, m) by {
                if piece_move_ok(self, *position, *piece, m) {
                    let to = m->to;
                    assert(legal_square_bitboard.has(to.idx()));
                    let q = choose|q: int| 0 <= q < indices.len() && indices[q] == to.idx();
                }
            }
        }
        moves
    }

    /// The candidate moves of the side to move, before the king-safety filter: exactly the
    /// moves that `pseudo_ok` describes.
    pub fn calculate_pseudo_moves(&self) -> (r: Vec<Move>)
        requires
            self.wf(),
        ensures
            forall|m: Move| #[trigger] has_move(r@, m) <==> pseudo_ok(self, m),
    {
        let side = self.next_to_move;
        let pieces = self.mailbox.iter();
        let mut moves: Vec<Move> = Vec::new();
        let mut n: usize = 0;
        while n < pieces.len()
            invariant
                self.wf(),
                side == self.next_to_move,
                n <= pieces.len(),
                forall|k: int| 0 <= k < pieces.len() ==> pieces[k].0.valid() && self.squares()[pieces[k].0.idx()] == Some(pieces[k].1),
                forall|i: int| 0 <= i < 64 && self.squares()[i] is Some ==> exists|k: int| 0 <= k < pieces.len() && pieces[k].0.idx() == i,
                forall|k: int, l: int| 0 <= k < l < pieces.len() ==> pieces[k].0.idx() < pieces[l].0.idx(),
                forall|m: Move| #[trigger] has_move(moves@, m) <==> (m is Direct && pseudo_ok(self, m) && m->from.idx() < bound(pieces@, n as int)),
            decreases pieces.len() - n,
        {
            let (pos, piece) = pieces[n];
            let ghost before = moves@;
            if piece.color == side {
                let piece_moves = self.calculate_pseudo_moves_for_piece(&pos, &piece);
                append_moves(&mut moves, &piece_moves);
            }
            proof {
                lemma_bound_step(self, pieces@, n as int, before, moves@, piece.color == side);
            }
            n = n + 1;
        }
        let rights = self.castling_rights.get(side);
        let (kingside_mask, queenside_mask) = match side {
            PieceColor::White => (Bitboard::from_value(0x60), Bitboard::from_value(0xE)),
            PieceColor::Black => (Bitboard::from_value(0x6000000000000000), Bitboard::from_value(0xE00000000000000)),
        };
        let all = self.bitboards.all_pieces();
        let h = Self::home_row(side);
        proof {
            lemma_mask_bits(side);
            lemma_empty_iff(self, h as int * 8 + 5);
            lemma_empty_iff(self, h as int * 8 + 6);
            lemma_empty_iff(self, h as int * 8 + 1);
            lemma_empty_iff(self, h as int * 8 + 2);
            lemma_empty_iff(self, h as int * 8 + 3);
            lemma_path_masks(all.0, side);
        }
        let ghost directs = moves@;
        let k_and = all.and(kingside_mask);
        let q_and = all.and(queenside_mask);
        let kingside = rights.kingside && k_and.is_empty();
        let queenside = rights.queenside && q_and.is_empty();
        if kingside {
            moves.push(Move::Castle(CastleDirection::KingSide));
        }
        let ghost with_king = moves@;
        if queenside {
            moves.push(Move::Castle(CastleDirection::QueenSide));
        }
        proof {
            let hh = h as int;
            assert(all.has(hh * 8 + 5) == bit(all.0, hh * 8 + 5));
            if side == PieceColor::White {
                assert(hh == 0);
                assert(k_and.0 == all.0 & 0x60);
                assert(q_and.0 == all.0 & 0xE);
            } else {
                assert(hh == 7);
                assert(k_and.0 == all.0 & 0x6000000000000000);
                assert(q_and.0 == all.0 & 0xE00000000000000);
            }
            assert((k_and.0 == 0) == (!all.has(hh * 8 + 5) && !all.has(hh * 8 + 6)));
            assert((q_and.0 == 0) == (!all.has(hh * 8 + 1) && !all.has(hh * 8 + 2) && !all.has(hh * 8 + 3)));
            assert(kingside == pseudo_ok(self, Move::Castle(CastleDirection::KingSide)));
            assert(queenside == pseudo_ok(self, Move::Castle(CastleDirection::QueenSide)));
            assert forall|x: Move| #[trigger] has_move(moves@, x) <==> pseudo_ok(self, x) by {
                if x is Direct {
                    if has_move(moves@, x) {
                        let k = choose|k: int| 0 <= k < moves@.len() && moves@[k] == x;
                        assert(k < directs.len());
                        assert(has_move(directs, x));
                    }
                    if pseudo_ok(self, x) {
                        assert(x->from.idx() < 64);
                        assert(has_move(directs, x));
                        let k = choose|k: int| 0 <= k < directs.len() && directs[k] == x;
                        assert(moves@[k] == x);
                    }
                } else {
                    if has_move(moves@, x) {
                        let k = choose|k: int| 0 <= k < moves@.len() && moves@[k] == x;
                        if k < directs.len() {
                            assert(has_move(directs, x));
                        }
                    }
                    if x == Move::Castle(CastleDirection::KingSide) && kingside {
                        assert(moves@[directs.len() as int] == x);
                    }
                    if x == Move::Castle(CastleDirection::QueenSide) && queenside {
                        assert(moves@[with_king.len() as int] == x);
                    }
                }
            }
        }
        moves
    }
}

/// Appends the moves of `extra` to `moves`.
fn append_moves(moves: &mut Vec<Move>, extra: &Vec<Move>)
    ensures
        forall|x: Move| #[trigger] has_move(final(moves)@, x) <==> (has_move(old(moves)@, x) || has_move(extra@, x)),
{
    let ghost start = moves@;
    let mut m: usize = 0;
    while m < extra.len()
        invariant
            m <= extra.len(),
            forall|x: Move| #[trigger] has_move(moves@, x) <==> (has_move(start, x) || has_move(extra@.take(m as int), x)),
        decreases extra.len() - m,
    {
        let ghost inner = moves@;
        moves.push(extra[m]);
        proof {
            assert forall|x: Move| #[trigger] has_move(moves@, x) <==> (has_move(start, x) || has_move(extra@.take(m + 1), x)) by {
                if has_move(moves@, x) {
                    let k = choose|k: int| 0 <= k < moves@.len() && moves@[k] == x;
                    if k < inner.len() {
                        assert(inner[k] == x);
                    } else {
                        assert(extra@.take(m + 1)[m as int] == x);
                    }
                }
                if has_move(inner, x) {
                    let k = choose|k: int| 0 <= k < inner.len() && inner[k] == x;
                    assert(moves@[k] == x);
                }
                if has_move(extra@.take(m + 1), x) {
                    let k = choose|k: int| 0 <= k < m + 1 && #[trigger] extra@.take(m + 1)[k] == x;
                    if k == m {
                        assert(moves@[inner.len() as int] == x);
                    } else {
                        assert(extra@.take(m as int)[k] == x);
                    }
                }
            }
        }
        m = m + 1;
    }
    proof {
        assert(extra@.take(extra.len() as int) =~= extra@);
    }
}

/// The index below which the pieces of a sorted piece list have been handled after `n` of
/// them: the next piece's square, or 64 when all are.
pub open spec fn bound(pieces: Seq<(BoardPosition, Piece)>, n: int) -> int {
    if n < pieces.len() {
        pieces[n].0.idx()
    } else {
        64
    }
}

proof fn lemma_bound_step(b: &FastBoard, pieces: Seq<(BoardPosition, Piece)>, n: int, before: Seq<Move>, after: Seq<Move>, own: bool)
    requires
        b.wf(),
        0 <= n < pieces.len(),
        forall|k: int| 0 <= k < pieces.len() ==> pieces[k].0.valid() && b.squares()[pieces[k].0.idx()] == Some(pieces[k].1),
        forall|i: int| 0 <= i < 64 && b.squares()[i] is Some ==> exists|k: int| 0 <= k < pieces.len() && pieces[k].0.idx() == i,
        forall|k: int, l: int| 0 <= k < l < pieces.len() ==> pieces[k].0.idx() < pieces[l].0.idx(),
        forall|m: Move| #[trigger] has_move(before, m) <==> (m is Direct && pseudo_ok(b, m) && m->from.idx() < bound(pieces, n)),
        own == (pieces[n].1.color == b.next_to_move),
        own ==> forall|x: Move| #[trigger] has_move(after, x) <==> (has_move(before, x) || piece_move_ok(b, pieces[n].0, pieces[n].1, x)),
        !own ==> after == before,
    ensures
        forall|m: Move| #[trigger] has_move(after, m) <==> (m is Direct && pseudo_ok(b, m) && m->from.idx() < bound(pieces, n + 1)),
{
    assert forall|m: Move| #[trigger] has_move(after, m) <==> (m is Direct && pseudo_ok(b, m) && m->from.idx() < bound(pieces, n + 1)) by {
        if m is Direct && pseudo_ok(b, m) {
            let f = m->from.idx();
            if bound(pieces, n) <= f && f < bound(pieces, n + 1) {
                let k = choose|k: int| 0 <= k < pieces.len() && pieces[k].0.idx() == f;
                if k < n {
                    assert(pieces[k].0.idx() < pieces[n].0.idx());
                } else if k > n {
                    assert(pieces[n].0.idx() < pieces[k].0.idx());
                    if k > n + 1 {
                        assert(pieces[n + 1].0.idx() < pieces[k].0.idx());
                    }
                }
                assert(k == n);
                assert(m->from == pieces[n].0);
            }
        }
        if own && piece_move_ok(b, pieces[n].0, pieces[n].1, m) {
            if n + 1 < pieces.len() {
                assert(pieces[n].0.idx() < pieces[n + 1].0.idx());
            }
        }
    }
}

/// A square is empty exactly when it is not in the occupied set.
proof fn lemma_empty_iff(b: &FastBoard, i: int)
    requires
        b.wf(),
        0 <= i < 64,
    ensures
        b.squares()[i] is None <==> !(b.bitboards.white.occupies(i) || b.bitboards.black.occupies(i)),
{
    if !(b.bitboards.white.occupies(i) || b.bitboards.black.occupies(i)) {
        lemma_empty_square(b, i);
    }
    if b.bitboards.white.occupies(i) {
        let k = choose|k: PieceType| #[trigger] b.bitboards.white.of(k).has(i);
        assert(b.bitboards.of(PieceColor::White, k).has(i));
    }
    if b.bitboards.black.occupies(i) {
        let k = choose|k: PieceType| #[trigger] b.bitboards.black.of(k).has(i);
        assert(b.bitboards.of(PieceColor::Black, k).has(i));
    }
    if b.squares()[i] is Some {
        let q = b.squares()[i]->Some_0;
        assert(b.bitboards.of(q.color, q.kind).has(i));
        match q.color {
            PieceColor::White => {
                assert(b.bitboards.white.of(q.kind).has(i));
                assert(b.bitboards.white.occupies(i));
            },
            PieceColor::Black => {
                assert(b.bitboards.black.of(q.kind).has(i));
                assert(b.bitboards.black.occupies(i));
            },
        }
    }
}

/// The castle path masks hold exactly the squares between king and rook.
proof fn lemma_path_masks(x: u64, side: PieceColor)
    ensures
        side == PieceColor::White ==> ((x & 0x60 == 0) <==> (!bit(x, 5) && !bit(x, 6))),
        side == PieceColor::White ==> ((x & 0xE == 0) <==> (!bit(x, 1) && !bit(x, 2) && !bit(x, 3))),
        side == PieceColor::Black ==> ((x & 0x6000000000000000 == 0) <==> (!bit(x, 61) && !bit(x, 62))),
        side == PieceColor::Black ==> ((x & 0xE00000000000000 == 0) <==> (!bit(x, 57) && !bit(x, 58) && !bit(x, 59))),
{
    assert((x & 0x60 == 0) <==> ((x >> 5u64) & 1 != 1 && (x >> 6u64) & 1 != 1)) by (bit_vector);
    assert((x & 0xE == 0) <==> ((x >> 1u64) & 1 != 1 && (x >> 2u64) & 1 != 1 && (x >> 3u64) & 1 != 1)) by (bit_vector);
    assert((x & 0x6000000000000000 == 0) <==> ((x >> 61u64) & 1 != 1 && (x >> 62u64) & 1 != 1)) by (bit_vector);
    assert((x & 0xE00000000000000 == 0) <==> ((x >> 57u64) & 1 != 1 && (x >> 58u64) & 1 != 1 && (x >> 59u64) & 1 != 1)) by (bit_vector);
}

/// A square outside the occupied set holds no piece.
proof fn lemma_empty_square(b: &FastBoard, i: int)
    requires
        b.wf(),
        0 <= i < 64,
        !(b.bitboards.white.occupies(i) || b.bitboards.black.occupies(i)),
    ensures
        b.squares()[i] is None,
{
    if b.squares()[i] is Some {
        let q = b.squares()[i]->Some_0;
        assert(b.bitboards.of(q.color, q.kind).has(i));
        match q.color {
            PieceColor::White => {
                assert(b.bitboards.white.of(q.kind).has(i));
                assert(b.bitboards.white.occupies(i));
            },
            PieceColor::Black => {
                assert(b.bitboards.black.of(q.kind).has(i));
                assert(b.bitboards.black.occupies(i));
            },
        }
    }
}

/// The castle path masks hold the squares between king and rook.
proof fn lemma_mask_bits(side: PieceColor)
    ensures
        side == PieceColor::White ==> bit(0x60, 5) && bit(0x60, 6) && bit(0xE, 1) && bit(0xE, 2) && bit(0xE, 3),
        side == PieceColor::Black ==> bit(0x6000000000000000, 61) && bit(0x6000000000000000, 62) && bit(0xE00000000000000, 57)
            && bit(0xE00000000000000, 58) && bit(0xE00000000000000, 59),
{
    assert((0x60u64 >> 5u64) & 1 == 1 && (0x60u64 >> 6u64) & 1 == 1 && (0xEu64 >> 1u64) & 1 == 1
        && (0xEu64 >> 2u64) & 1 == 1 && (0xEu64 >> 3u64) & 1 == 1 && (0x6000000000000000u64 >> 61u64) & 1 == 1
        && (0x6000000000000000u64 >> 62u64) & 1 == 1 && (0xE00000000000000u64 >> 57u64) & 1 == 1
        && (0xE00000000000000u64 >> 58u64) & 1 == 1 && (0xE00000000000000u64 >> 59u64) & 1 == 1) by (bit_vector);
}

/// Material worth of a kind, in centipawns.
pub open spec fn piece_worth(k: PieceType) -> int {
    match k {
        PieceType::King => 20000,
        PieceType::Queen => 900,
        PieceType::Rook => 500,
        PieceType::Bishop => 330,
        PieceType::Knight => 320,
        PieceType::Pawn => 100,
    }
}

/// The table square of a piece on the square of index `i`: the tables are written from
/// white's side, so white's ranks are mirrored.
pub open spec fn table_square(p: Piece, i: int) -> int {
    match p.color {
        PieceColor::Black => i,
        PieceColor::White => (7 - i / 8) * 8 + i % 8,
    }
}

/// What the content of square `i` adds to the score of `side`: worth plus table bonus,
/// counted for the side's own pieces and against the opponent's.
pub open spec fn square_score(sq: Seq<Option<Piece>>, side: PieceColor, i: int) -> int {
    match sq[i] {
        Some(p) => {
            let v = piece_worth(p.kind) + pst_table(p.kind)[table_square(p, i)];
            if p.color == side {
                v
            } else {
                -v
            }
        },
        None => 0,
    }
}

/// The score of the first `n` squares for `side`.
pub open spec fn material(sq: Seq<Option<Piece>>, side: PieceColor, n: int) -> int
    decreases n,
{
    if n <= 0 {
        0
    } else {
        material(sq, side, n - 1) + square_score(sq, side, n - 1)
    }
}

impl FastBoard {
    /// The static score of the position for the side to move.
    pub open spec fn evaluate_spec(&self) -> int {
        material(self.squares(), self.next_to_move, 64)
    }

    /// The static score of the position for the side to move.
    pub fn evaluate(&self) -> (r: i32)
        requires
            self.wf(),
        ensures
            r == self.evaluate_spec(),
            -64 * 20050 <= r <= 64 * 20050,
    {
        let mut score: i32 = 0;
        let mut i: u8 = 0;
        while i < 64
            invariant
                i <= 64,
                self.wf(),
                score == material(self.squares(), self.next_to_move, i as int),
                -20050 * i <= score <= 20050 * i,
            decreases 64 - i,
        {
            if let Some(piece) = self.mailbox.pieces[i as usize] {
                let worth: i32 = match piece.kind {
                    PieceType::King => 20000,
                    PieceType::Queen => 900,
                    PieceType::Rook => 500,
                    PieceType::Bishop => 330,
                    PieceType::Knight => 320,
                    PieceType::Pawn => 100,
                };
                let rank = i / 8;
                let file = i % 8;
                let table_index: u8 = match piece.color {
                    PieceColor::Black => i,
                    PieceColor::White => (7 - rank) * 8 + file,
                };
                let total = worth + pst_bonus(piece.kind, table_index as usize);
                if piece.color == self.next_to_move {
                    score = score + total;
                } else {
                    score = score - total;
                }
            }
            i = i + 1;
        }
        score
    }
}

/// The text of one rank from `file` on, `run` empty squares already passed: pieces by
/// letter, runs of empty squares by their count.
pub open spec fn rank_text(sq: Seq<Option<Piece>>, rank: int, file: int, run: nat) -> Seq<char>
    decreases 8 - file,
{
    if file >= 8 {
        if run > 0 {
            seq![digit_char(run)]
        } else {
            Seq::empty()
        }
    } else {
        match sq[rank * 8 + file] {
            Some(p) => (if run > 0 {
                seq![digit_char(run)]
            } else {
                Seq::empty()
            }) + seq![piece_letter(p)] + rank_text(sq, rank, file + 1, 0),
            None => rank_text(sq, rank, file + 1, run + 1),
        }
    }
}

/// The placement field from `rank` down to the first rank, ranks separated by `/`.
pub open spec fn placement_text(sq: Seq<Option<Piece>>, rank: int) -> Seq<char>
    decreases rank,
{
    if rank <= 0 {
        rank_text(sq, 0, 0, 0)
    } else {
        rank_text(sq, rank, 0, 0) + seq!['/'] + placement_text(sq, rank - 1)
    }
}

/// The castling field: the rights held as `KQkq`, or `-` when none is.
pub open spec fn castling_text(r: CastlingRights) -> Seq<char> {
    let t = (if r.white.kingside { seq!['K'] } else { Seq::<char>::empty() }) + (if r.white.queenside {
        seq!['Q']
    } else {
        Seq::<char>::empty()
    }) + (if r.black.kingside { seq!['k'] } else { Seq::<char>::empty() }) + (if r.black.queenside {
        seq!['q']
    } else {
        Seq::<char>::empty()
    });
    if t.len() == 0 {
        seq!['-']
    } else {
        t
    }
}

/// The en-passant field: the square behind the pawn that just advanced two ranks, or `-`.
pub open spec fn en_passant_text(ep: Option<u8>, side: PieceColor) -> Seq<char> {
    match ep {
        Some(f) => seq![((f + 97) as u8) as char, if side == PieceColor::White { '6' } else { '3' }],
        None => seq!['-'],
    }
}

/// The FEN text of a position; its last two fields are the halfmove counter and half of it.
pub open spec fn fen_text(b: &FastBoard) -> Seq<char> {
    placement_text(b.squares(), 7) + seq![' '] + seq![if b.next_to_move == PieceColor::White { 'w' } else { 'b' }]
        + seq![' '] + castling_text(b.castling_rights) + seq![' '] + en_passant_text(b.en_passant, b.next_to_move)
        + seq![' '] + decimal(b.halfmoves as nat) + seq![' '] + decimal((b.halfmoves / 2) as nat)
}

impl FastBoard {
    fn push_rank(&self, out: &mut Vec<char>, rank: u8)
        requires
            self.wf(),
            rank < 8,
        ensures
            final(out)@ == old(out)@ + rank_text(self.squares(), rank as int, 0, 0),
    {
        let ghost start = out@;
        let mut empty: u8 = 0;
        let mut file: u8 = 0;
        while file < 8
            invariant
                self.wf(),
                rank < 8,
                file <= 8,
                empty <= file,
                out@ + rank_text(self.squares(), rank as int, file as int, empty as nat) == start + rank_text(self.squares(), rank as int, 0, 0),
            decreases 8 - file,
        {
            let ghost before = out@;
            let ghost e0 = empty;
            match self.mailbox.get(&BoardPosition::from_rank_file(rank, file)) {
                Some(piece) => {
                    if empty > 0 {
                        out.push((empty + 48) as char);
                    }
                    out.push(piece.to_char());
                    empty = 0;
                    proof {
                        assert(out@ =~= before + (if e0 > 0 { seq![digit_char(e0 as nat)] } else { Seq::<char>::empty() }) + seq![piece_letter(piece)]);
                        assert(rank_text(self.squares(), rank as int, file as int, e0 as nat) == (if e0 > 0 { seq![digit_char(e0 as nat)] } else { Seq::<char>::empty() }) + seq![piece_letter(piece)] + rank_text(self.squares(), rank as int, file + 1, 0));
                        assert(out@ + rank_text(self.squares(), rank as int, file + 1, 0) =~= before + rank_text(self.squares(), rank as int, file as int, e0 as nat));
                    }
                },
                None => {
                    empty = empty + 1;
                },
            }
            file = file + 1;
        }
        let ghost before = out@;
        if empty > 0 {
            out.push((empty + 48) as char);
        }
        proof {
            assert(out@ =~= before + rank_text(self.squares(), rank as int, 8, empty as nat));
        }
    }
}

impl FastBoard {
    /// The position in FEN: placement, side to move, castling rights, en-passant square,
    /// then the halfmove counter and half of it.
    pub fn to_fen(&self) -> (r: String)
        requires
            self.wf(),
        ensures
            r@ == fen_text(self),
    {
        let mut out: Vec<char> = Vec::new();
        self.push_placement(&mut out, 7);
        out.push(' ');
        out.push(
            match self.next_to_move {
                PieceColor::White => 'w',
                PieceColor::Black => 'b',
            },
        );
        out.push(' ');
        self.push_castling(&mut out);
        out.push(' ');
        self.push_en_passant(&mut out);
        out.push(' ');
        push_decimal(&mut out, self.halfmoves);
        out.push(' ');
        push_decimal(&mut out, self.halfmoves / 2);
        proof {
            assert(out@ =~= fen_text(self));
        }
        string_of_chars(&out)
    }

    fn push_placement(&self, out: &mut Vec<char>, rank: u8)
        requires
            self.wf(),
            rank < 8,
        ensures
            final(out)@ == old(out)@ + placement_text(self.squares(), rank as int),
        decreases rank,
    {
        let ghost start = out@;
        self.push_rank(out, rank);
        if rank > 0 {
            out.push('/');
            self.push_placement(out, rank - 1);
            proof {
                assert(out@ =~= start + placement_text(self.squares(), rank as int));
            }
        }
    }

    fn push_castling(&self, out: &mut Vec<char>)
        ensures
            final(out)@ == old(out)@ + castling_text(self.castling_rights),
    {
        let ghost start = out@;
        let mut any = false;
        if self.castling_rights.white.kingside {
            out.push('K');
            any = true;
        }
        if self.castling_rights.white.queenside {
            out.push('Q');
            any = true;
        }
        if self.castling_rights.black.kingside {
            out.push('k');
            any = true;
        }
        if self.castling_rights.black.queenside {
            out.push('q');
            any = true;
        }
        if !any {
            out.push('-');
        }
        proof {
            assert(out@ =~= start + castling_text(self.castling_rights));
        }
    }

    fn push_en_passant(&self, out: &mut Vec<char>)
        requires
            self.wf(),
        ensures
            final(out)@ == old(out)@ + en_passant_text(self.en_passant, self.next_to_move),
    {
        let ghost start = out@;
        match self.en_passant {
            Some(file) => {
                let letter: u8 = file + 97;
                out.push(letter as char);
                out.push(
                    match self.next_to_move {
                        PieceColor::White => '6',
                        PieceColor::Black => '3',
                    },
                );
            },
            None => {
                out.push('-');
            },
        }
        proof {
            assert(out@ =~= start + en_passant_text(self.en_passant, self.next_to_move));
        }
    }

    /// How many times the current position has been reached.
    pub fn get_repetitions(&self) -> (r: u64)
        ensures
            r == rep_count(self.repetitions@, self.zobrist_key.0),
    {
        match self.repetitions.get(&self.zobrist_key.0) {
            Some(c) => *c,
            None => 0,
        }
    }
}

/// Why a FEN text was refused.
#[derive(Debug, PartialEq, Eq, Structural, Copy, Clone)]
pub enum FenError {
    /// Not exactly six space-separated fields.
    FieldCount,
    /// Not exactly eight ranks in the placement field.
    RankCount,
    /// A placement character that is neither a digit nor a piece letter.
    InvalidPiece,
    /// A rank that runs past the eighth file.
    RankOverflow,
    /// A rank that ends before the eighth file.
    ShortRank,
    /// An active color other than `w` or `b`.
    InvalidColor,
    /// An en-passant field that is neither `-` nor a square.
    InvalidEnPassant,
    /// A halfmove clock that is not a decimal number of 64 bits.
    InvalidHalfmoves,
}

/// An en-passant field: `-` or a square.
pub open spec fn en_passant_field_ok(t: Seq<char>) -> bool {
    t == seq!['-'] || (t.len() == 2 && 'a' <= t[0] <= 'h' && '1' <= t[1] <= '8')
}

/// A FEN text that `from_fen` reads: six space-separated fields, a placement of eight ranks
/// of eight files each, `w` or `b`, an en-passant field that is `-` or a square, and a
/// halfmove clock of decimal digits that fits in 64 bits (the castling field is searched
/// for `KQkq`, the fullmove number is not read).
pub open spec fn fen_ok(s: Seq<char>) -> bool {
    let f = split_fields(s, ' ');
    &&& f.len() == 6
    &&& split_fields(f[0], '/').len() == 8
    &&& read_placement(split_fields(f[0], '/'), 0, empty_squares()) is Some
    &&& (f[1] == seq!['w'] || f[1] == seq!['b'])
    &&& en_passant_field_ok(f[3])
    &&& f[4].len() > 0 && all_digits(f[4]) && decimal_value(f[4]) <= u64::MAX
}

/// The en-passant file an en-passant field names.
pub open spec fn en_passant_of_text(t: Seq<char>) -> Option<u8> {
    if t == seq!['-'] {
        None
    } else {
        Some((t[0] as int - 97) as u8)
    }
}

/// The castling rights that a castling field names.
pub open spec fn rights_of_text(t: Seq<char>) -> CastlingRights {
    CastlingRights {
        white: PlayerCastlingRights { queenside: t.contains('Q'), kingside: t.contains('K') },
        black: PlayerCastlingRights { queenside: t.contains('q'), kingside: t.contains('k') },
    }
}

/// The kind a piece letter names, either case.
pub open spec fn kind_of_letter(c: char) -> Option<PieceType> {
    if c == 'p' || c == 'P' {
        Some(PieceType::Pawn)
    } else if c == 'n' || c == 'N' {
        Some(PieceType::Knight)
    } else if c == 'b' || c == 'B' {
        Some(PieceType::Bishop)
    } else if c == 'r' || c == 'R' {
        Some(PieceType::Rook)
    } else if c == 'q' || c == 'Q' {
        Some(PieceType::Queen)
    } else if c == 'k' || c == 'K' {
        Some(PieceType::King)
    } else {
        None
    }
}

/// The color a piece letter names: upper case for white.
pub open spec fn color_of_letter(c: char) -> PieceColor {
    if 'A' <= c && c <= 'Z' {
        PieceColor::White
    } else {
        PieceColor::Black
    }
}

/// The squares after reading the placement text `t` of one rank from character `i` on, the
/// next square being at `file`; `None` when a character is neither a digit nor a piece
/// letter or the rank does not cover exactly eight files.
pub open spec fn read_rank(t: Seq<char>, i: int, rank: int, file: int, sq: Seq<Option<Piece>>) -> Option<Seq<Option<Piece>>>
    decreases t.len() - i,
{
    if i >= t.len() || i < 0 {
        if file == 8 {
            Some(sq)
        } else {
            None
        }
    } else if '0' <= t[i] && t[i] <= '9' {
        let f = file + (t[i] as int - 48);
        if f > 8 {
            None
        } else {
            read_rank(t, i + 1, rank, f, sq)
        }
    } else {
        match kind_of_letter(t[i]) {
            None => None,
            Some(k) => if file >= 8 {
                None
            } else {
                read_rank(t, i + 1, rank, file + 1, sq.update(rank * 8 + file, Some(Piece { color: color_of_letter(t[i]), kind: k })))
            },
        }
    }
}

/// The squares after reading the placement ranks from `row` on (row 0 being the eighth
/// rank).
pub open spec fn read_placement(ranks: Seq<Seq<char>>, row: int, sq: Seq<Option<Piece>>) -> Option<Seq<Option<Piece>>>
    decreases 8 - row,
{
    if row >= 8 || row < 0 {
        Some(sq)
    } else {
        match read_rank(ranks[row], 0, 7 - row, 0, sq) {
            Some(next) => read_placement(ranks, row + 1, next),
            None => None,
        }
    }
}

/// The 64 empty squares.
pub open spec fn empty_squares() -> Seq<Option<Piece>> {
    Seq::new(64, |i: int| None::<Piece>)
}

fn contains_char(v: &Vec<char>, c: char) -> (r: bool)
    ensures
        r == v@.contains(c),
{
    let mut i: usize = 0;
    while i < v.len()
        invariant
            i <= v.len(),
            forall|k: int| 0 <= k < i ==> v@[k] != c,
        decreases v.len() - i,
    {
        if v[i] == c {
            proof {
                assert(v@[i as int] == c);
            }
            return true;
        }
        i = i + 1;
    }
    false
}

fn kind_of_char(c: char) -> (r: Option<PieceType>)
    ensures
        r == kind_of_letter(c),
{
    if c == 'p' || c == 'P' {
        Some(PieceType::Pawn)
    } else if c == 'n' || c == 'N' {
        Some(PieceType::Knight)
    } else if c == 'b' || c == 'B' {
        Some(PieceType::Bishop)
    } else if c == 'r' || c == 'R' {
        Some(PieceType::Rook)
    } else if c == 'q' || c == 'Q' {
        Some(PieceType::Queen)
    } else if c == 'k' || c == 'K' {
        Some(PieceType::King)
    } else {
        None
    }
}

impl FastBoard {
    /// Places the pieces of one placement rank (`row` counted from the eighth rank).
    fn place_rank(&mut self, text: &Vec<char>, row: u8) -> (r: Result<(), FenError>)
        requires
            old(self).wf(),
            row < 8,
        ensures
            final(self).wf(),
            final(self).same_state(&*old(self)),
            r matches Err(e) ==> (e == FenError::RankOverflow || e == FenError::InvalidPiece || e == FenError::ShortRank),
            r is Ok <==> read_rank(text@, 0, 7 - row, 0, old(self).squares()) is Some,
            r is Ok ==> read_rank(text@, 0, 7 - row, 0, old(self).squares()) == Some(final(self).squares()),
    {
        let mut file: u32 = 0;
        let mut i: usize = 0;
        while i < text.len()
            invariant
                self.wf(),
                self.same_state(&*old(self)),
                row < 8,
                file <= 8,
                i <= text.len(),
                read_rank(text@, 0, 7 - row, 0, old(self).squares()) == read_rank(text@, i as int, 7 - row, file as int, self.squares()),
            decreases text.len() - i,
        {
            let c = text[i];
            if '0' <= c && c <= '9' {
                file = file + (c as u32 - 48);
                if file > 8 {
                    return Err(FenError::RankOverflow);
                }
            } else {
                let kind = match kind_of_char(c) {
                    Some(k) => k,
                    None => return Err(FenError::InvalidPiece),
                };
                if file >= 8 {
                    return Err(FenError::RankOverflow);
                }
                let color = if 'A' <= c && c <= 'Z' {
                    PieceColor::White
                } else {
                    PieceColor::Black
                };
                self.place_piece(BoardPosition::from_rank_file(7 - row, file as u8), Piece::new(color, kind));
                file = file + 1;
            }
            i = i + 1;
        }
        if file != 8 {
            return Err(FenError::ShortRank);
        }
        Ok(())
    }

    /// Reads a position from the six fields of a FEN text: placement, active color,
    /// castling rights, en-passant square (only its file is kept), halfmove clock and
    /// fullmove number (not kept). The position counts as reached once.
    #[verifier::rlimit(60)]
    pub fn from_fen(fen: &str) -> (r: Result<Self, FenError>)
        ensures
            split_fields(fen@, ' ').len() != 6 <==> r == Err::<Self, FenError>(FenError::FieldCount),
            split_fields(fen@, ' ').len() == 6 && split_fields(split_fields(fen@, ' ')[0], '/').len() != 8
                ==> r == Err::<Self, FenError>(FenError::RankCount),
            r is Ok <==> fen_ok(fen@),
            r matches Ok(b) ==> {
                let f = split_fields(fen@, ' ');
                &&& b.valid()
                &&& read_placement(split_fields(f[0], '/'), 0, empty_squares()) == Some(b.squares())
                &&& b.move_list.len() == 0
                &&& b.next_to_move == (if f[1] == seq!['w'] { PieceColor::White } else { PieceColor::Black })
                &&& (f[1] == seq!['w'] || f[1] == seq!['b'])
                &&& b.castling_rights == rights_of_text(f[2])
                &&& (f[3] == seq!['-'] <==> b.en_passant is None)
                &&& b.en_passant == en_passant_of_text(f[3])
                &&& (b.en_passant matches Some(e) ==> f[3].len() > 0 && f[3][0] == ((e + 97) as u8) as char)
                &&& all_digits(f[4]) && f[4].len() > 0
                &&& b.halfmoves == decimal_value(f[4])
                &&& rep_count(b.repetitions@, b.zobrist_key.0) == 1
                &&& counted_once(b.zobrist, b.snapshot())
            },
    {
        let chars = chars_of_str(fen);
        let fields = split(&chars, ' ');
        proof {
            assert(fields@.map_values(|v: Vec<char>| v@).len() == fields.len());
        }
        if fields.len() != 6 {
            return Err(FenError::FieldCount);
        }
        let ghost f = split_fields(fen@, ' ');
        proof {
            assert forall|k: int| 0 <= k < 6 implies fields[k]@ == f[k] by {
                assert(fields@.map_values(|v: Vec<char>| v@)[k] == fields[k]@);
            }
        }
        let ranks = split(&fields[0], '/');
        proof {
            assert(ranks@.map_values(|v: Vec<char>| v@).len() == ranks.len());
        }
        if ranks.len() != 8 {
            return Err(FenError::RankCount);
        }
        let ghost rs = split_fields(f[0], '/');
        proof {
            assert(fields[0]@ == f[0]);
            assert forall|k: int| 0 <= k < 8 implies ranks[k]@ == rs[k] by {
                assert(ranks@.map_values(|v: Vec<char>| v@)[k] == ranks[k]@);
            }
        }
        let mut board = Self::empty();
        proof {
            assert(board.squares() =~= empty_squares());
        }
        let mut row: u8 = 0;
        while row < 8
            invariant
                board.wf(),
                board.move_list.len() == 0,
                board.next_to_move == PieceColor::White,
                board.repetitions@ == Map::<u64, u64>::empty(),
                board.en_passant is None,
                board.history@.len() == 0,
                ranks.len() == 8,
                row <= 8,
                fields.len() == 6,
                f == split_fields(fen@, ' '),
                f.len() == 6,
                forall|k: int| 0 <= k < 6 ==> fields[k]@ == f[k],
                split_fields(f[0], '/').len() == 8,
                rs == split_fields(f[0], '/'),
                forall|k: int| 0 <= k < 8 ==> ranks[k]@ == rs[k],
                read_placement(rs, 0, empty_squares()) == read_placement(rs, row as int, board.squares()),
            decreases 8 - row,
        {
            let ghost before = board.squares();
            match board.place_rank(&ranks[row as usize], row) {
                Ok(()) => {},
                Err(e) => {
                    proof {
                        assert(read_placement(rs, row as int, before) is None);
                    }
                    return Err(e);
                },
            }
            proof {
                assert(read_placement(rs, row as int, before) == read_placement(rs, row + 1, board.squares()));
            }
            row = row + 1;
        }
        let side = &fields[1];
        if side.len() == 1 && side[0] == 'w' {
            proof {
                assert(side@ =~= seq!['w']);
            }
        } else if side.len() == 1 && side[0] == 'b' {
            proof {
                assert(side@ =~= seq!['b']);
            }
            board.toggle_next_player();
        } else {
            return Err(FenError::InvalidColor);
        }
        let rights_text = &fields[2];
        let rights = CastlingRights {
            white: PlayerCastlingRights {
                queenside: contains_char(rights_text, 'Q'),
                kingside: contains_char(rights_text, 'K'),
            },
            black: PlayerCastlingRights {
                queenside: contains_char(rights_text, 'q'),
                kingside: contains_char(rights_text, 'k'),
            },
        };
        board.set_castling_rights(rights);
        let ep_text = &fields[3];
        proof {
            assert(ep_text@ == f[3]);
        }
        if ep_text.len() == 1 && ep_text[0] == '-' {
            proof {
                assert(ep_text@ =~= seq!['-']);
            }
        } else {
            if ep_text.len() != 2 || ep_text[0] < 'a' || ep_text[0] > 'h' || ep_text[1] < '1' || ep_text[1] > '8' {
                return Err(FenError::InvalidEnPassant);
            }
            let file: u8 = (ep_text[0] as u32 - 97) as u8;
            proof {
                assert(ep_text@ != seq!['-']);
            }
            board.set_en_passant(Some(file));
        }
        let halfmoves = match parse_decimal(&fields[4]) {
            Some(h) => h,
            None => return Err(FenError::InvalidHalfmoves),
        };
        board.halfmoves = halfmoves;
        board.repetitions.insert(board.zobrist_key.0, 1);
        proof {
            assert(fields[2]@ == f[2]);
            assert(fields[4]@ == f[4]);
            assert(board.castling_rights == rights_of_text(f[2]));
            assert(board.wf());
            assert(board.move_list.len() == 0);
            assert(board.next_to_move == (if f[1] == seq!['w'] { PieceColor::White } else { PieceColor::Black }));
            assert(f[3] == seq!['-'] <==> board.en_passant is None);
            assert(board.en_passant matches Some(e) ==> f[3].len() > 0 && f[3][0] == ((e + 97) as u8) as char);
            assert(rep_count(board.repetitions@, board.zobrist_key.0) == 1);
        }
        Ok(board)
    }
}

/// The kind that starts on file `f` of the back rank.
pub open spec fn back_rank_kind(f: int) -> PieceType {
    if f == 0 || f == 7 {
        PieceType::Rook
    } else if f == 1 || f == 6 {
        PieceType::Knight
    } else if f == 2 || f == 5 {
        PieceType::Bishop
    } else if f == 3 {
        PieceType::Queen
    } else {
        PieceType::King
    }
}

/// The content of square `i` in the standard start position.
pub open spec fn initial_square(i: int) -> Option<Piece> {
    let rank = i / 8;
    let file = i % 8;
    if rank == 0 {
        Some(Piece { color: PieceColor::White, kind: back_rank_kind(file) })
    } else if rank == 1 {
        Some(Piece { color: PieceColor::White, kind: PieceType::Pawn })
    } else if rank == 6 {
        Some(Piece { color: PieceColor::Black, kind: PieceType::Pawn })
    } else if rank == 7 {
        Some(Piece { color: PieceColor::Black, kind: back_rank_kind(file) })
    } else {
        None
    }
}

fn back_rank_piece(file: u8) -> (r: PieceType)
    ensures
        r == back_rank_kind(file as int),
{
    if file == 0 || file == 7 {
        PieceType::Rook
    } else if file == 1 || file == 6 {
        PieceType::Knight
    } else if file == 2 || file == 5 {
        PieceType::Bishop
    } else if file == 3 {
        PieceType::Queen
    } else {
        PieceType::King
    }
}

impl FastBoard {
    /// The standard start position, counted as reached once.
    pub fn initial() -> (r: Self)
        ensures
            r.valid(),
            forall|i: int| 0 <= i < 64 ==> r.squares()[i] == initial_square(i),
            r.next_to_move == PieceColor::White,
            r.castling_rights == CastlingRights::default_spec(),
            r.en_passant is None,
            r.halfmoves == 0,
            r.move_list.len() == 0,
            rep_count(r.repetitions@, r.zobrist_key.0) == 1,
            counted_once(r.zobrist, r.snapshot()),
            r.history@.len() == 0,
    {
        let mut board = Self::empty();
        let mut file: u8 = 0;
        while file < 8
            invariant
                file <= 8,
                board.wf(),
                board.next_to_move == PieceColor::White,
                board.castling_rights == CastlingRights::default_spec(),
                board.en_passant is None,
                board.halfmoves == 0,
                board.move_list.len() == 0,
                board.history@.len() == 0,
                board.repetitions@ == Map::<u64, u64>::empty(),
                forall|i: int| 0 <= i < 64 ==> board.squares()[i] == if i % 8 < file { initial_square(i) } else { None },
            decreases 8 - file,
        {
            let kind = back_rank_piece(file);
            board.place_piece(BoardPosition::from_rank_file(0, file), Piece::new(PieceColor::White, kind));
            board.place_piece(BoardPosition::from_rank_file(1, file), Piece::new(PieceColor::White, PieceType::Pawn));
            board.place_piece(BoardPosition::from_rank_file(6, file), Piece::new(PieceColor::Black, PieceType::Pawn));
            board.place_piece(BoardPosition::from_rank_file(7, file), Piece::new(PieceColor::Black, kind));
            file = file + 1;
        }
        board.repetitions.insert(board.zobrist_key.0, 1);
        board
    }

    /// Whether the pieces and the en-passant file equal those of the position that `fen`
    /// describes; false when `fen` cannot be read.
    pub fn check_board_state(&self, fen: &str) -> (r: bool)
        requires
            self.wf(),
        ensures
            r == (fen_ok(fen@) && read_placement(split_fields(split_fields(fen@, ' ')[0], '/'), 0, empty_squares())
                == Some(self.squares()) && self.en_passant == en_passant_of_text(split_fields(fen@, ' ')[3])),
    {
        let fen_board = match Self::from_fen(fen) {
            Ok(b) => b,
            Err(_) => return false,
        };
        let mut i: usize = 0;
        while i < 64
            invariant
                i <= 64,
                self.wf(),
                fen_board.wf(),
                forall|k: int| 0 <= k < i ==> self.squares()[k] == fen_board.squares()[k],
                read_placement(split_fields(split_fields(fen@, ' ')[0], '/'), 0, empty_squares()) == Some(fen_board.squares()),
            decreases 64 - i,
        {
            if self.mailbox.pieces[i] != fen_board.mailbox.pieces[i] {
                proof {
                    assert(self.squares()[i as int] != fen_board.squares()[i as int]);
                    assert(self.squares() != fen_board.squares());
                }
                return false;
            }
            i = i + 1;
        }
        proof {
            assert(self.squares() =~= fen_board.squares());
        }
        self.en_passant == fen_board.en_passant
    }
}

/// The key that a fresh build over a snapshot gives.
pub open spec fn snapshot_key(t: ZobristTables, s: Snapshot) -> u64 {
    position_key(t, s.squares, s.rights, s.en_passant, s.side)
}

/// Two snapshots hold the same position, the same counters and the same repetition counts.
pub open spec fn same_snapshot(a: Snapshot, b: Snapshot) -> bool {
    &&& a.squares == b.squares
    &&& a.rights == b.rights
    &&& a.en_passant == b.en_passant
    &&& a.side == b.side
    &&& a.halfmoves == b.halfmoves
    &&& forall|k: u64| #[trigger] rep_count(a.repetitions, k) == rep_count(b.repetitions, k)
}

/// The squares after taking back a direct move: the piece on `to` (a pawn again when the
/// move promoted) returns to `from`, and a captured piece of color `side` reappears on `to`.
pub open spec fn undo_direct_squares(
    sq: Seq<Option<Piece>>,
    from: BoardPosition,
    to: BoardPosition,
    promotion: Option<Promotion>,
    captured: Option<PieceType>,
    side: PieceColor,
) -> Seq<Option<Piece>> {
    let moved = match sq[to.idx()] {
        Some(q) => sq.update(to.idx(), None).update(
            from.idx(),
            Some(
                if promotion is Some {
                    Piece { color: q.color, kind: PieceType::Pawn }
                } else {
                    q
                },
            ),
        ),
        None => sq,
    };
    match captured {
        Some(k) => moved.update(to.idx(), Some(Piece { color: side, kind: k })),
        None => moved,
    }
}

/// The squares after taking back a castle of `mover`: the piece on the king's destination
/// returns to file 4, the piece on the rook's destination to the rook's corner.
pub open spec fn undo_castle_squares(sq: Seq<Option<Piece>>, mover: PieceColor, d: CastleDirection) -> Seq<Option<Piece>> {
    let h = home_rank(mover) as int;
    let (kd, ro, rd) = castle_files(d);
    let s1 = match sq[h * 8 + kd] {
        Some(k) => sq.update(h * 8 + kd, None).update(h * 8 + 4, Some(k)),
        None => sq,
    };
    match s1[h * 8 + rd] {
        Some(r) => s1.update(h * 8 + rd, None).update(h * 8 + ro, Some(r)),
        None => s1,
    }
}

/// The pieces, rights and en-passant file of `next` are those that the undo record `rec`
/// describes from `prev`.
pub open spec fn step_core(prev: Snapshot, rec: PastMove, next: Snapshot) -> bool {
    &&& prev.squares.len() == 64
    &&& rec.previous_en_passant == prev.en_passant
    &&& match rec.previous_castling_rights {
        Some(r) => r == prev.rights,
        None => next.rights == prev.rights,
    }
    &&& match rec.move_made {
        Move::Direct { from, to, promotion } => {
            &&& from != to
            &&& prev.squares[from.idx()] matches Some(p)
            &&& p.color == prev.side
            &&& (promotion is Some ==> p.kind == PieceType::Pawn)
            &&& prev.squares[to.idx()] == match rec.captured {
                Some(k) => Some(Piece { color: opponent(prev.side), kind: k }),
                None => None,
            }
            &&& next.squares == prev.squares.update(from.idx(), None).update(to.idx(), Some(arriving_piece(p, promotion)))
        },
        Move::Castle(d) => {
            &&& castle_ready(prev.squares, prev.side, d)
            &&& rec.captured is None
            &&& next.squares == after_castle(prev.squares, prev.side, d)
        },
    }
}

/// The side to move passes, the halfmove counter grows by one and the new position is
/// counted once more.
pub open spec fn counters_ok(t: ZobristTables, prev: Snapshot, next: Snapshot) -> bool {
    &&& no_zero(prev.repetitions)
    &&& next.side == opponent(prev.side)
    &&& next.halfmoves == vstd::wrapping::u64_specs::wrapping_add(prev.halfmoves, 1)
    &&& forall|k: u64|
        #[trigger] rep_count(next.repetitions, k) == if k == snapshot_key(t, next) {
            vstd::wrapping::u64_specs::wrapping_add(rep_count(prev.repetitions, k), 1)
        } else {
            rep_count(prev.repetitions, k)
        }
}

/// The undo record `rec` leads from snapshot `prev` to snapshot `next`.
pub open spec fn step_ok(t: ZobristTables, prev: Snapshot, rec: PastMove, next: Snapshot) -> bool {
    step_core(prev, rec, next) && counters_ok(t, prev, next)
}

/// Each undo record leads from the snapshot before it to the one after it, the last one to
/// `cur`.
pub open spec fn history_ok(t: ZobristTables, hist: Seq<Snapshot>, moves: Seq<PastMove>, cur: Snapshot) -> bool {
    &&& hist.len() == moves.len()
    &&& forall|k: int|
        0 <= k < hist.len() ==> step_ok(t, #[trigger] hist[k], moves[k], if k + 1 < hist.len() {
            hist[k + 1]
        } else {
            cur
        })
}

impl FastBoard {
    pub open spec fn snapshot(&self) -> Snapshot {
        Snapshot {
            squares: self.squares(),
            rights: self.castling_rights,
            en_passant: self.en_passant,
            side: self.next_to_move,
            halfmoves: self.halfmoves,
            repetitions: self.repetitions@,
        }
    }

    /// The invariant together with a history that leads to the current position.
    pub open spec fn valid(&self) -> bool {
        &&& self.wf()
        &&& history_ok(self.zobrist, self.history@, self.move_list@, self.snapshot())
    }
}

/// Pushing a step onto a consistent history keeps it consistent.
#[verifier::rlimit(50)]
proof fn lemma_history_push(t: ZobristTables, hist: Seq<Snapshot>, moves: Seq<PastMove>, prev: Snapshot, rec: PastMove, cur: Snapshot)
    requires
        history_ok(t, hist, moves, prev),
        step_ok(t, prev, rec, cur),
    ensures
        history_ok(t, hist.push(prev), moves.push(rec), cur),
{
    let h = hist.push(prev);
    let m = moves.push(rec);
    assert forall|k: int| 0 <= k < h.len() implies step_ok(t, #[trigger] h[k], m[k], if k + 1 < h.len() {
        h[k + 1]
    } else {
        cur
    }) by {
        if k < hist.len() {
            assert(h[k] == hist[k]);
            assert(m[k] == moves[k]);
            if k + 1 < hist.len() {
                assert(h[k + 1] == hist[k + 1]);
            } else {
                assert(h[k + 1] == prev);
            }
        }
    }
}

/// A step stays valid when its target is replaced by an equal snapshot.
#[verifier::rlimit(50)]
proof fn lemma_step_same_target(t: ZobristTables, prev: Snapshot, rec: PastMove, a: Snapshot, b: Snapshot)
    requires
        step_ok(t, prev, rec, a),
        same_snapshot(a, b),
    ensures
        step_ok(t, prev, rec, b),
{
    assert forall|k: u64| #[trigger] rep_count(b.repetitions, k) == if k == snapshot_key(t, b) {
        vstd::wrapping::u64_specs::wrapping_add(rep_count(prev.repetitions, k), 1)
    } else {
        rep_count(prev.repetitions, k)
    } by {
        assert(rep_count(a.repetitions, k) == rep_count(b.repetitions, k));
    }
}

/// Dropping the last step of a consistent history leaves one that leads to any snapshot
/// equal to the last step's origin.
#[verifier::rlimit(50)]
proof fn lemma_history_pop(t: ZobristTables, hist: Seq<Snapshot>, moves: Seq<PastMove>, cur: Snapshot, now: Snapshot)
    requires
        history_ok(t, hist, moves, cur),
        hist.len() > 0,
        same_snapshot(now, hist.last()),
    ensures
        history_ok(t, hist.drop_last(), moves.drop_last(), now),
{
    let h = hist.drop_last();
    let m = moves.drop_last();
    assert forall|k: int| 0 <= k < h.len() implies step_ok(t, #[trigger] h[k], m[k], if k + 1 < h.len() {
        h[k + 1]
    } else {
        now
    }) by {
        assert(h[k] == hist[k]);
        assert(m[k] == moves[k]);
        assert(step_ok(t, hist[k], moves[k], hist[k + 1]));
        if k + 1 < h.len() {
            assert(h[k + 1] == hist[k + 1]);
        } else {
            assert(hist[k + 1] == hist.last());
            assert forall|q: u64| #[trigger] rep_count(hist.last().repetitions, q) == rep_count(now.repetitions, q) by {
                assert(rep_count(now.repetitions, q) == rep_count(hist.last().repetitions, q));
            }
            lemma_step_same_target(t, hist[k], moves[k], hist[k + 1], now);
        }
    }
}

proof fn lemma_wrapping_round_trip(x: u64)
    ensures
        vstd::wrapping::u64_specs::wrapping_sub(vstd::wrapping::u64_specs::wrapping_add(x, 1), 1) == x,
{
}

/// The bitboards of a position are fixed by its squares.
pub proof fn lemma_boards_unique(a: Bitboards, b: Bitboards, sq: Seq<Option<Piece>>)
    requires
        boards_agree(a, sq),
        boards_agree(b, sq),
    ensures
        a == b,
{
    assert forall|c: PieceColor, k: PieceType| #[trigger] a.of(c, k) == b.of(c, k) by {
        assert forall|i: int| bit(a.of(c, k).0, i) == bit(b.of(c, k).0, i) by {
            assert(a.of(c, k).has(i) == b.of(c, k).has(i));
        }
        lemma_same_bits(a.of(c, k).0, b.of(c, k).0);
    }
    lemma_color_boards_unique(a.white, b.white, PieceColor::White, a, b);
    lemma_color_boards_unique(a.black, b.black, PieceColor::Black, a, b);
}

proof fn lemma_color_boards_unique(x: ColorBitboards, y: ColorBitboards, c: PieceColor, a: Bitboards, b: Bitboards)
    requires
        x == a.color(c),
        y == b.color(c),
        forall|k: PieceType| #[trigger] a.of(c, k) == b.of(c, k),
    ensures
        x == y,
{
    assert(a.of(c, PieceType::King) == b.of(c, PieceType::King));
    assert(a.of(c, PieceType::Queen) == b.of(c, PieceType::Queen));
    assert(a.of(c, PieceType::Bishop) == b.of(c, PieceType::Bishop));
    assert(a.of(c, PieceType::Knight) == b.of(c, PieceType::Knight));
    assert(a.of(c, PieceType::Rook) == b.of(c, PieceType::Rook));
    assert(a.of(c, PieceType::Pawn) == b.of(c, PieceType::Pawn));
}

/// Bitboard/mailbox agreement: on every board that the library builds and keeps, a square
/// is in the bitboard of a color and kind exactly when the mailbox holds that piece there.
pub proof fn lemma_bitboards_match_mailbox(b: &FastBoard, c: PieceColor, k: PieceType, s: int)
    requires
        b.valid(),
    ensures
        b.bitboards.of(c, k).has(s) <==> (0 <= s < 64 && b.squares()[s] == Some(Piece { color: c, kind: k })),
{
}

/// Zobrist integrity: the key of every board that the library builds and keeps is the one
/// that a fresh build over its position gives.
pub proof fn lemma_key_is_fresh(b: &FastBoard)
    requires
        b.valid(),
    ensures
        b.zobrist_key.0 == snapshot_key(b.zobrist, b.snapshot()),
{
}

/// Make/unmake round trip: when a move was made on `before` (giving `made`) and then taken
/// back (giving `after`), the squares, castling rights, en-passant file, side to move,
/// halfmove counter, repetition map, bitboards, Zobrist key and history are those of
/// `before` again.
pub proof fn lemma_make_unmake_round_trip(before: FastBoard, made: FastBoard, after: FastBoard)
    requires
        before.valid(),
        made.valid(),
        after.valid(),
        made.zobrist == before.zobrist,
        after.zobrist == made.zobrist,
        made.history@ == before.history@.push(before.snapshot()),
        made.move_list@.drop_last() == before.move_list@,
        after.history@ == made.history@.drop_last(),
        after.move_list@ == made.move_list@.drop_last(),
        same_snapshot(after.snapshot(), made.history@.last()),
        after.repetitions@ == made.history@.last().repetitions,
    ensures
        same_snapshot(after.snapshot(), before.snapshot()),
        after.repetitions@ == before.repetitions@,
        after.bitboards == before.bitboards,
        after.zobrist_key == before.zobrist_key,
        after.move_list@ == before.move_list@,
        after.history == before.history,
{
    assert(made.history@.drop_last() =~= before.history@);
    lemma_boards_unique(after.bitboards, before.bitboards, before.squares());
}

/// How many snapshots of `ps` have key `k`.
pub open spec fn occurrences(t: ZobristTables, ps: Seq<Snapshot>, k: u64) -> nat
    decreases ps.len(),
{
    if ps.len() == 0 {
        0
    } else {
        occurrences(t, ps.drop_last(), k) + if snapshot_key(t, ps.last()) == k {
            1nat
        } else {
            0nat
        }
    }
}

/// A snapshot that counts its own position once and no other.
pub open spec fn counted_once(t: ZobristTables, s: Snapshot) -> bool {
    forall|k: u64| #[trigger] rep_count(s.repetitions, k) == if k == snapshot_key(t, s) {
        1u64
    } else {
        0u64
    }
}

impl FastBoard {
    /// The positions of the game so far, the current one last.
    pub open spec fn positions(&self) -> Seq<Snapshot> {
        self.history@.push(self.snapshot())
    }
}

proof fn lemma_count_step(before: int, c: u64)
    requires
        before >= 0,
        c as int == before % 0x1_0000_0000_0000_0000,
    ensures
        vstd::wrapping::u64_specs::wrapping_add(c, 1) as int == (before + 1) % 0x1_0000_0000_0000_0000,
{
    vstd::arithmetic::div_mod::lemma_add_mod_noop(before, 1, 0x1_0000_0000_0000_0000);
    vstd::arithmetic::div_mod::lemma_small_mod(1, 0x1_0000_0000_0000_0000);
    if c as int + 1 == 0x1_0000_0000_0000_0000 {
        vstd::arithmetic::div_mod::lemma_mod_self_0(0x1_0000_0000_0000_0000);
    } else {
        vstd::arithmetic::div_mod::lemma_small_mod((c + 1) as nat, 0x1_0000_0000_0000_0000);
    }
}

proof fn lemma_counts_by_induction(t: ZobristTables, hist: Seq<Snapshot>, moves: Seq<PastMove>, cur: Snapshot, i: int)
    requires
        history_ok(t, hist, moves, cur),
        counted_once(t, hist.push(cur)[0]),
        0 <= i <= hist.len(),
    ensures
        forall|k: u64| #[trigger] rep_count(hist.push(cur)[i].repetitions, k) as int
            == occurrences(t, hist.push(cur).take(i + 1), k) as int % 0x1_0000_0000_0000_0000,
    decreases i,
{
    let all = hist.push(cur);
    if i == 0 {
        assert forall|k: u64| #[trigger] rep_count(all[0].repetitions, k) as int
            == occurrences(t, all.take(1), k) as int % 0x1_0000_0000_0000_0000 by {
            assert(all.take(1).drop_last() =~= Seq::<Snapshot>::empty());
            assert(all.take(1).last() == all[0]);
            assert(occurrences(t, all.take(1).drop_last(), k) == 0);
            assert(rep_count(all[0].repetitions, k) == if k == snapshot_key(t, all[0]) { 1u64 } else { 0u64 });
            vstd::arithmetic::div_mod::lemma_small_mod(1, 0x1_0000_0000_0000_0000);
            vstd::arithmetic::div_mod::lemma_small_mod(0, 0x1_0000_0000_0000_0000);
        }
    } else {
        lemma_counts_by_induction(t, hist, moves, cur, i - 1);
        assert(step_ok(t, hist[i - 1], moves[i - 1], if i < hist.len() { hist[i] } else { cur }));
        assert(hist[i - 1] == all[i - 1]);
        assert((if i < hist.len() { hist[i] } else { cur }) == all[i]);
        assert forall|k: u64| #[trigger] rep_count(all[i].repetitions, k) as int
            == occurrences(t, all.take(i + 1), k) as int % 0x1_0000_0000_0000_0000 by {
            assert(all.take(i + 1).drop_last() =~= all.take(i));
            assert(all.take(i + 1).last() == all[i]);
            let before = occurrences(t, all.take(i), k) as int;
            assert(rep_count(all[i - 1].repetitions, k) as int == before % 0x1_0000_0000_0000_0000);
            if k == snapshot_key(t, all[i]) {
                lemma_count_step(before, rep_count(all[i - 1].repetitions, k));
            }
        }
    }
}

/// Repetition counts: on a board whose first position was counted once (as `from_fen` and
/// `initial` leave it), the count of every key is the number of positions of the game so
/// far with that key (modulo 2^64).
pub proof fn lemma_repetitions_count_positions(b: &FastBoard, k: u64)
    requires
        b.valid(),
        counted_once(b.zobrist, b.positions()[0]),
    ensures
        rep_count(b.repetitions@, k) as int == occurrences(b.zobrist, b.positions(), k) as int % 0x1_0000_0000_0000_0000,
{
    let all = b.positions();
    lemma_counts_by_induction(b.zobrist, b.history@, b.move_list@, b.snapshot(), b.history@.len() as int);
    assert(all.take(b.history@.len() as int + 1) =~= all);
    assert(all[b.history@.len() as int] == b.snapshot());
    assert(rep_count(all[b.history@.len() as int].repetitions, k) == rep_count(b.repetitions@, k));
}

} // verus!
