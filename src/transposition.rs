use vstd::prelude::*;

use std::collections::HashMap;

use crate::castle::CastlingRights;
use crate::piece::{Piece, PieceColor, PieceType};
use crate::position::BoardPosition;
use crate::score::Score;

verus! {

broadcast use vstd::std_specs::hash::group_hash_axioms;

/// Relies on `rand::random`: a value drawn from the thread-local generator, used for the
/// Zobrist bitstrings; nothing is assumed of it.
pub assume_specification<T>[ rand::random::<T> ]() -> (r: T)
    where
        rand::distributions::Standard: rand::distributions::Distribution<T>,
;

/// Number of piece-on-square features: 64 squares, 6 kinds, 2 colors.
pub const PIECE_FEATURES: usize = 768;

/// The random bitstrings whose XOR makes a Zobrist key.
#[derive(Debug, PartialEq, Eq, Clone)]
pub struct ZobristTables {
    pub pieces: Vec<u64>,
    pub en_passants: Vec<u64>,
    pub castling_rights: Vec<u64>,
    pub black_to_move: u64,
}

/// Slot of a piece kind among the piece features of a square.
pub open spec fn kind_slot(k: PieceType) -> int {
    match k {
        PieceType::King => 0,
        PieceType::Queen => 1,
        PieceType::Bishop => 2,
        PieceType::Knight => 3,
        PieceType::Rook => 4,
        PieceType::Pawn => 5,
    }
}

/// Slot of a color among the piece features of a square and kind.
pub open spec fn color_slot(c: PieceColor) -> int {
    match c {
        PieceColor::White => 0,
        PieceColor::Black => 1,
    }
}

/// The feature index of a piece on the square of index `sq`.
pub open spec fn piece_feature(p: Piece, sq: int) -> int {
    sq * 12 + kind_slot(p.kind) * 2 + color_slot(p.color)
}

/// The feature index of a set of castling rights: one bit per right.
pub open spec fn rights_feature(r: CastlingRights) -> int {
    (if r.white.queenside { 8int } else { 0 }) + (if r.white.kingside { 4int } else { 0 }) + (
    if r.black.queenside { 2int } else { 0 }) + (if r.black.kingside { 1int } else { 0 })
}

impl ZobristTables {
    pub open spec fn wf(&self) -> bool {
        &&& self.pieces.len() == PIECE_FEATURES
        &&& self.en_passants.len() == 8
        &&& self.castling_rights.len() == 16
    }

    /// The bitstring of a piece on the square of index `sq`.
    pub open spec fn piece_key(&self, p: Piece, sq: int) -> u64 {
        self.pieces[piece_feature(p, sq)]
    }

    /// Draws every bitstring at random.
    pub fn new() -> (r: Self)
        ensures
            r.wf(),
    {
        Self {
            pieces: random_words(PIECE_FEATURES),
            en_passants: random_words(8),
            castling_rights: random_words(16),
            black_to_move: rand::random::<u64>(),
        }
    }
}

fn random_words(n: usize) -> (r: Vec<u64>)
    ensures
        r.len() == n,
{
    let mut v: Vec<u64> = Vec::new();
    while v.len() < n
        invariant
            v.len() <= n,
        decreases n - v.len(),
    {
        v.push(rand::random::<u64>());
    }
    v
}

/// A 64-bit hash of a position, the XOR of the bitstrings of its features.
#[derive(Debug, Clone, Copy, PartialEq, Eq, Structural, Hash)]
pub struct ZobristKey(pub u64);

impl ZobristKey {
    pub fn new() -> (r: Self)
        ensures
            r.0 == 0,
    {
        Self(0)
    }

    pub fn toggle_piece(&mut self, tables: &ZobristTables, piece: &Piece, position: &BoardPosition)
        requires
            tables.wf(),
            position.valid(),
        ensures
            final(self).0 == old(self).0 ^ tables.piece_key(*piece, position.idx()),
    {
        let piece_index: usize = match piece.kind {
            PieceType::King => 0,
            PieceType::Queen => 1,
            PieceType::Bishop => 2,
            PieceType::Knight => 3,
            PieceType::Rook => 4,
            PieceType::Pawn => 5,
        };
        let color_index: usize = match piece.color {
            PieceColor::White => 0,
            PieceColor::Black => 1,
        };
        let square_index = position.index() as usize;
        let index = square_index * 12 + piece_index * 2 + color_index;
        self.0 = self.0 ^ tables.pieces[index];
    }

    pub fn toggle_en_passant(&mut self, tables: &ZobristTables, file: u8)
        requires
            tables.wf(),
            file < 8,
        ensures
            final(self).0 == old(self).0 ^ tables.en_passants[file as int],
    {
        self.0 = self.0 ^ tables.en_passants[file as usize];
    }

    pub fn toggle_castling_rights(&mut self, tables: &ZobristTables, rights: &CastlingRights)
        requires
            tables.wf(),
        ensures
            final(self).0 == old(self).0 ^ tables.castling_rights[rights_feature(*rights)],
    {
        let index: usize = (if rights.white.queenside { 8 } else { 0 }) + (if rights.white.kingside {
            4
        } else {
            0
        }) + (if rights.black.queenside { 2 } else { 0 }) + (if rights.black.kingside {
            1
        } else {
            0
        });
        self.0 = self.0 ^ tables.castling_rights[index];
    }

    pub fn toggle_player(&mut self, tables: &ZobristTables)
        ensures
            final(self).0 == old(self).0 ^ tables.black_to_move,
    {
        self.0 = self.0 ^ tables.black_to_move;
    }
}

/// A cached search result: the score with its bound tag, and the depth it was searched to.
#[derive(Debug, Clone, Copy, PartialEq, Eq, Structural)]
pub struct Transposition {
    pub score: Score,
    pub depth: u32,
}

impl Transposition {
    pub fn new(score: Score, depth: u32) -> (r: Self)
        ensures
            r.score == score,
            r.depth == depth,
    {
        Self { score, depth }
    }
}

/// Search results keyed by Zobrist key; a new entry replaces the old one.
#[derive(Debug, Clone)]
pub struct TranspositionTable {
    pub table: HashMap<u64, Transposition>,
}

impl TranspositionTable {
    pub open spec fn view(&self) -> Map<u64, Transposition> {
        self.table@
    }

    pub fn new() -> (r: Self)
        ensures
            r.view() == Map::<u64, Transposition>::empty(),
    {
        Self { table: HashMap::new() }
    }

    pub fn get(&self, zobrist_key: &ZobristKey) -> (r: Option<&Transposition>)
        ensures
            match r {
                Some(t) => self.view().contains_key(zobrist_key.0) && *t == self.view()[zobrist_key.0],
                None => !self.view().contains_key(zobrist_key.0),
            },
    {
        self.table.get(&zobrist_key.0)
    }

    pub fn set(&mut self, zobrist_key: ZobristKey, transposition: Transposition)
        ensures
            final(self).view() == old(self).view().insert(zobrist_key.0, transposition),
    {
        self.table.insert(zobrist_key.0, transposition);
    }
}

} // verus!
