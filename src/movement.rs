use vstd::prelude::*;

use crate::castle::CastlingRights;
use crate::piece::PieceType;
use crate::position::BoardPosition;

verus! {

#[derive(Debug, PartialEq, Eq, Structural, Copy, Clone)]
pub enum CastleDirection {
    QueenSide,
    KingSide,
}

#[derive(Debug, PartialEq, Eq, Structural, Copy, Clone)]
pub enum Promotion {
    Queen,
    Knight,
    Bishop,
    Rook,
}

#[derive(Debug, PartialEq, Eq, Structural, Copy, Clone)]
pub enum Move {
    Direct { from: BoardPosition, to: BoardPosition, promotion: Option<Promotion> },
    Castle(CastleDirection),
}

/// The kind of piece a pawn becomes.
pub open spec fn promoted_kind(p: Promotion) -> PieceType {
    match p {
        Promotion::Queen => PieceType::Queen,
        Promotion::Knight => PieceType::Knight,
        Promotion::Rook => PieceType::Rook,
        Promotion::Bishop => PieceType::Bishop,
    }
}

impl Promotion {
    pub fn piece_type(&self) -> (r: PieceType)
        ensures
            r == promoted_kind(*self),
    {
        match self {
            Promotion::Queen => PieceType::Queen,
            Promotion::Knight => PieceType::Knight,
            Promotion::Rook => PieceType::Rook,
            Promotion::Bishop => PieceType::Bishop,
        }
    }
}

/// What is needed to take a half-move back.
#[derive(Debug, PartialEq, Eq, Structural, Copy, Clone)]
pub struct PastMove {
    pub move_made: Move,
    pub captured: Option<PieceType>,
    pub previous_castling_rights: Option<CastlingRights>,
    pub previous_en_passant: Option<u8>,
}

impl PastMove {
    pub fn new(
        move_made: Move,
        captured: Option<PieceType>,
        previous_castling_rights: Option<CastlingRights>,
        previous_en_passant: Option<u8>,
    ) -> (r: Self)
        ensures
            r.move_made == move_made,
            r.captured == captured,
            r.previous_castling_rights == previous_castling_rights,
            r.previous_en_passant == previous_en_passant,
    {
        Self { move_made, captured, previous_castling_rights, previous_en_passant }
    }
}

} // verus!
