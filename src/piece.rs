use vstd::prelude::*;

verus! {

#[derive(Debug, PartialEq, Eq, Structural, Copy, Clone)]
pub enum PieceColor {
    White,
    Black,
}

#[derive(Debug, PartialEq, Eq, Structural, Copy, Clone)]
pub enum PieceType {
    King,
    Queen,
    Bishop,
    Knight,
    Rook,
    Pawn,
}

#[derive(Debug, PartialEq, Eq, Structural, Copy, Clone)]
pub struct Piece {
    pub color: PieceColor,
    pub kind: PieceType,
}

/// The opposing color.
pub open spec fn opponent(c: PieceColor) -> PieceColor {
    match c {
        PieceColor::White => PieceColor::Black,
        PieceColor::Black => PieceColor::White,
    }
}

/// The letter of a piece kind, upper case.
pub open spec fn kind_letter(k: PieceType) -> char {
    match k {
        PieceType::King => 'K',
        PieceType::Queen => 'Q',
        PieceType::Rook => 'R',
        PieceType::Bishop => 'B',
        PieceType::Knight => 'N',
        PieceType::Pawn => 'P',
    }
}

/// The letter of a piece in board notation: upper case for white, lower case for black.
pub open spec fn piece_letter(p: Piece) -> char {
    match p.color {
        PieceColor::White => kind_letter(p.kind),
        PieceColor::Black => match p.kind {
            PieceType::King => 'k',
            PieceType::Queen => 'q',
            PieceType::Rook => 'r',
            PieceType::Bishop => 'b',
            PieceType::Knight => 'n',
            PieceType::Pawn => 'p',
        },
    }
}

impl Piece {
    pub fn new(color: PieceColor, kind: PieceType) -> (r: Self)
        ensures
            r.color == color,
            r.kind == kind,
    {
        Self { color, kind }
    }

    pub fn to_char(&self) -> (r: char)
        ensures
            r == piece_letter(*self),
    {
        match self.color {
            PieceColor::White => match self.kind {
                PieceType::King => 'K',
                PieceType::Queen => 'Q',
                PieceType::Rook => 'R',
                PieceType::Bishop => 'B',
                PieceType::Knight => 'N',
                PieceType::Pawn => 'P',
            },
            PieceColor::Black => match self.kind {
                PieceType::King => 'k',
                PieceType::Queen => 'q',
                PieceType::Rook => 'r',
                PieceType::Bishop => 'b',
                PieceType::Knight => 'n',
                PieceType::Pawn => 'p',
            },
        }
    }
}

impl PieceColor {
    pub fn other(self) -> (r: Self)
        ensures
            r == opponent(self),
            r != self,
    {
        match self {
            PieceColor::White => PieceColor::Black,
            PieceColor::Black => PieceColor::White,
        }
    }
}

} // verus!
