use vstd::prelude::*;

use crate::piece::PieceColor;

verus! {

#[derive(Debug, PartialEq, Eq, Structural, Copy, Clone)]
pub struct PlayerCastlingRights {
    pub queenside: bool,
    pub kingside: bool,
}

#[derive(Debug, PartialEq, Eq, Structural, Copy, Clone)]
pub struct CastlingRights {
    pub white: PlayerCastlingRights,
    pub black: PlayerCastlingRights,
}

impl CastlingRights {
    /// The rights of one player, as a pure value.
    pub open spec fn of(self, color: PieceColor) -> PlayerCastlingRights {
        match color {
            PieceColor::White => self.white,
            PieceColor::Black => self.black,
        }
    }

    pub fn get(&self, color: PieceColor) -> (r: &PlayerCastlingRights)
        ensures
            *r == self.of(color),
    {
        match color {
            PieceColor::White => &self.white,
            PieceColor::Black => &self.black,
        }
    }

    pub fn get_mut(&mut self, color: PieceColor) -> (r: &mut PlayerCastlingRights)
        ensures
            *r == old(self).of(color),
            final(self).of(color) == *final(r),
            final(self).of(crate::piece::opponent(color)) == old(self).of(
                crate::piece::opponent(color),
            ),
    {
        match color {
            PieceColor::White => &mut self.white,
            PieceColor::Black => &mut self.black,
        }
    }

    /// All four castles allowed.
    pub open spec fn default_spec() -> CastlingRights {
        CastlingRights {
            white: PlayerCastlingRights { queenside: true, kingside: true },
            black: PlayerCastlingRights { queenside: true, kingside: true },
        }
    }

    /// All four castles still allowed.
    pub fn default() -> (r: CastlingRights)
        ensures
            r == Self::default_spec(),
    {
        Self { white: PlayerCastlingRights::default(), black: PlayerCastlingRights::default() }
    }
}

impl PlayerCastlingRights {
    pub fn forbid_queenside(&mut self)
        ensures
            !final(self).queenside,
            final(self).kingside == old(self).kingside,
    {
        self.queenside = false;
    }

    pub fn forbid_kingside(&mut self)
        ensures
            !final(self).kingside,
            final(self).queenside == old(self).queenside,
    {
        self.kingside = false;
    }

    pub fn forbid_all(&mut self)
        ensures
            !final(self).kingside,
            !final(self).queenside,
    {
        self.queenside = false;
        self.kingside = false;
    }

    pub fn default() -> (r: PlayerCastlingRights)
        ensures
            r.queenside && r.kingside,
    {
        Self { queenside: true, kingside: true }
    }
}

} // verus!
