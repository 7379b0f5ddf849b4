use vstd::prelude::*;

use crate::text::string_of_chars;

verus! {

#[derive(Debug, PartialEq, Eq, Structural, Copy, Clone, Hash)]
pub struct BoardPosition {
    pub rank: u8,
    pub file: u8,
}

/// The index of the square at a rank and a file.
pub open spec fn square_index(rank: int, file: int) -> int {
    rank * 8 + file
}

impl BoardPosition {
    /// The square lies on the board.
    pub open spec fn valid(self) -> bool {
        self.rank < 8 && self.file < 8
    }

    pub open spec fn idx(self) -> int {
        square_index(self.rank as int, self.file as int)
    }

    pub fn from_rank_file(rank: u8, file: u8) -> (r: Self)
        ensures
            r.rank == rank,
            r.file == file,
    {
        Self { rank, file }
    }

    pub fn from_index(index: u8) -> (r: Self)
        ensures
            r.rank == index / 8,
            r.file == index % 8,
            index < 64 ==> r.valid() && r.idx() == index,
    {
        Self { rank: index / 8, file: index % 8 }
    }

    pub fn rank(&self) -> (r: u8)
        ensures
            r == self.rank,
    {
        self.rank
    }

    pub fn file(&self) -> (r: u8)
        ensures
            r == self.file,
    {
        self.file
    }

    pub fn index(&self) -> (r: u8)
        requires
            self.valid(),
        ensures
            r == self.idx(),
            r < 64,
    {
        self.rank * 8 + self.file
    }

    /// The square in algebraic notation, file letter then rank digit (`e4`).
    pub fn to_string(&self) -> (r: String)
        requires
            self.valid(),
        ensures
            r@ == seq![(self.file + 97) as char, (self.rank + 49) as char],
    {
        let mut v: Vec<char> = Vec::new();
        v.push((self.file + 97) as char);
        v.push((self.rank + 49) as char);
        proof {
            assert(v@ =~= seq![(self.file + 97) as char, (self.rank + 49) as char]);
        }
        string_of_chars(&v)
    }
}

} // verus!
