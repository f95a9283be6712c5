use vstd::prelude::*;

use crate::config::SIZE;

pub mod for_cube;

verus! {

/// One face of the cube: `SIZE` rows of `SIZE` colored stickers.
/// `cells[r][c]` is the sticker in row `r` (counted from the top) and
/// column `c` (counted from the left).
#[derive(Clone, Copy, Debug, PartialEq, Eq)]
pub struct Side {
    pub cells: [[u8; SIZE]; SIZE],
}

impl Side {
    /// The sticker at row `r`, column `c`.
    pub open spec fn at(self, r: int, c: int) -> u8 {
        self.cells[r][c]
    }

    /// The face as rows of stickers.
    pub open spec fn rows(self) -> Seq<Seq<u8>> {
        Seq::new(SIZE as nat, |r: int| Seq::new(SIZE as nat, |c: int| self.at(r, c)))
    }

    /// Row `level`, read from left to right.
    pub fn row(&self, level: usize) -> (res: [u8; SIZE])
        requires
            level < SIZE,
        ensures
            forall|c: int| 0 <= c < SIZE ==> res[c] == self.at(level as int, c),
    {
        self.cells[level]
    }

    /// Column `level`, read from top to bottom.
    pub fn col(&self, level: usize) -> (res: [u8; SIZE])
        requires
            level < SIZE,
        ensures
            forall|r: int| 0 <= r < SIZE ==> res[r] == self.at(r, level as int),
    {
        let mut res = [0u8; SIZE];
        for r in 0..SIZE
            invariant
                level < SIZE,
                forall|k: int| 0 <= k < r ==> res[k] == self.at(k, level as int),
        {
            res[r] = self.cells[r][level];
        }
        res
    }
}

/// A face whose stickers all have color `c`.
pub fn color(c: u8) -> (res: Side)
    ensures
        forall|r: int, k: int| 0 <= r < SIZE && 0 <= k < SIZE ==> res.at(r, k) == c,
{
    Side { cells: [[c; SIZE]; SIZE] }
}

} // verus!
