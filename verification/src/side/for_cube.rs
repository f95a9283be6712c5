use vstd::prelude::*;

use crate::config::SIZE;
use super::Side;

verus! {

/// Direction of a quarter turn of a face, as seen from outside the cube.
#[derive(Clone, Copy, Debug, PartialEq, Eq, Structural)]
pub enum Dir {
    Clock,
    InvClock,
}

/// The sticker that a quarter turn in direction `dir` brings to row `r`,
/// column `c`: as (row, column) of the face before the turn.
pub open spec fn turn_source(dir: Dir, r: int, c: int) -> (int, int) {
    match dir {
        Dir::Clock => (SIZE - 1 - c, r),
        Dir::InvClock => (c, SIZE - 1 - r),
    }
}

/// The face turned a quarter in direction `dir`.
pub fn rotation(side: &Side, dir: Dir) -> (res: Side)
    ensures
        forall|r: int, c: int|
            0 <= r < SIZE && 0 <= c < SIZE ==> res.at(r, c) == side.at(
                turn_source(dir, r, c).0,
                turn_source(dir, r, c).1,
            ),
{
    let mut cells = [[0u8; SIZE]; SIZE];
    for r in 0..SIZE
        invariant
            forall|i: int, c: int|
                0 <= i < r && 0 <= c < SIZE ==> cells[i][c] == side.at(
                    turn_source(dir, i, c).0,
                    turn_source(dir, i, c).1,
                ),
    {
        let mut line = [0u8; SIZE];
        for c in 0..SIZE
            invariant
                0 <= r < SIZE,
                forall|k: int|
                    0 <= k < c ==> line[k] == side.at(
                        turn_source(dir, r as int, k).0,
                        turn_source(dir, r as int, k).1,
                    ),
        {
            line[c] = match dir {
                Dir::Clock => side.cells[SIZE - 1 - c][r],
                Dir::InvClock => side.cells[c][SIZE - 1 - r],
            };
        }
        cells[r] = line;
    }
    Side { cells }
}

/// The face with row `level` replaced by `row`.
pub fn merge_row(side: &Side, level: usize, row: &[u8; SIZE]) -> (res: Side)
    requires
        level < SIZE,
    ensures
        forall|r: int, c: int|
            0 <= r < SIZE && 0 <= c < SIZE ==> res.at(r, c) == if r == level {
                row[c]
            } else {
                side.at(r, c)
            },
{
    let mut cells = side.cells;
    cells[level] = *row;
    Side { cells }
}

/// The face with column `level` replaced by `col` (read from top to bottom).
pub fn merge_col(side: &Side, level: usize, col: &[u8; SIZE]) -> (res: Side)
    requires
        level < SIZE,
    ensures
        forall|r: int, c: int|
            0 <= r < SIZE && 0 <= c < SIZE ==> res.at(r, c) == if c == level {
                col[r]
            } else {
                side.at(r, c)
            },
{
    let mut cells = side.cells;
    for r in 0..SIZE
        invariant
            level < SIZE,
            forall|i: int, c: int|
                0 <= i < SIZE && 0 <= c < SIZE ==> #[trigger] cells[i][c] == if i < r && c
                    == level {
                    col[i]
                } else {
                    side.at(i, c)
                },
    {
        let ghost prev = cells;
        let mut line = cells[r];
        line[level] = col[r];
        cells[r] = line;
        assert forall|i: int, c: int| 0 <= i < SIZE && 0 <= c < SIZE && i != r implies cells[i][c]
            == prev[i][c] by {
            assert(cells[i] == prev[i]);
        }
    }
    Side { cells }
}

} // verus!
