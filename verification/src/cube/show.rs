use vstd::prelude::*;

use crate::config::SIZE;
use crate::side::Side;
use crate::text::{decimal, push_char, push_decimal};
use super::Sides;

verus! {

/// The stickers of a row, each written in decimal, side by side.
pub open spec fn row_text(row: Seq<u8>) -> Seq<char>
    decreases row.len(),
{
    if row.len() == 0 {
        Seq::empty()
    } else {
        row_text(row.drop_last()) + decimal(row.last() as nat)
    }
}

/// `n` spaces.
pub open spec fn spaces(n: nat) -> Seq<char> {
    Seq::new(n, |i: int| ' ')
}

/// Two spaces, then the end of the line.
pub open spec fn line_end() -> Seq<char> {
    seq![' ', ' ', '\n']
}

/// The lines of a face shown alone: each row indented by the width of a
/// face and its margin.
pub open spec fn block_text(rows: Seq<Seq<u8>>) -> Seq<char>
    decreases rows.len(),
{
    if rows.len() == 0 {
        Seq::empty()
    } else {
        block_text(rows.drop_last()) + spaces((SIZE + 2) as nat) + row_text(rows.last())
            + line_end()
    }
}

/// The first `n` lines of three faces shown side by side.
pub open spec fn band_text(
    left: Seq<Seq<u8>>,
    front: Seq<Seq<u8>>,
    right: Seq<Seq<u8>>,
    n: nat,
) -> Seq<char>
    decreases n,
{
    if n == 0 {
        Seq::empty()
    } else {
        let r = n - 1;
        band_text(left, front, right, (n - 1) as nat) + row_text(left[r]) + spaces(2)
            + row_text(front[r]) + spaces(2) + row_text(right[r]) + line_end()
    }
}

/// The unfolded picture of a cube: the top face, then left, front and right
/// side by side, then the bottom face, then the back face, each group
/// followed by an empty line.
pub open spec fn cube_text(v: Seq<Seq<Seq<u8>>>) -> Seq<char> {
    block_text(v[0]) + seq!['\n'] + band_text(v[1], v[2], v[3], SIZE as nat) + seq!['\n']
        + block_text(v[4]) + seq!['\n'] + block_text(v[5]) + seq!['\n']
}

/// Appends the stickers of `row` in decimal.
fn push_row(s: &mut String, row: &[u8; SIZE])
    ensures
        final(s)@ == old(s)@ + row_text(row@),
{
    let ghost start = s@;
    for c in 0..SIZE
        invariant
            s@ == start + row_text(row@.take(c as int)),
    {
        push_decimal(s, row[c] as u64);
        assert(row@.take(c + 1).drop_last() =~= row@.take(c as int));
        assert(s@ =~= start + row_text(row@.take(c + 1)));
    }
    assert(row@.take(SIZE as int) =~= row@);
}

/// Appends `n` spaces.
fn push_spaces(s: &mut String, n: usize)
    ensures
        final(s)@ == old(s)@ + spaces(n as nat),
{
    let ghost start = s@;
    for i in 0..n
        invariant
            s@ == start + spaces(i as nat),
    {
        push_char(s, ' ');
        assert(s@ =~= start + spaces((i + 1) as nat));
    }
}

/// Appends two spaces and a line break.
fn push_line_end(s: &mut String)
    ensures
        final(s)@ == old(s)@ + line_end(),
{
    let ghost start = s@;
    push_char(s, ' ');
    push_char(s, ' ');
    push_char(s, '\n');
    assert(s@ =~= start + line_end());
}

/// Row `r` of a face, as a sequence, is the array of that row.
proof fn lemma_row_view(side: Side, r: int)
    requires
        0 <= r < SIZE,
    ensures
        side.rows()[r] == side.cells[r]@,
{
    assert(side.rows()[r] =~= side.cells[r]@);
}

/// Appends a face shown alone.
fn push_block(s: &mut String, side: &Side)
    ensures
        final(s)@ == old(s)@ + block_text(side.rows()),
{
    let ghost start = s@;
    for r in 0..SIZE
        invariant
            s@ == start + block_text(side.rows().take(r as int)),
    {
        proof {
            lemma_row_view(*side, r as int);
        }
        push_spaces(s, SIZE + 2);
        push_row(s, &side.cells[r]);
        push_line_end(s);
        assert(side.rows().take(r + 1).drop_last() =~= side.rows().take(r as int));
        assert(s@ =~= start + block_text(side.rows().take(r + 1)));
    }
    assert(side.rows().take(SIZE as int) =~= side.rows());
}

impl Sides {
    /// The unfolded picture of the cube (see `cube_text`).
    pub fn to_string(&self) -> (res: String)
        ensures
            res@ == cube_text(self@),
    {
        let mut s = String::new();
        push_block(&mut s, &self.top);
        push_char(&mut s, '\n');
        let ghost start = s@;
        for r in 0..SIZE
            invariant
                s@ == start + band_text(self.left.rows(), self.front.rows(), self.right.rows(), r as nat),
        {
            proof {
                lemma_row_view(self.left, r as int);
                lemma_row_view(self.front, r as int);
                lemma_row_view(self.right, r as int);
            }
            push_row(&mut s, &self.left.cells[r]);
            push_spaces(&mut s, 2);
            push_row(&mut s, &self.front.cells[r]);
            push_spaces(&mut s, 2);
            push_row(&mut s, &self.right.cells[r]);
            push_line_end(&mut s);
            assert(s@ =~= start + band_text(
                self.left.rows(),
                self.front.rows(),
                self.right.rows(),
                (r + 1) as nat,
            ));
        }
        push_char(&mut s, '\n');
        push_block(&mut s, &self.bottom);
        push_char(&mut s, '\n');
        push_block(&mut s, &self.back);
        push_char(&mut s, '\n');
        assert(s@ =~= cube_text(self@));
        s
    }
}

} // verus!
