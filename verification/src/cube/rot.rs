use vstd::prelude::*;

use crate::config::SIZE;
use crate::side::for_cube::{merge_col, merge_row, rotation, turn_source};
use crate::side::for_cube::Dir as Turn;
use super::{apply_move, lemma_apply_move_from_stickers, Sides};
use crate::text::{decimal, push_char, push_decimal};

verus! {

/// The axis of a move.
#[derive(Debug, PartialEq, Eq, Clone, Copy, Structural)]
pub enum Orient {
    Horizontal,
    Vertical,
    Front,
}

/// The sense of a move.
#[derive(Debug, PartialEq, Eq, Clone, Copy, Structural)]
pub enum Dir {
    Plus,
    Minus,
}

/// A move: turn layer `.2` (counted from the top, the left or the front)
/// around axis `.0` in sense `.1`.
#[derive(Debug, PartialEq, Eq, Clone, Copy, Structural)]
pub struct Item(pub Orient, pub Dir, pub usize);

/// The sense opposite to `dir`.
pub open spec fn opposite(dir: Dir) -> Dir {
    match dir {
        Dir::Plus => Dir::Minus,
        Dir::Minus => Dir::Plus,
    }
}

/// The move that undoes `m`: same axis and layer, opposite sense.
pub open spec fn reverse_of(m: Item) -> Item {
    Item(m.0, opposite(m.1), m.2)
}

/// A move is valid when its layer exists on the cube.
pub open spec fn valid_move(m: Item) -> bool {
    m.2 < SIZE
}

/// Applies `item` to the cube.
pub fn process(sides: &Sides, item: &Item) -> (res: Sides)
    requires
        valid_move(*item),
    ensures
        res@ == apply_move(sides@, *item),
{
    match *item {
        Item(Orient::Horizontal, dir, level) => horizontal(sides, dir, level),
        Item(Orient::Vertical, dir, level) => vertical(sides, dir, level),
        Item(Orient::Front, dir, level) => front(sides, dir, level),
    }
}

impl Item {
    /// The move that undoes this one.
    pub fn get_reverse(&self) -> (res: Item)
        ensures
            res == reverse_of(*self),
    {
        let Item(orientation, dir, pos) = *self;
        Item(
            orientation,
            match dir {
                Dir::Plus => Dir::Minus,
                Dir::Minus => Dir::Plus,
            },
            pos,
        )
    }
}

/// The letter that names an axis.
pub open spec fn orient_char(o: Orient) -> char {
    match o {
        Orient::Front => 'F',
        Orient::Horizontal => 'H',
        Orient::Vertical => 'V',
    }
}

/// The sign that names a sense.
pub open spec fn dir_char(d: Dir) -> char {
    match d {
        Dir::Plus => '+',
        Dir::Minus => '-',
    }
}

/// The name of a move: axis letter, sense sign, then the layer in decimal
/// (for instance `H+0`).
pub open spec fn item_text(m: Item) -> Seq<char> {
    seq![orient_char(m.0), dir_char(m.1)] + decimal(m.2 as nat)
}

impl Orient {
    /// The letter that names the axis.
    pub fn to_string(&self) -> (res: String)
        ensures
            res@ == seq![orient_char(*self)],
    {
        let mut s = String::new();
        let s_orient = match *self {
            Orient::Front => 'F',
            Orient::Horizontal => 'H',
            Orient::Vertical => 'V',
        };
        push_char(&mut s, s_orient);
        s
    }
}

impl Dir {
    /// The sign that names the sense.
    pub fn to_string(&self) -> (res: String)
        ensures
            res@ == seq![dir_char(*self)],
    {
        let mut s = String::new();
        let sdir = match *self {
            Dir::Plus => '+',
            Dir::Minus => '-',
        };
        push_char(&mut s, sdir);
        s
    }
}

impl Item {
    /// The name of the move (see `item_text`).
    pub fn to_string(&self) -> (res: String)
        ensures
            res@ == item_text(*self),
    {
        let Item(orient, dir, pos) = *self;
        let mut s = orient.to_string();
        let d = dir.to_string();
        s.append(d.as_str());
        push_decimal(&mut s, pos as u64);
        assert(s@ =~= item_text(*self));
        s
    }
}

/// Reverses the order of a row or column.
fn invert(r_c: &[u8; SIZE]) -> (res: [u8; SIZE])
    ensures
        forall|k: int| 0 <= k < SIZE ==> res[k] == r_c[SIZE - 1 - k],
{
    let mut res = *r_c;
    for k in 0..SIZE
        invariant
            forall|i: int| 0 <= i < k ==> res[i] == r_c[SIZE - 1 - i],
    {
        res[k] = r_c[SIZE - 1 - k];
    }
    res
}

/// Turns horizontal layer `level` (row `level` of the four side faces).
pub fn horizontal(sides: &Sides, dir: Dir, level: usize) -> (res: Sides)
    requires
        level < SIZE,
    ensures
        res@ == apply_move(sides@, Item(Orient::Horizontal, dir, level)),
{
    let mut result = *sides;
    match dir {
        Dir::Plus => {
            result.left = merge_row(&sides.left, level, &sides.back.row(level));
            result.front = merge_row(&sides.front, level, &sides.left.row(level));
            result.right = merge_row(&sides.right, level, &sides.front.row(level));
            result.back = merge_row(&sides.back, level, &sides.right.row(level));
        },
        Dir::Minus => {
            result.left = merge_row(&sides.left, level, &sides.front.row(level));
            result.right = merge_row(&sides.right, level, &sides.back.row(level));
            result.front = merge_row(&sides.front, level, &sides.right.row(level));
            result.back = merge_row(&sides.back, level, &sides.left.row(level));
        },
    };
    if level + 1 == 1 {
        result.top = match dir {
            Dir::Plus => rotation(&sides.top, Turn::InvClock),
            Dir::Minus => rotation(&sides.top, Turn::Clock),
        };
    } else if level + 1 == SIZE {
        result.bottom = match dir {
            Dir::Plus => rotation(&sides.bottom, Turn::Clock),
            Dir::Minus => rotation(&sides.bottom, Turn::InvClock),
        };
    }
    proof {
        lemma_apply_move_from_stickers(*sides, result, Item(Orient::Horizontal, dir, level));
    }
    result
}

/// Turns vertical layer `level` (column `level` of top, front, bottom, back).
pub fn vertical(sides: &Sides, dir: Dir, level: usize) -> (res: Sides)
    requires
        level < SIZE,
    ensures
        res@ == apply_move(sides@, Item(Orient::Vertical, dir, level)),
{
    let mut result = *sides;
    match dir {
        Dir::Plus => {
            result.front = merge_col(&sides.front, level, &sides.top.col(level));
            result.bottom = merge_col(&sides.bottom, level, &sides.front.col(level));
            result.back = merge_col(&sides.back, level, &sides.bottom.col(level));
            result.top = merge_col(&sides.top, level, &sides.back.col(level));
        },
        Dir::Minus => {
            result.back = merge_col(&sides.back, level, &sides.top.col(level));
            result.bottom = merge_col(&sides.bottom, level, &sides.back.col(level));
            result.front = merge_col(&sides.front, level, &sides.bottom.col(level));
            result.top = merge_col(&sides.top, level, &sides.front.col(level));
        },
    };
    if level + 1 == 1 {
        result.left = match dir {
            Dir::Plus => rotation(&sides.left, Turn::Clock),
            Dir::Minus => rotation(&sides.left, Turn::InvClock),
        };
    } else if level + 1 == SIZE {
        result.right = match dir {
            Dir::Plus => rotation(&sides.right, Turn::InvClock),
            Dir::Minus => rotation(&sides.right, Turn::Clock),
        };
    }
    proof {
        lemma_apply_move_from_stickers(*sides, result, Item(Orient::Vertical, dir, level));
    }
    result
}

/// Turns front layer `level` (counted from the front face towards the back).
pub fn front(sides: &Sides, dir: Dir, level: usize) -> (res: Sides)
    requires
        level < SIZE,
    ensures
        res@ == apply_move(sides@, Item(Orient::Front, dir, level)),
{
    let mut result = *sides;
    let far = SIZE - level - 1;
    match dir {
        Dir::Plus => {
            result.right = merge_col(&sides.right, level, &sides.top.row(far));
            result.bottom = merge_row(&sides.bottom, level, &invert(&sides.right.col(level)));
            result.left = merge_col(&sides.left, far, &sides.bottom.row(level));
            result.top = merge_row(&sides.top, far, &invert(&sides.left.col(far)));
        },
        Dir::Minus => {
            result.left = merge_col(&sides.left, far, &invert(&sides.top.row(far)));
            result.bottom = merge_row(&sides.bottom, level, &sides.left.col(far));
            result.right = merge_col(&sides.right, level, &invert(&sides.bottom.row(level)));
            result.top = merge_row(&sides.top, far, &sides.right.col(level));
        },
    };
    if level + 1 == 1 {
        result.front = match dir {
            Dir::Plus => rotation(&sides.front, Turn::Clock),
            Dir::Minus => rotation(&sides.front, Turn::InvClock),
        };
    } else if level + 1 == SIZE {
        result.back = match dir {
            Dir::Plus => rotation(&sides.back, Turn::InvClock),
            Dir::Minus => rotation(&sides.back, Turn::Clock),
        };
    }
    proof {
        lemma_apply_move_from_stickers(*sides, result, Item(Orient::Front, dir, level));
    }
    result
}

} // verus!
