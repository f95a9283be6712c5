use vstd::prelude::*;

use crate::config::SIZE;
use crate::side::Side;
use crate::side::for_cube::turn_source;
use crate::side::for_cube::Dir as Turn;
use rot::{process, valid_move, Dir, Item, Orient};

pub mod geometry;
pub mod laws;
pub mod show;
pub mod rot;

verus! {

/// The six faces of a cube.
///
/// Faces are numbered in the order of the fields: 0 top, 1 left, 2 front,
/// 3 right, 4 bottom, 5 back.
#[derive(Clone, Copy, Debug, PartialEq, Eq)]
pub struct Sides {
    pub top: Side,
    pub left: Side,
    pub front: Side,
    pub right: Side,
    pub bottom: Side,
    pub back: Side,
}

/// Number of faces of a cube.
pub const FACES: usize = 6;

impl Sides {
    /// Face number `f`.
    pub open spec fn face(self, f: int) -> Side {
        if f == 0 {
            self.top
        } else if f == 1 {
            self.left
        } else if f == 2 {
            self.front
        } else if f == 3 {
            self.right
        } else if f == 4 {
            self.bottom
        } else {
            self.back
        }
    }

    /// The sticker of face `f`, row `r`, column `c`.
    pub open spec fn sticker(self, f: int, r: int, c: int) -> u8 {
        self.face(f).at(r, c)
    }
}

/// A cube with the given faces.
pub fn create(
    top: &Side,
    left: &Side,
    front: &Side,
    right: &Side,
    bottom: &Side,
    back: &Side,
) -> (res: Sides)
    ensures
        res == (Sides {
            top: *top,
            left: *left,
            front: *front,
            right: *right,
            bottom: *bottom,
            back: *back,
        }),
{
    Sides { top: *top, left: *left, front: *front, right: *right, bottom: *bottom, back: *back }
}

/// `ch` is a decimal digit.
pub open spec fn is_digit(ch: char) -> bool {
    '0' <= ch <= '9'
}

/// The value of decimal digit `ch`.
pub open spec fn digit_value(ch: char) -> u8 {
    (ch as int - 48) as u8
}

/// `line` holds `SIZE` digits from index `start` on.
pub open spec fn digits_at(line: Seq<char>, start: int) -> bool {
    &&& start + SIZE <= line.len()
    &&& forall|k: int| 0 <= k < SIZE ==> is_digit(#[trigger] line[start + k])
}

/// The line of the picture that holds row `r` of face `f`.
pub open spec fn line_of(f: int, r: int) -> int {
    if f == 0 {
        r
    } else if f <= 3 {
        SIZE + r
    } else if f == 4 {
        2 * SIZE + r
    } else {
        3 * SIZE + r
    }
}

/// The index in its line of the first sticker of face `f`.
pub open spec fn first_col_of(f: int) -> int {
    if f == 2 {
        SIZE + 1
    } else if f == 3 {
        2 * SIZE + 2
    } else {
        0
    }
}

/// The lines describe a cube: each row of each face is `SIZE` digits at
/// its place (see `line_of` and `first_col_of`).
pub open spec fn picture_well_formed(lines: Seq<Seq<char>>) -> bool {
    &&& lines.len() == 4 * SIZE
    &&& forall|f: int, r: int|
        0 <= f < FACES && 0 <= r < SIZE ==> digits_at(
            #[trigger] lines[line_of(f, r)],
            first_col_of(f),
        )
}

/// The stickers that the lines describe: each sticker is the value of its
/// digit.
pub open spec fn picture_stickers(lines: Seq<Seq<char>>) -> Seq<Seq<Seq<u8>>> {
    Seq::new(
        FACES as nat,
        |f: int|
            Seq::new(
                SIZE as nat,
                |r: int|
                    Seq::new(
                        SIZE as nat,
                        |c: int| digit_value(lines[line_of(f, r)][first_col_of(f) + c]),
                    ),
            ),
    )
}

/// The lines as sequences of chars.
pub open spec fn lines_view(lines: [&str; 16]) -> Seq<Seq<char>> {
    lines@.map_values(|l: &str| l@)
}

/// The line of the picture that holds the first row of face `f`.
fn first_line(f: usize) -> (l: usize)
    requires
        f < FACES,
    ensures
        l == line_of(f as int, 0),
{
    if f == 0 {
        0
    } else if f <= 3 {
        SIZE
    } else if f == 4 {
        2 * SIZE
    } else {
        3 * SIZE
    }
}

/// The index in its line of the first sticker of face `f`.
fn first_col(f: usize) -> (c: usize)
    ensures
        c == first_col_of(f as int),
{
    if f == 2 {
        SIZE + 1
    } else if f == 3 {
        2 * SIZE + 2
    } else {
        0
    }
}

/// Reads face number `f` from the picture.
fn read_face(lines: &[&str; 16], f: usize) -> (res: Side)
    requires
        f < FACES,
        forall|r: int|
            0 <= r < SIZE ==> digits_at(#[trigger] lines[line_of(f as int, r)]@, first_col_of(f as int)),
    ensures
        forall|r: int, c: int|
            0 <= r < SIZE && 0 <= c < SIZE ==> #[trigger] res.at(r, c) == digit_value(
                lines[line_of(f as int, r)]@[first_col_of(f as int) + c],
            ),
{
    let line = first_line(f);
    let col = first_col(f);
    let mut cells = [[0u8; SIZE]; SIZE];
    for r in 0..SIZE
        invariant
            f < FACES,
            line == line_of(f as int, 0),
            col == first_col_of(f as int),
            forall|i: int|
                0 <= i < SIZE ==> digits_at(#[trigger] lines[line_of(f as int, i)]@, first_col_of(f as int)),
            forall|i: int, c: int|
                0 <= i < r && 0 <= c < SIZE ==> #[trigger] cells[i][c] == digit_value(
                    lines[line_of(f as int, i)]@[col + c],
                ),
    {
        assert(line_of(f as int, r as int) == line + r);
        let text: &str = lines[line + r];
        assert(digits_at(lines[line_of(f as int, r as int)]@, col as int));
        let mut row = [0u8; SIZE];
        for c in 0..SIZE
            invariant
                0 <= r < SIZE,
                col <= 2 * SIZE + 2,
                text@ == lines[line_of(f as int, r as int)]@,
                digits_at(text@, col as int),
                forall|k: int| 0 <= k < c ==> #[trigger] row[k] == digit_value(text@[col + k]),
        {
            assert(is_digit(text@[col + c as int]));
            let ch = text.get_char(col + c);
            row[c] = (ch as u32 - 48) as u8;
        }
        let ghost prev = cells;
        cells[r] = row;
        assert forall|i: int, c: int| 0 <= i < r && 0 <= c < SIZE implies cells[i][c]
            == prev[i][c] by {
            assert(cells[i] == prev[i]);
        }
    }
    Side { cells }
}

/// The cube drawn by `lines`, in the layout of `Sides::to_string` without
/// its empty lines: `SIZE` lines of the top face, `SIZE` lines holding the
/// left, front and right faces separated by one character, `SIZE` lines of
/// the bottom face and `SIZE` lines of the back face.
pub fn create_from_strings(lines: [&str; 16]) -> (res: Sides)
    requires
        picture_well_formed(lines_view(lines)),
    ensures
        res@ == picture_stickers(lines_view(lines)),
{
    proof {
        assert forall|f: int, r: int| 0 <= f < FACES && 0 <= r < SIZE implies digits_at(
            #[trigger] lines[line_of(f, r)]@,
            first_col_of(f),
        ) by {
            assert(lines_view(lines)[line_of(f, r)] == lines[line_of(f, r)]@);
        }
    }
    let res = Sides {
        top: read_face(&lines, 0),
        left: read_face(&lines, 1),
        front: read_face(&lines, 2),
        right: read_face(&lines, 3),
        bottom: read_face(&lines, 4),
        back: read_face(&lines, 5),
    };
    assert forall|f: int, r: int, c: int| valid_pos(f, r, c) implies #[trigger] res@[f][r][c]
        == picture_stickers(lines_view(lines))[f][r][c] by {
        assert(lines_view(lines)[line_of(f, r)] == lines[line_of(f, r)]@);
    }
    assert(res@ =~~= picture_stickers(lines_view(lines)));
    res
}

impl Sides {
    /// Face number `f`.
    fn face_ref(&self, f: usize) -> (res: &Side)
        requires
            f < FACES,
        ensures
            *res == self.face(f as int),
    {
        match f {
            0 => &self.top,
            1 => &self.left,
            2 => &self.front,
            3 => &self.right,
            4 => &self.bottom,
            _ => &self.back,
        }
    }

    /// The cube after move `item`.
    pub fn get_rotation(&self, item: &Item) -> (res: Sides)
        requires
            valid_move(*item),
        ensures
            res@ == apply_move(self@, *item),
    {
        process(self, item)
    }
}

/// Whether the two cubes have the same sticker at every position.
pub fn equivalent_end(origin: &Sides, end: &Sides) -> (res: bool)
    ensures
        res == (origin@ == end@),
{
    for f in 0..FACES
        invariant
            forall|g: int, r: int, c: int|
                0 <= g < f && valid_pos(g, r, c) ==> #[trigger] origin.sticker(g, r, c) == end.sticker(g, r, c),
    {
        let a = origin.face_ref(f);
        let b = end.face_ref(f);
        for r in 0..SIZE
            invariant
                f < FACES,
                *a == origin.face(f as int),
                *b == end.face(f as int),
                forall|g: int, i: int, c: int|
                    0 <= g < f && valid_pos(g, i, c) ==> #[trigger] origin.sticker(g, i, c) == end.sticker(g, i, c),
                forall|i: int, c: int|
                    0 <= i < r && 0 <= c < SIZE ==> #[trigger] a.at(i, c) == b.at(i, c),
        {
            for c in 0..SIZE
                invariant
                    r < SIZE,
                    f < FACES,
                    *a == origin.face(f as int),
                    *b == end.face(f as int),
                    forall|i: int, k: int|
                        0 <= i < r && 0 <= k < SIZE ==> #[trigger] a.at(i, k) == b.at(i, k),
                    forall|k: int| 0 <= k < c ==> #[trigger] a.at(r as int, k) == b.at(r as int, k),
            {
                if a.cells[r][c] != b.cells[r][c] {
                    proof {
                        assert(origin@[f as int][r as int][c as int] == origin.sticker(
                            f as int,
                            r as int,
                            c as int,
                        ));
                        assert(end@[f as int][r as int][c as int] == end.sticker(
                            f as int,
                            r as int,
                            c as int,
                        ));
                    }
                    return false;
                }
            }
        }
    }
    assert forall|g: int, r: int, c: int| valid_pos(g, r, c) implies #[trigger] origin@[g][r][c]
        == end@[g][r][c] by {
        assert(origin.sticker(g, r, c) == end.sticker(g, r, c));
    }
    assert(origin@ =~~= end@);
    true
}

/// A position on the cube is valid when it names an existing sticker.
pub open spec fn valid_pos(f: int, r: int, c: int) -> bool {
    0 <= f < FACES && 0 <= r < SIZE && 0 <= c < SIZE
}

/// The stickers of a cube, indexed by face, row and column.
pub open spec fn stickers_of(s: Sides) -> Seq<Seq<Seq<u8>>> {
    Seq::new(FACES as nat, |f: int| s.face(f).rows())
}

impl View for Sides {
    type V = Seq<Seq<Seq<u8>>>;

    open spec fn view(&self) -> Seq<Seq<Seq<u8>>> {
        stickers_of(*self)
    }
}

/// The position whose sticker a move of the horizontal layer `l` in sense
/// `dir` brings to face `f`, row `r`, column `c`.
pub open spec fn horizontal_source(dir: Dir, l: int, f: int, r: int, c: int) -> (int, int, int) {
    let plus = dir == Dir::Plus;
    if f == 0 && l == 0 {
        let t = turn_source(if plus { Turn::InvClock } else { Turn::Clock }, r, c);
        (0, t.0, t.1)
    } else if f == 4 && l == SIZE - 1 {
        let t = turn_source(if plus { Turn::Clock } else { Turn::InvClock }, r, c);
        (4, t.0, t.1)
    } else if r == l && (f == 1 || f == 2 || f == 3 || f == 5) {
        // Plus: back -> left -> front -> right -> back.
        let from = if f == 1 {
            if plus { 5int } else { 2 }
        } else if f == 2 {
            if plus { 1int } else { 3 }
        } else if f == 3 {
            if plus { 2int } else { 5 }
        } else {
            if plus { 3int } else { 1 }
        };
        (from, r, c)
    } else {
        (f, r, c)
    }
}

/// The position whose sticker a move of the vertical layer `l` in sense
/// `dir` brings to face `f`, row `r`, column `c`.
pub open spec fn vertical_source(dir: Dir, l: int, f: int, r: int, c: int) -> (int, int, int) {
    let plus = dir == Dir::Plus;
    if f == 1 && l == 0 {
        let t = turn_source(if plus { Turn::Clock } else { Turn::InvClock }, r, c);
        (1, t.0, t.1)
    } else if f == 3 && l == SIZE - 1 {
        let t = turn_source(if plus { Turn::InvClock } else { Turn::Clock }, r, c);
        (3, t.0, t.1)
    } else if c == l && (f == 0 || f == 2 || f == 4 || f == 5) {
        // Plus: top -> front -> bottom -> back -> top.
        let from = if f == 0 {
            if plus { 5int } else { 2 }
        } else if f == 2 {
            if plus { 0int } else { 4 }
        } else if f == 4 {
            if plus { 2int } else { 5 }
        } else {
            if plus { 4int } else { 0 }
        };
        (from, r, c)
    } else {
        (f, r, c)
    }
}

/// The position whose sticker a move of the front layer `l` in sense `dir`
/// brings to face `f`, row `r`, column `c`.
pub open spec fn front_source(dir: Dir, l: int, f: int, r: int, c: int) -> (int, int, int) {
    let plus = dir == Dir::Plus;
    let k = SIZE - 1 - l;
    let n = SIZE - 1;
    if f == 2 && l == 0 {
        let t = turn_source(if plus { Turn::Clock } else { Turn::InvClock }, r, c);
        (2, t.0, t.1)
    } else if f == 5 && l == SIZE - 1 {
        let t = turn_source(if plus { Turn::InvClock } else { Turn::Clock }, r, c);
        (5, t.0, t.1)
    } else if f == 3 && c == l {
        if plus { (0, k, r) } else { (4, l, n - r) }
    } else if f == 4 && r == l {
        if plus { (3, n - c, l) } else { (1, c, k) }
    } else if f == 1 && c == k {
        if plus { (4, l, r) } else { (0, k, n - r) }
    } else if f == 0 && r == k {
        if plus { (1, n - c, k) } else { (3, c, l) }
    } else {
        (f, r, c)
    }
}

/// The position whose sticker move `m` brings to face `f`, row `r`,
/// column `c`. Every move permutes the stickers of the cube.
pub open spec fn source(m: Item, f: int, r: int, c: int) -> (int, int, int) {
    match m.0 {
        Orient::Horizontal => horizontal_source(m.1, m.2 as int, f, r, c),
        Orient::Vertical => vertical_source(m.1, m.2 as int, f, r, c),
        Orient::Front => front_source(m.1, m.2 as int, f, r, c),
    }
}

/// The stickers of cube `v` after move `m`.
pub open spec fn apply_move(v: Seq<Seq<Seq<u8>>>, m: Item) -> Seq<Seq<Seq<u8>>> {
    Seq::new(
        FACES as nat,
        |f: int|
            Seq::new(
                SIZE as nat,
                |r: int|
                    Seq::new(
                        SIZE as nat,
                        |c: int|
                            {
                                let p = source(m, f, r, c);
                                v[p.0][p.1][p.2]
                            },
                    ),
            ),
    )
}

/// Every move takes each sticker from a valid position.
pub proof fn lemma_source_valid(m: Item, f: int, r: int, c: int)
    requires
        m.2 < SIZE,
        valid_pos(f, r, c),
    ensures
        valid_pos(source(m, f, r, c).0, source(m, f, r, c).1, source(m, f, r, c).2),
{
}

/// A cube whose every sticker comes from `source` is `apply_move` of the
/// original cube.
pub proof fn lemma_apply_move_from_stickers(s: Sides, t: Sides, m: Item)
    requires
        m.2 < SIZE,
        forall|f: int, r: int, c: int|
            #![trigger t.sticker(f, r, c)]
            valid_pos(f, r, c) ==> t.sticker(f, r, c) == s.sticker(
                source(m, f, r, c).0,
                source(m, f, r, c).1,
                source(m, f, r, c).2,
            ),
    ensures
        t@ == apply_move(s@, m),
{
    assert forall|f: int, r: int, c: int| valid_pos(f, r, c) implies #[trigger] t@[f][r][c]
        == apply_move(s@, m)[f][r][c] by {
        lemma_source_valid(m, f, r, c);
        assert(t@[f][r][c] == t.sticker(f, r, c));
    }
    assert(t@ =~~= apply_move(s@, m));
}

} // verus!
