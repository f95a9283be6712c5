use vstd::prelude::*;

use crate::config::SIZE;
use super::{apply_move, lemma_source_valid, source, valid_pos};
use super::laws::cube_shaped;
use super::rot::{valid_move, Dir, Item, Orient};

verus! {

/// Where a sticker sits on the cube in space, in units of half a cubie.
///
/// `x` runs from the left face (0) to the right face (`2 * SIZE`), `y` from
/// the top face (0) to the bottom face, `z` from the front face (0) to the
/// back face. A sticker in row `r`, column `c` of a side face sits at odd
/// coordinates `2 * r + 1` and `2 * c + 1` along the face; its third
/// coordinate is 0 or `2 * SIZE`.
///
/// The front face is seen from the front; the top face with its last row
/// along the front; the bottom face with its first row along the front; the
/// left face with its last column along the front; the right face with its
/// first column along the front. The back face is seen from behind (its
/// rows level with the rows of the side faces) in horizontal and front
/// moves; vertical moves take it as it is drawn below the bottom face,
/// upside down (`back_drawn_below`), its first row along the bottom face.
pub open spec fn sticker_point(back_drawn_below: bool, f: int, r: int, c: int) -> (int, int, int) {
    let n = 2 * SIZE;
    if f == 0 {
        (2 * c + 1, 0, n - 2 * r - 1)
    } else if f == 1 {
        (0, 2 * r + 1, n - 2 * c - 1)
    } else if f == 2 {
        (2 * c + 1, 2 * r + 1, 0)
    } else if f == 3 {
        (n, 2 * r + 1, 2 * c + 1)
    } else if f == 4 {
        (2 * c + 1, n, 2 * r + 1)
    } else if back_drawn_below {
        (2 * c + 1, n - 2 * r - 1, n)
    } else {
        (n - 2 * c - 1, 2 * r + 1, n)
    }
}

/// The coordinate of point `p` along the axis of moves of kind `o`:
/// `y` for horizontal layers, `x` for vertical layers, `z` for front layers.
pub open spec fn along_axis(o: Orient, p: (int, int, int)) -> int {
    match o {
        Orient::Horizontal => p.1,
        Orient::Vertical => p.0,
        Orient::Front => p.2,
    }
}

/// A sticker at coordinate `u` along an axis belongs to layer `l`: it lies
/// on a side of the layer's cubies, or on the face that closes the layer at
/// either end.
pub open spec fn in_layer(u: int, l: int) -> bool {
    ||| u == 2 * l + 1
    ||| (l == 0 && u == 0)
    ||| (l == SIZE - 1 && u == 2 * SIZE)
}

/// Point `p` turned a quarter around the axis of move `m`, through the
/// centre of the cube, in the sense of `m`: a horizontal Plus turn takes
/// the back to the left, the left to the front; a vertical Plus turn takes
/// the top to the front, the front to the bottom; a front Plus turn takes
/// the top to the right, the right to the bottom.
pub open spec fn turn_point(m: Item, p: (int, int, int)) -> (int, int, int) {
    let n = 2 * SIZE;
    match (m.0, m.1) {
        (Orient::Horizontal, Dir::Plus) => (n - p.2, p.1, p.0),
        (Orient::Horizontal, Dir::Minus) => (p.2, p.1, n - p.0),
        (Orient::Vertical, Dir::Plus) => (p.0, n - p.2, p.1),
        (Orient::Vertical, Dir::Minus) => (p.0, p.2, n - p.1),
        (Orient::Front, Dir::Plus) => (n - p.1, p.0, p.2),
        (Orient::Front, Dir::Minus) => (p.1, n - p.0, p.2),
    }
}

/// The point of a sticker of the cube, as move `m` sees it.
pub open spec fn point_for(m: Item, f: int, r: int, c: int) -> (int, int, int) {
    sticker_point(m.0 == Orient::Vertical, f, r, c)
}

/// Different positions of the cube are at different points.
pub proof fn lemma_sticker_point_injective(
    b: bool,
    f1: int,
    r1: int,
    c1: int,
    f2: int,
    r2: int,
    c2: int,
)
    requires
        valid_pos(f1, r1, c1),
        valid_pos(f2, r2, c2),
        sticker_point(b, f1, r1, c1) == sticker_point(b, f2, r2, c2),
    ensures
        f1 == f2 && r1 == r2 && c1 == c2,
{
}

/// What one move does to one position: a sticker in the turned layer comes
/// from the position that the quarter turn takes to it; any other sticker
/// stays where it is.
proof fn lemma_source_is_turn(m: Item, f: int, r: int, c: int)
    requires
        valid_move(m),
        valid_pos(f, r, c),
    ensures
        ({
            let q = source(m, f, r, c);
            if in_layer(along_axis(m.0, point_for(m, f, r, c)), m.2 as int) {
                point_for(m, f, r, c) == turn_point(m, point_for(m, q.0, q.1, q.2))
                    && in_layer(along_axis(m.0, point_for(m, q.0, q.1, q.2)), m.2 as int)
            } else {
                q == (f, r, c)
            }
        }),
{
    if f == 0 {
    } else if f == 1 {
    } else if f == 2 {
    } else if f == 3 {
    } else if f == 4 {
    } else {
    }
}

/// Every move is a rigid quarter turn of one layer of the cube: the sticker
/// at any position `q` of the turned layer is found, after the move, at the
/// position `p` to which the quarter turn around the move's axis takes
/// `q`'s point; every sticker outside the layer stays where it is. So the
/// stickers of each piece of the layer (corners, edges, centres) stay
/// together, and the faces that close the layer at its ends turn in the
/// same sense as the ring of side stickers.
pub proof fn law_moves_are_rigid(v: Seq<Seq<Seq<u8>>>, m: Item)
    requires
        cube_shaped(v),
        valid_move(m),
    ensures
        forall|fq: int, rq: int, cq: int, fp: int, rp: int, cp: int|
            valid_pos(fq, rq, cq) && valid_pos(fp, rp, cp) && in_layer(
                along_axis(m.0, point_for(m, fq, rq, cq)),
                m.2 as int,
            ) && point_for(m, fp, rp, cp) == turn_point(m, #[trigger] point_for(m, fq, rq, cq))
                ==> #[trigger] apply_move(v, m)[fp][rp][cp] == v[fq][rq][cq],
        forall|f: int, r: int, c: int|
            valid_pos(f, r, c) && !in_layer(along_axis(m.0, point_for(m, f, r, c)), m.2 as int)
                ==> #[trigger] apply_move(v, m)[f][r][c] == v[f][r][c],
{
    assert forall|fq: int, rq: int, cq: int, fp: int, rp: int, cp: int|
        valid_pos(fq, rq, cq) && valid_pos(fp, rp, cp) && in_layer(
            along_axis(m.0, point_for(m, fq, rq, cq)),
            m.2 as int,
        ) && point_for(m, fp, rp, cp) == turn_point(m, #[trigger] point_for(m, fq, rq, cq))
            implies #[trigger] apply_move(v, m)[fp][rp][cp] == v[fq][rq][cq] by {
        lemma_source_is_turn(m, fp, rp, cp);
        lemma_source_valid(m, fp, rp, cp);
        let s = source(m, fp, rp, cp);
        let ps = point_for(m, s.0, s.1, s.2);
        let pq = point_for(m, fq, rq, cq);
        if !in_layer(along_axis(m.0, point_for(m, fp, rp, cp)), m.2 as int) {
            // the turn keeps the coordinate along its axis
            assert(along_axis(m.0, turn_point(m, pq)) == along_axis(m.0, pq));
        }
        assert(turn_point(m, ps) == turn_point(m, pq));
        assert(ps == pq);
        lemma_sticker_point_injective(m.0 == Orient::Vertical, s.0, s.1, s.2, fq, rq, cq);
    }
    assert forall|f: int, r: int, c: int|
        valid_pos(f, r, c) && !in_layer(along_axis(m.0, point_for(m, f, r, c)), m.2 as int)
            implies #[trigger] apply_move(v, m)[f][r][c] == v[f][r][c] by {
        lemma_source_is_turn(m, f, r, c);
    }
}

} // verus!
