use vstd::prelude::*;

use crate::config::SIZE;
use super::{apply_move, lemma_source_valid, source, valid_pos, Sides, FACES};
use super::rot::{reverse_of, valid_move, Item};
use vstd::set_lib::{lemma_int_range, lemma_map_size, lemma_set_subset_finite, set_int_range};

verus! {

/// `v` has the shape of the stickers of a cube: `FACES` faces of `SIZE`
/// rows of `SIZE` stickers.
pub open spec fn cube_shaped(v: Seq<Seq<Seq<u8>>>) -> bool {
    &&& v.len() == FACES
    &&& forall|f: int| 0 <= f < FACES ==> #[trigger] v[f].len() == SIZE
    &&& forall|f: int, r: int|
        0 <= f < FACES && 0 <= r < SIZE ==> #[trigger] v[f][r].len() == SIZE
}

/// The stickers of every cube have the shape of a cube.
pub proof fn lemma_sides_cube_shaped(s: Sides)
    ensures
        cube_shaped(s@),
{
}

/// A move keeps the shape of a cube.
pub proof fn lemma_apply_move_shaped(v: Seq<Seq<Seq<u8>>>, m: Item)
    ensures
        cube_shaped(apply_move(v, m)),
{
}

/// Undoing a move at the level of positions: the sticker that `m` brings to
/// the place from which its reverse fetches is the one that started there.
proof fn lemma_source_reverse(m: Item, f: int, r: int, c: int)
    requires
        valid_move(m),
        valid_pos(f, r, c),
    ensures
        ({
            let p = source(reverse_of(m), f, r, c);
            source(m, p.0, p.1, p.2) == (f, r, c)
        }),
{
}

/// Four quarter turns of the same layer bring every sticker home.
proof fn lemma_source_four_times(m: Item, f: int, r: int, c: int)
    requires
        valid_move(m),
        valid_pos(f, r, c),
    ensures
        ({
            let p1 = source(m, f, r, c);
            let p2 = source(m, p1.0, p1.1, p1.2);
            let p3 = source(m, p2.0, p2.1, p2.2);
            source(m, p3.0, p3.1, p3.2) == (f, r, c)
        }),
{
    let p1 = source(m, f, r, c);
    let p2 = source(m, p1.0, p1.1, p1.2);
    let p3 = source(m, p2.0, p2.1, p2.2);
    if f == 0 {
    } else if f == 1 {
    } else if f == 2 {
    } else if f == 3 {
    } else if f == 4 {
    } else {
    }
}

/// Two moves around the same axis take stickers from the same places in
/// either order.
proof fn lemma_source_same_axis_commute(m1: Item, m2: Item, f: int, r: int, c: int)
    requires
        valid_move(m1),
        valid_move(m2),
        m1.0 == m2.0,
        valid_pos(f, r, c),
    ensures
        ({
            let p1 = source(m2, f, r, c);
            let p2 = source(m1, f, r, c);
            source(m1, p1.0, p1.1, p1.2) == source(m2, p2.0, p2.1, p2.2)
        }),
{
    if f == 0 {
    } else if f == 1 {
    } else if f == 2 {
    } else if f == 3 {
    } else if f == 4 {
    } else {
    }
}

/// Two moves around the same axis commute: doing them in either order gives
/// the same cube.
pub proof fn law_same_axis_commute(v: Seq<Seq<Seq<u8>>>, m1: Item, m2: Item)
    requires
        cube_shaped(v),
        valid_move(m1),
        valid_move(m2),
        m1.0 == m2.0,
    ensures
        apply_move(apply_move(v, m1), m2) == apply_move(apply_move(v, m2), m1),
{
    let w1 = apply_move(apply_move(v, m1), m2);
    let w2 = apply_move(apply_move(v, m2), m1);
    assert forall|f: int, r: int, c: int| valid_pos(f, r, c) implies #[trigger] w1[f][r][c]
        == w2[f][r][c] by {
        lemma_source_same_axis_commute(m1, m2, f, r, c);
        lemma_source_valid(m1, f, r, c);
        lemma_source_valid(m2, f, r, c);
    }
    assert(w1 =~~= w2);
}

/// Reversing a move twice gives back the move.
pub proof fn law_reverse_involution(m: Item)
    ensures
        reverse_of(reverse_of(m)) == m,
{
}

/// A move followed by its reverse leaves every sticker of the cube where it
/// was.
pub proof fn law_move_then_reverse(v: Seq<Seq<Seq<u8>>>, m: Item)
    requires
        cube_shaped(v),
        valid_move(m),
    ensures
        apply_move(apply_move(v, m), reverse_of(m)) == v,
{
    let w = apply_move(apply_move(v, m), reverse_of(m));
    assert forall|f: int, r: int, c: int| valid_pos(f, r, c) implies #[trigger] w[f][r][c]
        == v[f][r][c] by {
        lemma_source_reverse(m, f, r, c);
        lemma_source_valid(reverse_of(m), f, r, c);
    }
    assert(w =~~= v);
}

/// The reverse of a move followed by the move leaves every sticker where it
/// was.
pub proof fn law_reverse_then_move(v: Seq<Seq<Seq<u8>>>, m: Item)
    requires
        cube_shaped(v),
        valid_move(m),
    ensures
        apply_move(apply_move(v, reverse_of(m)), m) == v,
{
    law_move_then_reverse(v, reverse_of(m));
}

/// Four times the same move leaves every sticker where it was.
pub proof fn law_four_times(v: Seq<Seq<Seq<u8>>>, m: Item)
    requires
        cube_shaped(v),
        valid_move(m),
    ensures
        apply_move(apply_move(apply_move(apply_move(v, m), m), m), m) == v,
{
    let w = apply_move(apply_move(apply_move(apply_move(v, m), m), m), m);
    assert forall|f: int, r: int, c: int| valid_pos(f, r, c) implies #[trigger] w[f][r][c]
        == v[f][r][c] by {
        lemma_source_four_times(m, f, r, c);
        let p1 = source(m, f, r, c);
        let p2 = source(m, p1.0, p1.1, p1.2);
        let p3 = source(m, p2.0, p2.1, p2.2);
        lemma_source_valid(m, f, r, c);
        lemma_source_valid(m, p1.0, p1.1, p1.2);
        lemma_source_valid(m, p2.0, p2.1, p2.2);
    }
    assert(w =~~= v);
}

/// A move takes the stickers of two positions from two positions.
proof fn lemma_source_injective(m: Item, f1: int, r1: int, c1: int, f2: int, r2: int, c2: int)
    requires
        valid_move(m),
        valid_pos(f1, r1, c1),
        valid_pos(f2, r2, c2),
        source(m, f1, r1, c1) == source(m, f2, r2, c2),
    ensures
        f1 == f2 && r1 == r2 && c1 == c2,
{
    assert(reverse_of(reverse_of(m)) == m);
    lemma_source_reverse(reverse_of(m), f1, r1, c1);
    lemma_source_reverse(reverse_of(m), f2, r2, c2);
}

/// Each move takes every sticker from a different position, and every
/// position gives its sticker to some position: `source` is a bijection of
/// the valid positions.
pub proof fn law_source_bijective(m: Item)
    requires
        valid_move(m),
    ensures
        forall|f: int, r: int, c: int|
            valid_pos(f, r, c) ==> valid_pos(
                #[trigger] source(m, f, r, c).0,
                source(m, f, r, c).1,
                source(m, f, r, c).2,
            ),
        forall|f1: int, r1: int, c1: int, f2: int, r2: int, c2: int|
            valid_pos(f1, r1, c1) && valid_pos(f2, r2, c2) && #[trigger] source(m, f1, r1, c1)
                == #[trigger] source(m, f2, r2, c2) ==> f1 == f2 && r1 == r2 && c1 == c2,
        forall|f: int, r: int, c: int|
            valid_pos(f, r, c) ==> ({
                let p = #[trigger] source(reverse_of(m), f, r, c);
                valid_pos(p.0, p.1, p.2) && source(m, p.0, p.1, p.2) == (f, r, c)
            }),
{
    assert forall|f: int, r: int, c: int| valid_pos(f, r, c) implies valid_pos(
        #[trigger] source(m, f, r, c).0,
        source(m, f, r, c).1,
        source(m, f, r, c).2,
    ) by {
        lemma_source_valid(m, f, r, c);
    }
    assert forall|f1: int, r1: int, c1: int, f2: int, r2: int, c2: int|
        valid_pos(f1, r1, c1) && valid_pos(f2, r2, c2) && #[trigger] source(m, f1, r1, c1)
            == #[trigger] source(m, f2, r2, c2) implies f1 == f2 && r1 == r2 && c1 == c2 by {
        lemma_source_injective(m, f1, r1, c1, f2, r2, c2);
    }
    assert forall|f: int, r: int, c: int| valid_pos(f, r, c) implies ({
        let p = #[trigger] source(reverse_of(m), f, r, c);
        valid_pos(p.0, p.1, p.2) && source(m, p.0, p.1, p.2) == (f, r, c)
    }) by {
        lemma_source_valid(reverse_of(m), f, r, c);
        lemma_source_reverse(m, f, r, c);
    }
}

/// The positions of the cube, as (face, row, column).
pub open spec fn all_positions() -> Set<(int, int, int)> {
    Set::new(|p: (int, int, int)| valid_pos(p.0, p.1, p.2))
}

/// The positions of the stickers of color `col` in `v`.
pub open spec fn positions_of(v: Seq<Seq<Seq<u8>>>, col: u8) -> Set<(int, int, int)> {
    Set::new(|p: (int, int, int)| valid_pos(p.0, p.1, p.2) && v[p.0][p.1][p.2] == col)
}

/// The number of stickers of color `col` in `v`.
pub open spec fn color_count(v: Seq<Seq<Seq<u8>>>, col: u8) -> nat {
    positions_of(v, col).len()
}

/// The cube has finitely many positions.
proof fn lemma_all_positions_finite()
    ensures
        all_positions().finite(),
{
    let n = FACES * SIZE * SIZE;
    lemma_int_range(0, n as int);
    let decode = |i: int| (i / 16, (i % 16) / 4, i % 4);
    assert forall|p: (int, int, int)| all_positions().contains(p) implies set_int_range(
        0,
        n as int,
    ).map(decode).contains(p) by {
        let i = 16 * p.0 + 4 * p.1 + p.2;
        assert(decode(i) == p);
        assert(set_int_range(0, n as int).contains(i));
    }
    assert forall|p: (int, int, int)| set_int_range(0, n as int).map(decode).contains(
        p,
    ) implies all_positions().contains(p) by {
        let i = choose|i: int| set_int_range(0, n as int).contains(i) && decode(i) == p;
        assert(decode(i) == p);
    }
    assert(set_int_range(0, n as int).map(decode) =~= all_positions());
    set_int_range(0, n as int).lemma_map_finite(decode);
}

/// A move keeps the number of stickers of each color.
pub proof fn law_move_keeps_color_counts(v: Seq<Seq<Seq<u8>>>, m: Item, col: u8)
    requires
        cube_shaped(v),
        valid_move(m),
    ensures
        color_count(apply_move(v, m), col) == color_count(v, col),
{
    law_source_bijective(m);
    lemma_all_positions_finite();
    let w = apply_move(v, m);
    let after = positions_of(w, col);
    let before = positions_of(v, col);
    assert(after.subset_of(all_positions()));
    lemma_set_subset_finite(all_positions(), after);
    let src = |p: (int, int, int)| source(m, p.0, p.1, p.2);
    assert forall|p: (int, int, int)| after.contains(p) implies before.contains(src(p)) by {
        lemma_source_valid(m, p.0, p.1, p.2);
    }
    assert forall|q: (int, int, int)| before.contains(q) implies after.map(src).contains(q) by {
        let p = source(reverse_of(m), q.0, q.1, q.2);
        assert(src(p) == q);
        assert(after.contains(p));
    }
    assert(after.map(src) =~= before);
    assert forall|x: (int, int, int), y: (int, int, int)|
        after.contains(x) && after.contains(y) && #[trigger] src(x) == #[trigger] src(y) implies x
        == y by {
        assert(source(m, x.0, x.1, x.2) == source(m, y.0, y.1, y.2));
    }
    lemma_map_size(after, before, src);
}

} // verus!
