use vstd::prelude::*;

use crate::cube::apply_move;
use crate::cube::laws::{
    cube_shaped, law_four_times, law_move_then_reverse, law_same_axis_commute,
    lemma_apply_move_shaped,
};
use crate::cube::rot::{reverse_of, valid_move, Item};

verus! {

/// Every move of `s` is valid.
pub open spec fn valid_moves(s: Seq<Item>) -> bool {
    forall|i: int| 0 <= i < s.len() ==> valid_move(#[trigger] s[i])
}

/// The stickers of cube `v` after the moves of `s`, first to last.
pub open spec fn apply_moves(v: Seq<Seq<Seq<u8>>>, s: Seq<Item>) -> Seq<Seq<Seq<u8>>>
    decreases s.len(),
{
    if s.len() == 0 {
        v
    } else {
        apply_moves(apply_move(v, s[0]), s.drop_first())
    }
}

/// `next` turns a lower layer than `last`, around the same axis and in the
/// same sense.
pub open spec fn out_of_order(last: Item, next: Item) -> bool {
    last.0 == next.0 && last.1 == next.1 && last.2 > next.2
}

/// The search does not try `m` after the moves of `path`: `m` undoes the
/// last move, repeats the last two, or comes out of order after the last.
pub open spec fn pruned(path: Seq<Item>, m: Item) -> bool {
    ||| path.len() > 0 && path.last() == reverse_of(m)
    ||| path.len() >= 2 && path.last() == m && path[path.len() - 2] == m
    ||| path.len() > 0 && out_of_order(path.last(), m)
}

/// After the moves of `path`, the search tries each move of `s` in turn.
pub open spec fn canonical_after(path: Seq<Item>, s: Seq<Item>) -> bool {
    forall|j: int| 0 <= j < s.len() ==> !pruned(path + s.take(j), #[trigger] s[j])
}

/// No sequence of valid moves shorter than `s` takes `v` where `s` does.
pub open spec fn shortest(v: Seq<Seq<Seq<u8>>>, s: Seq<Item>) -> bool {
    forall|u: Seq<Item>|
        valid_moves(u) && #[trigger] apply_moves(v, u) == apply_moves(v, s) ==> u.len() >= s.len()
}

/// Moves keep the shape of a cube.
pub proof fn lemma_apply_moves_shaped(v: Seq<Seq<Seq<u8>>>, s: Seq<Item>)
    requires
        cube_shaped(v),
        valid_moves(s),
    ensures
        cube_shaped(apply_moves(v, s)),
    decreases s.len(),
{
    if s.len() > 0 {
        lemma_apply_move_shaped(v, s[0]);
        lemma_apply_moves_shaped(apply_move(v, s[0]), s.drop_first());
    }
}

/// Doing `a` then `b` is doing `a + b`.
pub proof fn lemma_apply_moves_append(v: Seq<Seq<Seq<u8>>>, a: Seq<Item>, b: Seq<Item>)
    ensures
        apply_moves(v, a + b) == apply_moves(apply_moves(v, a), b),
    decreases a.len(),
{
    if a.len() == 0 {
        assert(a + b =~= b);
    } else {
        assert((a + b).drop_first() =~= a.drop_first() + b);
        lemma_apply_moves_append(apply_move(v, a[0]), a.drop_first(), b);
    }
}

/// Doing the moves of `s` then `m` is doing `s.push(m)`.
pub proof fn lemma_apply_moves_push(v: Seq<Seq<Seq<u8>>>, s: Seq<Item>, m: Item)
    ensures
        apply_moves(v, s.push(m)) == apply_move(apply_moves(v, s), m),
{
    lemma_apply_moves_append(v, s, seq![m]);
    assert(s + seq![m] =~= s.push(m));
    assert(seq![m].drop_first() =~= Seq::<Item>::empty());
    reveal_with_fuel(apply_moves, 2);
}

/// A prefix of a shortest sequence is a shortest sequence.
proof fn lemma_shortest_prefix(v: Seq<Seq<Seq<u8>>>, s: Seq<Item>)
    requires
        s.len() > 0,
        valid_moves(s),
        shortest(v, s),
    ensures
        shortest(v, s.drop_last()),
{
    let a = s.drop_last();
    let x = s.last();
    assert(a.push(x) =~= s);
    assert forall|u: Seq<Item>| valid_moves(u) && #[trigger] apply_moves(v, u) == apply_moves(
        v,
        a,
    ) implies u.len() >= a.len() by {
        lemma_apply_moves_push(v, u, x);
        lemma_apply_moves_push(v, a, x);
        assert(valid_moves(u.push(x)));
        assert(apply_moves(v, u.push(x)) == apply_moves(v, s));
    }
}

/// Replacing the moves of `s` between `i` and `j` by `mid`, which takes every
/// cube where they take it, gives a sequence that takes `v` where `s` does.
proof fn lemma_replace_middle(
    v: Seq<Seq<Seq<u8>>>,
    s: Seq<Item>,
    i: int,
    j: int,
    mid: Seq<Item>,
)
    requires
        0 <= i <= j <= s.len(),
        apply_moves(apply_moves(v, s.take(i)), mid) == apply_moves(
            apply_moves(v, s.take(i)),
            s.subrange(i, j),
        ),
    ensures
        apply_moves(v, s.take(i) + mid + s.skip(j)) == apply_moves(v, s),
{
    let pre = s.take(i);
    let w = apply_moves(v, pre);
    lemma_apply_moves_append(v, pre + mid, s.skip(j));
    lemma_apply_moves_append(v, pre, mid);
    lemma_apply_moves_append(v, pre + s.subrange(i, j), s.skip(j));
    lemma_apply_moves_append(v, pre, s.subrange(i, j));
    assert(pre + s.subrange(i, j) + s.skip(j) =~= s);
}

/// A shortest sequence of valid moves from a cube is never pruned: no move
/// undoes the one before, no move is the third of three equal moves.
proof fn lemma_shortest_not_pruned(v: Seq<Seq<Seq<u8>>>, s: Seq<Item>, j: int)
    requires
        cube_shaped(v),
        valid_moves(s),
        shortest(v, s),
        0 <= j < s.len(),
    ensures
        !(j > 0 && s[j - 1] == reverse_of(s[j])),
        !(j >= 2 && s[j - 1] == s[j] && s[j - 2] == s[j]),
{
    if j > 0 && s[j - 1] == reverse_of(s[j]) {
        let m = s[j - 1];
        let w = apply_moves(v, s.take(j - 1));
        lemma_apply_moves_shaped(v, s.take(j - 1));
        law_move_then_reverse(w, m);
        assert(s.subrange(j - 1, j + 1).drop_first().drop_first() =~= Seq::<Item>::empty());
        assert(s.subrange(j - 1, j + 1).drop_first()[0] == reverse_of(m));
        reveal_with_fuel(apply_moves, 3);
        lemma_replace_middle(v, s, j - 1, j + 1, Seq::empty());
        let u = s.take(j - 1) + Seq::empty() + s.skip(j + 1);
        assert(valid_moves(u));
        assert(apply_moves(v, u) == apply_moves(v, s));
    }
    if j >= 2 && s[j - 1] == s[j] && s[j - 2] == s[j] {
        let m = s[j];
        let w = apply_moves(v, s.take(j - 2));
        lemma_apply_moves_shaped(v, s.take(j - 2));
        lemma_apply_move_shaped(w, m);
        lemma_apply_move_shaped(apply_move(w, m), m);
        lemma_apply_move_shaped(apply_move(apply_move(w, m), m), m);
        law_four_times(w, m);
        law_move_then_reverse(apply_move(apply_move(apply_move(w, m), m), m), m);
        let three = s.subrange(j - 2, j + 1);
        assert(three.drop_first().drop_first().drop_first() =~= Seq::<Item>::empty());
        assert(seq![reverse_of(m)].drop_first() =~= Seq::<Item>::empty());
        reveal_with_fuel(apply_moves, 4);
        assert(apply_moves(w, three) == apply_move(apply_move(apply_move(w, m), m), m));
        lemma_replace_middle(v, s, j - 2, j + 1, seq![reverse_of(m)]);
        let u = s.take(j - 2) + seq![reverse_of(m)] + s.skip(j + 1);
        assert(valid_moves(u));
        assert(apply_moves(v, u) == apply_moves(v, s));
    }
}

/// No move of `s` comes out of order after the one before it.
pub open spec fn ordered(s: Seq<Item>) -> bool {
    forall|j: int| 0 < j < s.len() ==> !out_of_order(s[j - 1], #[trigger] s[j])
}

/// Moves `x` down past the moves of the same axis and sense that turn
/// higher layers, at the end of the ordered sequence `c`.
proof fn lemma_insert(v: Seq<Seq<Seq<u8>>>, c: Seq<Item>, x: Item) -> (t: Seq<Item>)
    requires
        cube_shaped(v),
        valid_moves(c),
        valid_move(x),
        ordered(c),
    ensures
        valid_moves(t),
        t.len() == c.len() + 1,
        ordered(t),
        apply_moves(v, t) == apply_moves(v, c.push(x)),
        t.last() == x || (c.len() > 0 && t.last() == c.last()),
    decreases c.len(),
{
    if c.len() == 0 || !out_of_order(c.last(), x) {
        c.push(x)
    } else {
        let y = c.last();
        let c0 = c.drop_last();
        assert(c0.push(y) =~= c);
        let t0 = lemma_insert(v, c0, x);
        let t = t0.push(y);
        assert forall|j: int| 0 < j < t.len() implies !out_of_order(t[j - 1], #[trigger] t[j]) by {
            if j == t.len() - 1 {
                assert(t[j - 1] == t0.last());
                if c0.len() > 0 && t0.last() == c0.last() {
                    assert(c[c.len() - 2] == c0.last());
                }
            } else {
                assert(t[j] == t0[j]);
                assert(t[j - 1] == t0[j - 1]);
            }
        }
        let w = apply_moves(v, c0);
        lemma_apply_moves_shaped(v, c0);
        lemma_apply_moves_push(v, t0, y);
        lemma_apply_moves_push(v, c0, x);
        lemma_apply_moves_push(v, c0, y);
        lemma_apply_moves_push(v, c, x);
        law_same_axis_commute(w, x, y);
        t
    }
}

/// A shortest sequence can be reordered into one that the search tries,
/// with the same length and the same result.
proof fn lemma_canonical(v: Seq<Seq<Seq<u8>>>, s: Seq<Item>) -> (t: Seq<Item>)
    requires
        cube_shaped(v),
        valid_moves(s),
        shortest(v, s),
    ensures
        valid_moves(t),
        t.len() == s.len(),
        apply_moves(v, t) == apply_moves(v, s),
        ordered(t),
        canonical_after(Seq::empty(), t),
    decreases s.len(),
{
    if s.len() == 0 {
        s
    } else {
        let a = s.drop_last();
        let x = s.last();
        assert(a.push(x) =~= s);
        lemma_shortest_prefix(v, s);
        let c = lemma_canonical(v, a);
        let t = lemma_insert(v, c, x);
        lemma_apply_moves_push(v, c, x);
        lemma_apply_moves_push(v, a, x);
        assert(shortest(v, t));
        assert forall|j: int| 0 <= j < t.len() implies !pruned(
            Seq::<Item>::empty() + t.take(j),
            #[trigger] t[j],
        ) by {
            lemma_shortest_not_pruned(v, t, j);
            let p = Seq::<Item>::empty() + t.take(j);
            assert(p =~= t.take(j));
            if j > 0 {
                assert(p.last() == t[j - 1]);
            }
            if j >= 2 {
                assert(p[p.len() - 2] == t[j - 2]);
            }
        }
        t
    }
}

/// Among the sequences of valid moves that take `v` where `s` does, one of
/// the shortest.
proof fn lemma_shortest_exists(v: Seq<Seq<Seq<u8>>>, s: Seq<Item>) -> (t: Seq<Item>)
    requires
        valid_moves(s),
    ensures
        valid_moves(t),
        t.len() <= s.len(),
        apply_moves(v, t) == apply_moves(v, s),
        shortest(v, t),
    decreases s.len(),
{
    if exists|u: Seq<Item>|
        valid_moves(u) && #[trigger] apply_moves(v, u) == apply_moves(v, s) && u.len() < s.len() {
        let u = choose|u: Seq<Item>|
            valid_moves(u) && #[trigger] apply_moves(v, u) == apply_moves(v, s) && u.len()
                < s.len();
        lemma_shortest_exists(v, u)
    } else {
        s
    }
}

/// Whenever some sequence of valid moves takes cube `v` to `end`, a
/// sequence that the search tries, no longer, does too.
pub proof fn lemma_canonical_solution(
    v: Seq<Seq<Seq<u8>>>,
    end: Seq<Seq<Seq<u8>>>,
    s: Seq<Item>,
) -> (t: Seq<Item>)
    requires
        cube_shaped(v),
        valid_moves(s),
        apply_moves(v, s) == end,
    ensures
        valid_moves(t),
        t.len() <= s.len(),
        apply_moves(v, t) == end,
        canonical_after(Seq::empty(), t),
{
    let u = lemma_shortest_exists(v, s);
    lemma_canonical(v, u)
}

} // verus!
