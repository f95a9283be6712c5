use vstd::prelude::*;

use crate::config::SIZE;
use crate::cube::laws::lemma_sides_cube_shaped;
use crate::cube::rot::{valid_move, Dir, Item, Orient};
use crate::cube::{apply_move, equivalent_end, Sides};
use crate::text::{decimal, push_decimal};
use opts::before_move;
use shortest::{
    apply_moves, canonical_after, lemma_apply_moves_push, lemma_canonical_solution, pruned,
    valid_moves,
};

pub mod opts;
pub mod shortest;

verus! {

/// A solution found by the search: its number of moves and the number of
/// moves tried when it was found.
#[derive(Debug, Clone, Copy)]
pub struct Found {
    pub depth: u8,
    pub iterations: u64,
}

/// Of a solution found before (if any) and a new one, the one found after
/// fewer tried moves; the new one on a tie.
pub open spec fn better_of(l: Option<Found>, r: Found) -> Option<Found> {
    match l {
        Some(found_l) => if found_l.iterations < r.iterations {
            Some(found_l)
        } else {
            Some(r)
        },
        None => Some(r),
    }
}

/// Of `l` (if any) and `r`, the solution found after fewer tried moves.
pub fn get_better(l: Option<Found>, r: &Found) -> (res: Option<Found>)
    ensures
        res == better_of(l, *r),
{
    match l {
        Some(found_l) => {
            if found_l.iterations < r.iterations {
                Some(found_l)
            } else {
                Some(*r)
            }
        },
        None => Some(*r),
    }
}

/// The text of a solution: its depth, then the number of tried moves.
pub open spec fn found_text(f: Found) -> Seq<char> {
    "found.depth:  "@ + decimal(f.depth as nat) + "\n"@ + "found.iter:   "@ + decimal(
        f.iterations as nat,
    )
}

impl Found {
    /// The text of the solution (see `found_text`).
    pub fn to_string(&self) -> (res: String)
        ensures
            res@ == found_text(*self),
    {
        let mut s = String::new();
        s.append("found.depth:  ");
        push_decimal(&mut s, self.depth as u64);
        s.append("\n");
        s.append("found.iter:   ");
        push_decimal(&mut s, self.iterations);
        s
    }
}

/// A move and the cube that it produced.
#[derive(Debug, Clone, Copy)]
pub struct RotationPosition {
    pub rot: Item,
    pub position: Sides,
}

/// How many times each pruning rule of the search cut a branch
/// (`repeated_in_path` counts a rule that the search does not apply).
#[derive(Debug, Clone, Copy)]
pub struct PunningStats {
    pub depth_less_found: u64,
    pub punning_3_consecutives: u64,
    pub repeated_in_path: u64,
    pub direction_higher_level: u64,
    pub inverse_move: u64,
}

/// Statistics with every count at zero.
pub fn empty_punning_stats() -> (res: PunningStats)
    ensures
        res.depth_less_found == 0,
        res.punning_3_consecutives == 0,
        res.repeated_in_path == 0,
        res.direction_higher_level == 0,
        res.inverse_move == 0,
{
    PunningStats {
        depth_less_found: 0,
        punning_3_consecutives: 0,
        repeated_in_path: 0,
        direction_higher_level: 0,
        inverse_move: 0,
    }
}

/// The state of a search.
#[derive(Debug, Clone)]
pub struct Status {
    pub depth: u8,
    pub max_depth: u8,
    pub iterations: u64,
    pub best_found: Option<Found>,
    pub current_path: Vec<RotationPosition>,
    pub best_solution: Vec<RotationPosition>,
    pub punning_stats: PunningStats,
}

/// The cube before step `i` of `path`, which starts from `start`.
pub open spec fn state_before(
    start: Seq<Seq<Seq<u8>>>,
    path: Seq<RotationPosition>,
    i: int,
) -> Seq<Seq<Seq<u8>>> {
    if i == 0 {
        start
    } else {
        path[i - 1].position@
    }
}

/// Each step of `path` is a valid move, and its position is the cube that
/// the move makes of the cube before it, starting from `start`.
pub open spec fn replays(start: Seq<Seq<Seq<u8>>>, path: Seq<RotationPosition>) -> bool {
    forall|i: int|
        0 <= i < path.len() ==> valid_move(#[trigger] path[i].rot) && path[i].position@
            == apply_move(state_before(start, path, i), path[i].rot)
}

/// The cube at the end of `path`, which starts from `start`.
pub open spec fn final_state(
    start: Seq<Seq<Seq<u8>>>,
    path: Seq<RotationPosition>,
) -> Seq<Seq<Seq<u8>>> {
    state_before(start, path, path.len() as int)
}

/// What the search reports is true: a reported solution has as many moves
/// as its depth, no more than the maximal depth, and takes `start` to `end`;
/// with no solution reported, the stored solution is empty.
pub open spec fn solution_sound(
    s: Status,
    start: Seq<Seq<Seq<u8>>>,
    end: Seq<Seq<Seq<u8>>>,
) -> bool {
    match s.best_found {
        Some(b) => {
            &&& b.depth == s.best_solution@.len()
            &&& b.depth <= s.max_depth
            &&& replays(start, s.best_solution@)
            &&& final_state(start, s.best_solution@) == end
        },
        None => s.best_solution@.len() == 0,
    }
}

/// The text of the state of a search.
pub open spec fn status_text(s: Status) -> Seq<char> {
    let head = match s.best_found {
        Some(b) => "---------\nbest_found:  "@ + found_text(b) + "\n------------\n"@,
        None => "NOT FOUND\n"@,
    };
    head + "current depth:  "@ + decimal(s.depth as nat) + "\n"@ + "iterations:     "@ + decimal(
        s.iterations as nat,
    ) + "\n"@ + "max_depth:      "@ + decimal(s.max_depth as nat) + "\n"@
}

/// `after` is `before` one step down the search tree with `rp`: one level
/// deeper, `rp` appended to the path, one more move counted (the counter
/// wraps around), everything else kept.
pub open spec fn stepped_down(before: Status, after: Status, rp: RotationPosition) -> bool {
    &&& after.depth == before.depth + 1
    &&& after.iterations == (before.iterations + 1) % 0x1_0000_0000_0000_0000
    &&& after.current_path@ == before.current_path@.push(rp)
    &&& after.max_depth == before.max_depth
    &&& after.best_found == before.best_found
    &&& after.best_solution@ == before.best_solution@
    &&& after.punning_stats == before.punning_stats
}

/// `after` is `before` one step up the search tree: one level higher, the
/// last step (if any) removed from the path, everything else kept.
pub open spec fn stepped_up(before: Status, after: Status) -> bool {
    &&& after.depth == before.depth - 1
    &&& after.iterations == before.iterations
    &&& after.current_path@ == if before.current_path@.len() > 0 {
        before.current_path@.drop_last()
    } else {
        before.current_path@
    }
    &&& after.max_depth == before.max_depth
    &&& after.best_found == before.best_found
    &&& after.best_solution@ == before.best_solution@
    &&& after.punning_stats == before.punning_stats
}

/// A step down the search tree followed by a step up gives back the status,
/// but for one more move counted.
pub proof fn law_push_then_pop(a: Status, b: Status, c: Status, rp: RotationPosition)
    requires
        stepped_down(a, b, rp),
        stepped_up(b, c),
    ensures
        c.depth == a.depth,
        c.current_path@ == a.current_path@,
        c.iterations == (a.iterations + 1) % 0x1_0000_0000_0000_0000,
        a.iterations + 1 < 0x1_0000_0000_0000_0000 ==> c.iterations == a.iterations + 1,
        c.max_depth == a.max_depth,
        c.best_found == a.best_found,
        c.best_solution@ == a.best_solution@,
        c.punning_stats == a.punning_stats,
{
    assert(a.current_path@.push(rp).drop_last() =~= a.current_path@);
}

/// A line of text: `label`, then `n` in decimal.
pub open spec fn labelled_line(label: Seq<char>, n: nat) -> Seq<char> {
    label + decimal(n) + "\n"@
}

/// The text of a search state names each of its counters: a line for the
/// current depth, then one for the number of moves tried, then one for the
/// maximal depth, each label followed by that field's value. Before them
/// comes `NOT FOUND` when no solution is reported, or a framed block that
/// gives the reported solution's depth and then the number of moves tried
/// when it was found.
pub proof fn law_status_text_names_fields(s: Status)
    ensures
        ({
            let counters = labelled_line("current depth:  "@, s.depth as nat) + labelled_line(
                "iterations:     "@,
                s.iterations as nat,
            ) + labelled_line("max_depth:      "@, s.max_depth as nat);
            &&& s.best_found is None ==> status_text(s) == "NOT FOUND\n"@ + counters
            &&& s.best_found matches Some(b) ==> status_text(s) == "---------\nbest_found:  "@
                + labelled_line("found.depth:  "@, b.depth as nat) + "found.iter:   "@ + decimal(
                b.iterations as nat,
            ) + "\n------------\n"@ + counters
        }),
{
    let counters = labelled_line("current depth:  "@, s.depth as nat) + labelled_line(
        "iterations:     "@,
        s.iterations as nat,
    ) + labelled_line("max_depth:      "@, s.max_depth as nat);
    match s.best_found {
        Some(b) => {
            assert(status_text(s) =~= "---------\nbest_found:  "@ + labelled_line(
                "found.depth:  "@,
                b.depth as nat,
            ) + "found.iter:   "@ + decimal(b.iterations as nat) + "\n------------\n"@
                + counters);
        },
        None => {
            assert(status_text(s) =~= "NOT FOUND\n"@ + counters);
        },
    }
}

impl Status {
    /// Steps down the search tree with `rot_pos`.
    fn push(&mut self, rot_pos: &RotationPosition) -> (res: &mut Status)
        requires
            old(self).depth < 255,
        ensures
            stepped_down(*old(self), *res, *rot_pos),
            *final(self) == *final(res),
    {
        self.iterations = self.iterations.wrapping_add(1);
        self.depth += 1;
        self.current_path.push(*rot_pos);
        self
    }

    /// Steps back up the search tree.
    fn pop(&mut self) -> (res: &mut Status)
        requires
            old(self).depth > 0,
        ensures
            stepped_up(*old(self), *res),
            *final(self) == *final(res),
    {
        self.current_path.pop();
        self.depth -= 1;
        self
    }

    /// The text of the state (see `status_text`).
    pub fn to_string(&self) -> (res: String)
        ensures
            res@ == status_text(*self),
    {
        let mut s = String::new();
        match self.best_found {
            Some(best_found) => {
                s.append("---------\nbest_found:  ");
                let f = best_found.to_string();
                s.append(f.as_str());
                s.append("\n------------\n");
            },
            None => {
                s.append("NOT FOUND\n");
            },
        }
        s.append("current depth:  ");
        push_decimal(&mut s, self.depth as u64);
        s.append("\n");
        s.append("iterations:     ");
        push_decimal(&mut s, self.iterations);
        s.append("\n");
        s.append("max_depth:      ");
        push_decimal(&mut s, self.max_depth as u64);
        s.append("\n");
        assert(s@ =~= status_text(*self));
        s
    }
}

/// No pruning rule has cut a branch.
pub open spec fn no_cuts(p: PunningStats) -> bool {
    &&& p.depth_less_found == 0
    &&& p.punning_3_consecutives == 0
    &&& p.repeated_in_path == 0
    &&& p.direction_higher_level == 0
    &&& p.inverse_move == 0
}

/// The state of a new search: at the root, nothing tried, nothing found.
fn new_status(max_depth: u8) -> (res: Status)
    ensures
        res.depth == 0,
        res.max_depth == max_depth,
        res.iterations == 0,
        res.best_found.is_none(),
        res.current_path@.len() == 0,
        res.best_solution@.len() == 0,
        no_cuts(res.punning_stats),
{
    Status {
        depth: 0,
        max_depth: max_depth,
        iterations: 0,
        best_found: None,
        current_path: Vec::new(),
        best_solution: Vec::new(),
        punning_stats: empty_punning_stats(),
    }
}

/// Searches for a shortest sequence of at most `max_depth` moves that takes
/// `origin` to `end`, depth first, trying at each step the horizontal,
/// vertical and front layers in both senses. The reported solution, if any,
/// takes `origin` to `end`, and no sequence of valid moves within
/// `max_depth` that does so is shorter; a solution is reported whenever one
/// exists within `max_depth`.
pub fn explore(origin: &Sides, end: &Sides, max_depth: u8) -> (res: Box<Status>)
    ensures
        res.depth == 0,
        res.max_depth == max_depth,
        res.current_path@.len() == 0,
        solution_sound(*res, origin@, end@),
        origin@ == end@ ==> res.best_found == Some(Found { depth: 0, iterations: 0 }),
        origin@ != end@ && max_depth == 0 ==> res.best_found.is_none(),
        forall|s: Seq<Item>|
            valid_moves(s) && s.len() <= max_depth && #[trigger] apply_moves(origin@, s) == end@
                ==> found_within(res.best_found, s.len() as int),
        res.best_found is Some ==> valid_moves(path_moves(res.best_solution@)) && apply_moves(
            origin@,
            path_moves(res.best_solution@),
        ) == end@,
        exists|t: nat|
            t <= tree_bound(max_depth as nat) && res.iterations == #[trigger] wrapped(t as int) && (
            t < counter_range() ==> counted(*res)),
        tree_bound(max_depth as nat) < counter_range() ==> res.iterations <= tree_bound(
            max_depth as nat,
        ),
        origin@ == end@ || max_depth == 0 ==> res.iterations == 0 && no_cuts(res.punning_stats),
{
    let mut status = new_status(max_depth);
    let ghost start = status;
    let Ghost(t) = internal_explore(origin, end, &mut status, Ghost(origin@));
    proof {
        assert(t <= tree_bound(max_depth as nat) && status.iterations == wrapped(t as int));
        if tree_bound(max_depth as nat) < counter_range() {
            assert((t as int) % counter_range() == t);
        }
        assert(path_moves(start.current_path@) =~= Seq::<Item>::empty());
        lemma_sides_cube_shaped(*origin);
        assert forall|s: Seq<Item>|
            valid_moves(s) && s.len() <= max_depth && #[trigger] apply_moves(origin@, s)
                == end@ implies found_within(status.best_found, s.len() as int) by {
            let t = lemma_canonical_solution(origin@, end@, s);
            assert(apply_moves(origin@, t) == end@);
        }
        if status.best_found is Some {
            lemma_replay_moves(origin@, status.best_solution@);
        }
    }
    Box::new(status)
}

/// The invariant of the search below a node: the current path leads from
/// `root` to `origin` in `depth` steps, and what is reported is true.
pub open spec fn search_inv(
    s: Status,
    root: Seq<Seq<Seq<u8>>>,
    origin: Seq<Seq<Seq<u8>>>,
    end: Seq<Seq<Seq<u8>>>,
) -> bool {
    &&& s.depth == s.current_path@.len()
    &&& s.depth <= s.max_depth
    &&& replays(root, s.current_path@)
    &&& final_state(root, s.current_path@) == origin
    &&& solution_sound(s, root, end)
}

/// What the search below a node keeps: the node, and a reported solution,
/// which is replaced only by a strictly shorter one that extends the path to
/// the node.
pub open spec fn search_keeps(before: Status, after: Status) -> bool {
    &&& after.depth == before.depth
    &&& after.max_depth == before.max_depth
    &&& after.current_path@ == before.current_path@
    &&& (before.best_found matches Some(b) ==> (after.best_found matches Some(a) && a.depth
        <= b.depth))
    &&& (after.best_found == before.best_found ==> after.best_solution@
        == before.best_solution@)
    &&& (after.best_found != before.best_found ==> improves_on(before, after))
}

/// `after` reports a solution that is new and strictly shorter than what
/// `before` reported, and that extends the current path of `before`.
pub open spec fn improves_on(before: Status, after: Status) -> bool {
    &&& after.best_found is Some
    &&& (before.best_found matches Some(b) ==> after.best_found.unwrap().depth < b.depth)
    &&& before.current_path@.len() <= after.best_solution@.len()
    &&& after.best_solution@.take(before.current_path@.len() as int) == before.current_path@
}

/// Records the current path as the best solution.
fn update_best_solution(status: &mut Status)
    ensures
        final(status).best_found == Some(
            Found { depth: old(status).depth, iterations: old(status).iterations },
        ),
        final(status).best_solution@ == old(status).current_path@,
        final(status).depth == old(status).depth,
        final(status).max_depth == old(status).max_depth,
        final(status).iterations == old(status).iterations,
        final(status).current_path@ == old(status).current_path@,
        final(status).punning_stats == old(status).punning_stats,
{
    status.best_found = Some(Found { depth: status.depth, iterations: status.iterations });
    status.best_solution.clear();
    let mut i: usize = 0;
    while i < status.current_path.len()
        invariant
            i <= status.current_path@.len(),
            status.best_solution@ == status.current_path@.take(i as int),
            status.current_path@ == old(status).current_path@,
            status.best_found == Some(
                Found { depth: old(status).depth, iterations: old(status).iterations },
            ),
            status.depth == old(status).depth,
            status.max_depth == old(status).max_depth,
            status.iterations == old(status).iterations,
            status.punning_stats == old(status).punning_stats,
        decreases status.current_path@.len() - i,
    {
        let step = status.current_path[i];
        status.best_solution.push(step);
        i += 1;
        assert(status.best_solution@ =~= status.current_path@.take(i as int));
    }
    assert(status.current_path@.take(i as int) =~= status.current_path@);
}

/// The moves of a path.
pub open spec fn path_moves(p: Seq<RotationPosition>) -> Seq<Item> {
    p.map_values(|rp: RotationPosition| rp.rot)
}

/// A solution of at most `n` moves has been reported.
pub open spec fn found_within(b: Option<Found>, n: int) -> bool {
    b matches Some(x) && x.depth <= n
}

/// Every sequence `s` of valid moves that the search tries after the
/// current path of `before`, that fits within the maximal depth, that takes
/// `origin` to `end`, and that `starts` admits, has a solution no longer
/// than its own reported in `after`.
pub open spec fn covers(
    before: Status,
    after: Status,
    origin: Seq<Seq<Seq<u8>>>,
    end: Seq<Seq<Seq<u8>>>,
    starts: spec_fn(Seq<Item>) -> bool,
) -> bool {
    forall|s: Seq<Item>|
        valid_moves(s) && canonical_after(path_moves(before.current_path@), s) && before.depth
            + s.len() <= before.max_depth && #[trigger] apply_moves(origin, s) == end && starts(s)
            ==> found_within(after.best_found, before.depth + s.len())
}

/// Replaying the moves of a path from its start reaches its end.
pub proof fn lemma_replay_moves(start: Seq<Seq<Seq<u8>>>, p: Seq<RotationPosition>)
    requires
        replays(start, p),
    ensures
        valid_moves(path_moves(p)),
        apply_moves(start, path_moves(p)) == final_state(start, p),
    decreases p.len(),
{
    if p.len() > 0 {
        let q = p.drop_last();
        assert forall|i: int| 0 <= i < q.len() implies valid_move(#[trigger] q[i].rot)
            && q[i].position@ == apply_move(state_before(start, q, i), q[i].rot) by {
            assert(q[i] == p[i]);
            if i > 0 {
                assert(q[i - 1] == p[i - 1]);
            }
        }
        lemma_replay_moves(start, q);
        assert(path_moves(p) =~= path_moves(q).push(p.last().rot));
        lemma_apply_moves_push(start, path_moves(q), p.last().rot);
        assert(p[p.len() - 1] == p.last());
        if q.len() > 0 {
            assert(q.last() == p[p.len() - 2]);
        }
    } else {
        assert(path_moves(p) =~= Seq::<Item>::empty());
    }
}

/// The steps of a path after its first `d` replay from the cube reached
/// after those `d`, to the same end.
proof fn lemma_replay_suffix(root: Seq<Seq<Seq<u8>>>, full: Seq<RotationPosition>, d: int)
    requires
        replays(root, full),
        0 <= d <= full.len(),
    ensures
        state_before(root, full, d) == final_state(root, full.take(d)),
        replays(state_before(root, full, d), full.skip(d)),
        final_state(state_before(root, full, d), full.skip(d)) == final_state(root, full),
{
    let o = state_before(root, full, d);
    let q = full.skip(d);
    assert forall|i: int| 0 <= i < q.len() implies valid_move(#[trigger] q[i].rot)
        && q[i].position@ == apply_move(state_before(o, q, i), q[i].rot) by {
        assert(q[i] == full[d + i]);
        if i > 0 {
            assert(q[i - 1] == full[d + i - 1]);
        }
    }
    if d > 0 {
        assert(full.take(d)[d - 1] == full[d - 1]);
    }
    if q.len() > 0 {
        assert(q[q.len() - 1] == full[full.len() - 1]);
    }
}

/// What the search keeps from `a` to `b` and from `b` to `c`, it keeps from
/// `a` to `c`.
proof fn lemma_keeps_trans(a: Status, b: Status, c: Status)
    requires
        search_keeps(a, b),
        search_keeps(b, c),
    ensures
        search_keeps(a, c),
{
}

/// A reported solution stays reported, no longer, when the search goes on.
proof fn lemma_covers_kept(
    before: Status,
    mid: Status,
    after: Status,
    origin: Seq<Seq<Seq<u8>>>,
    end: Seq<Seq<Seq<u8>>>,
    starts: spec_fn(Seq<Item>) -> bool,
)
    requires
        covers(before, mid, origin, end, starts),
        search_keeps(mid, after),
    ensures
        covers(before, after, origin, end, starts),
{
}

/// Sequences whose first move turns around axis `o` in sense `d`.
pub open spec fn starting_with(o: Orient, d: Dir) -> spec_fn(Seq<Item>) -> bool {
    |s: Seq<Item>| s.len() > 0 && s[0].0 == o && s[0].1 == d
}

/// The number of values that the move counter `iterations` takes: it wraps
/// around to 0 there.
pub open spec fn counter_range() -> int {
    0x1_0000_0000_0000_0000
}

/// The counter value after `t` moves counted from 0.
pub open spec fn wrapped(t: int) -> int {
    t % counter_range()
}

/// The number of moves tried below a node with `d` levels left when no move
/// is cut: every node has `6 * SIZE` moves (three axes, two senses, `SIZE`
/// layers), so this is `6·SIZE + (6·SIZE)^2 + ... + (6·SIZE)^d`.
pub open spec fn tree_bound(d: nat) -> nat
    decreases d,
{
    if d == 0 {
        0
    } else {
        (6 * SIZE) as nat * (1 + tree_bound((d - 1) as nat))
    }
}

/// A reported solution was found after no more tried moves than counted now.
pub open spec fn counted(s: Status) -> bool {
    s.best_found matches Some(b) ==> b.iterations <= s.iterations
}

/// Adding to the counter in two steps wraps it as adding in one.
proof fn lemma_wrap_add(a: int, b: int, c: int)
    requires
        0 <= a,
        0 <= b,
        0 <= c,
    ensures
        ((a + b) % counter_range() + c) % counter_range() == (a + b + c) % counter_range(),
{
    vstd::arithmetic::div_mod::lemma_add_mod_noop(a + b, c, counter_range());
    vstd::arithmetic::div_mod::lemma_mod_twice(a + b, counter_range());
    vstd::arithmetic::div_mod::lemma_add_mod_noop((a + b) % counter_range(), c, counter_range());
}

/// A solution at the current depth would be shorter than the one reported
/// (or none is reported yet).
pub open spec fn beats_best(s: Status) -> bool {
    match s.best_found {
        Some(b) => s.depth < b.depth,
        None => true,
    }
}

/// Levels left below the current node.
pub open spec fn levels_left(s: Status) -> nat {
    (s.max_depth - s.depth) as nat
}

/// What the search below node `origin` does to the count of moves tried,
/// the statistics and the reported solution, `tried` being the number of
/// moves it tried:
/// - it tries at most `tree_bound` of the levels left, and the counter
///   grows by that number (wrapping around);
/// - where the counter did not wrap, a reported solution stays found after
///   no more moves than counted;
/// - at a solved node it tries nothing and records the current path as the
///   solution exactly when it is shorter than the one reported;
/// - at an unsolved node with no level left it changes nothing.
pub open spec fn node_searched(
    before: Status,
    after: Status,
    origin: Seq<Seq<Seq<u8>>>,
    end: Seq<Seq<Seq<u8>>>,
    tried: nat,
) -> bool {
    &&& tried <= tree_bound(levels_left(before))
    &&& after.iterations == (before.iterations + tried) % counter_range()
    &&& (counted(before) && before.iterations + tried < counter_range() ==> counted(after))
    &&& (origin == end ==> after.iterations == before.iterations && after.punning_stats
        == before.punning_stats)
    &&& (origin == end && beats_best(before) ==> after.best_found == Some(
        Found { depth: before.depth, iterations: before.iterations },
    ) && after.best_solution@ == before.current_path@)
    &&& (origin == end && !beats_best(before) ==> after.best_found == before.best_found
        && after.best_solution@ == before.best_solution@)
    &&& (origin != end && before.depth == before.max_depth ==> after.iterations
        == before.iterations && after.best_found == before.best_found && after.best_solution@
        == before.best_solution@ && after.punning_stats == before.punning_stats)
}

/// Searches below the node `origin`, which the current path reached from
/// `root`.
fn internal_explore(
    origin: &Sides,
    end: &Sides,
    status: &mut Status,
    Ghost(root): Ghost<Seq<Seq<Seq<u8>>>>,
) -> (tried: Ghost<nat>)
    requires
        search_inv(*old(status), root, origin@, end@),
    ensures
        search_inv(*final(status), root, origin@, end@),
        search_keeps(*old(status), *final(status)),
        covers(*old(status), *final(status), origin@, end@, |s: Seq<Item>| true),
        final(status).best_found != old(status).best_found ==> replays(
            origin@,
            final(status).best_solution@.skip(old(status).depth as int),
        ) && final_state(origin@, final(status).best_solution@.skip(old(status).depth as int))
            == end@,
        node_searched(*old(status), *final(status), origin@, end@, tried@),
    decreases old(status).max_depth - old(status).depth, 3nat,
{
    let ghost start = *status;
    let res = internal_explore_steps(origin, end, status, Ghost(root));
    proof {
        if status.best_found != start.best_found {
            let full = status.best_solution@;
            let d = start.depth as int;
            lemma_replay_suffix(root, full, d);
            assert(full.take(d) == start.current_path@);
        }
    }
    res
}

/// The search below the node `origin` (see `internal_explore`).
#[verifier::rlimit(60)]
fn internal_explore_steps(
    origin: &Sides,
    end: &Sides,
    status: &mut Status,
    Ghost(root): Ghost<Seq<Seq<Seq<u8>>>>,
) -> (tried: Ghost<nat>)
    requires
        search_inv(*old(status), root, origin@, end@),
    ensures
        search_inv(*final(status), root, origin@, end@),
        search_keeps(*old(status), *final(status)),
        covers(*old(status), *final(status), origin@, end@, |s: Seq<Item>| true),
        node_searched(*old(status), *final(status), origin@, end@, tried@),
    decreases old(status).max_depth - old(status).depth, 2nat,
{
    let ghost start = *status;
    if equivalent_end(origin, end) {
        let improves = match status.best_found {
            Some(prev_best_found) => status.depth < prev_best_found.depth,
            None => true,
        };
        if improves {
            update_best_solution(status);
            assert(status.best_solution@.take(start.current_path@.len() as int)
                =~= start.current_path@);
        }
        assert(found_within(status.best_found, start.depth as int));
        assert(status.iterations == (start.iterations + 0) % counter_range());
        Ghost(0)
    } else {
        if status.depth < status.max_depth {
            let Ghost(t1) = iterate_orient_dir(
                origin,
                end,
                status,
                Orient::Horizontal,
                Dir::Plus,
                Ghost(root),
            );
            let ghost s1 = *status;
            let Ghost(t2) = iterate_orient_dir(
                origin,
                end,
                status,
                Orient::Horizontal,
                Dir::Minus,
                Ghost(root),
            );
            let ghost s2 = *status;
            let Ghost(t3) = iterate_orient_dir(
                origin,
                end,
                status,
                Orient::Vertical,
                Dir::Plus,
                Ghost(root),
            );
            let ghost s3 = *status;
            let Ghost(t4) = iterate_orient_dir(
                origin,
                end,
                status,
                Orient::Vertical,
                Dir::Minus,
                Ghost(root),
            );
            let ghost s4 = *status;
            let Ghost(t5) = iterate_orient_dir(
                origin,
                end,
                status,
                Orient::Front,
                Dir::Plus,
                Ghost(root),
            );
            let ghost s5 = *status;
            let Ghost(t6) = iterate_orient_dir(
                origin,
                end,
                status,
                Orient::Front,
                Dir::Minus,
                Ghost(root),
            );
            proof {
                let k = 1 + tree_bound((start.max_depth - start.depth - 1) as nat);
                assert(tree_bound((start.max_depth - start.depth) as nat) == 6 * SIZE * k);
                lemma_wrap_add(start.iterations as int, t1 as int, t2 as int);
                lemma_wrap_add(start.iterations as int, (t1 + t2) as int, t3 as int);
                lemma_wrap_add(start.iterations as int, (t1 + t2 + t3) as int, t4 as int);
                lemma_wrap_add(start.iterations as int, (t1 + t2 + t3 + t4) as int, t5 as int);
                lemma_wrap_add(start.iterations as int, (t1 + t2 + t3 + t4 + t5) as int, t6 as int);
                lemma_keeps_trans(start, s1, s2);
                lemma_keeps_trans(start, s2, s3);
                lemma_keeps_trans(start, s3, s4);
                lemma_keeps_trans(start, s4, s5);
                lemma_keeps_trans(start, s5, *status);
                let hp = starting_with(Orient::Horizontal, Dir::Plus);
                let hm = starting_with(Orient::Horizontal, Dir::Minus);
                let vp = starting_with(Orient::Vertical, Dir::Plus);
                let vm = starting_with(Orient::Vertical, Dir::Minus);
                let fp = starting_with(Orient::Front, Dir::Plus);
                lemma_covers_kept(start, s1, s2, origin@, end@, hp);
                lemma_covers_kept(start, s2, s3, origin@, end@, hp);
                lemma_covers_kept(start, s3, s4, origin@, end@, hp);
                lemma_covers_kept(start, s4, s5, origin@, end@, hp);
                lemma_covers_kept(start, s5, *status, origin@, end@, hp);
                lemma_covers_kept(start, s2, s3, origin@, end@, hm);
                lemma_covers_kept(start, s3, s4, origin@, end@, hm);
                lemma_covers_kept(start, s4, s5, origin@, end@, hm);
                lemma_covers_kept(start, s5, *status, origin@, end@, hm);
                lemma_covers_kept(start, s3, s4, origin@, end@, vp);
                lemma_covers_kept(start, s4, s5, origin@, end@, vp);
                lemma_covers_kept(start, s5, *status, origin@, end@, vp);
                lemma_covers_kept(start, s4, s5, origin@, end@, vm);
                lemma_covers_kept(start, s5, *status, origin@, end@, vm);
                lemma_covers_kept(start, s5, *status, origin@, end@, fp);
                assert forall|s: Seq<Item>|
                    valid_moves(s) && canonical_after(path_moves(start.current_path@), s)
                        && start.depth + s.len() <= start.max_depth && #[trigger] apply_moves(
                        origin@,
                        s,
                    ) == end@ implies found_within(
                    status.best_found,
                    start.depth + s.len(),
                ) by {
                    if s.len() == 0 {
                        assert(apply_moves(origin@, s) == origin@);
                    } else if s[0].0 == Orient::Horizontal && s[0].1 == Dir::Plus {
                        assert(hp(s));
                    } else if s[0].0 == Orient::Horizontal {
                        assert(hm(s));
                    } else if s[0].0 == Orient::Vertical && s[0].1 == Dir::Plus {
                        assert(vp(s));
                    } else if s[0].0 == Orient::Vertical {
                        assert(vm(s));
                    } else if s[0].1 == Dir::Plus {
                        assert(fp(s));
                    } else {
                        assert(starting_with(Orient::Front, Dir::Minus)(s));
                    }
                }
            }
            Ghost(t1 + t2 + t3 + t4 + t5 + t6)
        } else {
            assert forall|s: Seq<Item>|
                valid_moves(s) && canonical_after(path_moves(start.current_path@), s)
                    && start.depth + s.len() <= start.max_depth && #[trigger] apply_moves(
                    origin@,
                    s,
                ) == end@ implies found_within(status.best_found, start.depth + s.len()) by {
                assert(s.len() == 0);
                assert(apply_moves(origin@, s) == origin@);
            }
            assert(status.iterations == (start.iterations + 0) % counter_range());
            Ghost(0)
        }
    }
}

/// Tries the moves of every layer of one axis in one sense from the node
/// `origin`, searching below each move that the pruning rules keep.
fn iterate_orient_dir(
    origin: &Sides,
    end: &Sides,
    status: &mut Status,
    orientation: Orient,
    direction: Dir,
    Ghost(root): Ghost<Seq<Seq<Seq<u8>>>>,
) -> (tried: Ghost<nat>)
    requires
        search_inv(*old(status), root, origin@, end@),
        old(status).depth < old(status).max_depth,
    ensures
        search_inv(*final(status), root, origin@, end@),
        search_keeps(*old(status), *final(status)),
        covers(*old(status), *final(status), origin@, end@, starting_with(orientation, direction)),
        tried@ <= SIZE * (1 + tree_bound((old(status).max_depth - old(status).depth - 1) as nat)),
        final(status).iterations == (old(status).iterations + tried@) % counter_range(),
        counted(*old(status)) && old(status).iterations + tried@ < counter_range() ==> counted(
            *final(status),
        ),
    decreases old(status).max_depth - old(status).depth, 1nat,
{
    let ghost start = *status;
    let ghost k: nat = 1 + tree_bound((start.max_depth - start.depth - 1) as nat);
    let ghost mut so_far: nat = 0;
    let mut i: usize = 0;
    while i < SIZE
        invariant
            i <= SIZE,
            k == 1 + tree_bound((start.max_depth - start.depth - 1) as nat),
            so_far <= i * k,
            status.iterations == (start.iterations + so_far) % counter_range(),
            counted(start) && start.iterations + so_far < counter_range() ==> counted(*status),
            start.depth == old(status).depth,
            start.max_depth == old(status).max_depth,
            search_inv(*status, root, origin@, end@),
            search_keeps(start, *status),
            status.depth < status.max_depth,
            covers(
                start,
                *status,
                origin@,
                end@,
                |s: Seq<Item>|
                    s.len() > 0 && s[0].0 == orientation && s[0].1 == direction && s[0].2 < i,
            ),
        ensures
            search_inv(*status, root, origin@, end@),
            search_keeps(start, *status),
            covers(
                start,
                *status,
                origin@,
                end@,
                |s: Seq<Item>|
                    s.len() > 0 && s[0].0 == orientation && s[0].1 == direction && s[0].2 < i,
            ),
            i >= SIZE || found_within(status.best_found, status.depth as int),
            i <= SIZE,
            so_far <= i * k,
            status.iterations == (start.iterations + so_far) % counter_range(),
            counted(start) && start.iterations + so_far < counter_range() ==> counted(*status),
        decreases SIZE - i,
    {
        let ghost before = *status;
        let next_move = Item(orientation, direction, i);
        let mut stats = status.punning_stats;
        let cut = before_move::depth_bigger_or_equal_best_sol(status, &mut stats);
        status.punning_stats = stats;
        if cut {
            break;
        }
        let mut stats = status.punning_stats;
        let skip = before_move::inverse_move(&next_move, status, &mut stats)
            || before_move::three_consecutive_moves(&next_move, status, &mut stats)
            || before_move::same_direction_higher_level(&next_move, status, &mut stats);
        status.punning_stats = stats;
        proof {
            let p = path_moves(status.current_path@);
            if p.len() > 0 {
                assert(p.last() == status.current_path@.last().rot);
            }
            if p.len() >= 2 {
                assert(p[p.len() - 2] == status.current_path@[p.len() - 2].rot);
            }
            assert(skip == pruned(p, next_move));
        }
        let ghost mid = *status;
        let ghost mut t: nat = 0;
        proof {
            assert(i * k + k <= SIZE * k) by (nonlinear_arith)
                requires
                    i < SIZE,
            ;
            if start.iterations + so_far < counter_range() {
                assert(status.iterations == start.iterations + so_far);
            }
        }
        if !skip {
            let Ghost(tm) = explore_move(origin, end, status, next_move, Ghost(root));
            proof {
                t = tm;
            }
        }
        proof {
            lemma_wrap_add(start.iterations as int, so_far as int, t as int);
            assert((i + 1) * k == i * k + k) by (nonlinear_arith);
            so_far = so_far + t;
            let old_starts = |s: Seq<Item>|
                s.len() > 0 && s[0].0 == orientation && s[0].1 == direction && s[0].2 < i;
            lemma_covers_kept(start, before, *status, origin@, end@, old_starts);
            assert forall|s: Seq<Item>|
                valid_moves(s) && canonical_after(path_moves(start.current_path@), s) && start.depth
                    + s.len() <= start.max_depth && #[trigger] apply_moves(origin@, s) == end@ && (
                s.len() > 0 && s[0].0 == orientation && s[0].1 == direction && s[0].2 < i + 1)
                implies found_within(status.best_found, start.depth + s.len()) by {
                if s[0].2 < i {
                    assert(old_starts(s));
                } else {
                    assert(s[0] == next_move);
                    if skip {
                        assert(path_moves(start.current_path@) + s.take(0) =~= path_moves(
                            start.current_path@,
                        ));
                    }
                }
            }
        }
        i += 1;
    }
    proof {
        assert(i * k <= SIZE * k) by (nonlinear_arith)
            requires
                i <= SIZE,
        ;
    }
    Ghost(so_far)
}

/// Applies `next_move` to `origin` and searches below the resulting node.
fn explore_move(
    origin: &Sides,
    end: &Sides,
    status: &mut Status,
    next_move: Item,
    Ghost(root): Ghost<Seq<Seq<Seq<u8>>>>,
) -> (tried: Ghost<nat>)
    requires
        search_inv(*old(status), root, origin@, end@),
        old(status).depth < old(status).max_depth,
        valid_move(next_move),
    ensures
        search_inv(*final(status), root, origin@, end@),
        search_keeps(*old(status), *final(status)),
        tried@ <= 1 + tree_bound((old(status).max_depth - old(status).depth - 1) as nat),
        final(status).iterations == (old(status).iterations + tried@) % counter_range(),
        counted(*old(status)) && old(status).iterations + tried@ < counter_range() ==> counted(
            *final(status),
        ),
        covers(
            *old(status),
            *final(status),
            origin@,
            end@,
            |s: Seq<Item>| s.len() > 0 && s[0] == next_move,
        ),
    decreases old(status).max_depth - old(status).depth, 0nat,
{
    let next = origin.get_rotation(&next_move);
    let rot_pos = RotationPosition { rot: next_move, position: next };
    let ghost before = *status;
    proof {
        let p = before.current_path@.push(rot_pos);
        assert forall|k: int| 0 <= k < p.len() implies valid_move(#[trigger] p[k].rot)
            && p[k].position@ == apply_move(state_before(root, p, k), p[k].rot) by {
            if k < before.current_path@.len() {
                assert(p[k] == before.current_path@[k]);
                if k > 0 {
                    assert(p[k - 1] == before.current_path@[k - 1]);
                }
            }
        }
    }
    let Ghost(tc) = internal_explore(&next, end, status.push(&rot_pos), Ghost(root));
    let ghost child = *status;
    match status.best_found {
        Some(located_best_found) => status.best_found = get_better(
            status.best_found,
            &located_best_found,
        ),
        None => (),
    };
    status.pop();
    assert(status.current_path@ =~= before.current_path@);
    proof {
        if status.best_found != before.best_found {
            let bs = status.best_solution@;
            let d = before.current_path@.len() as int;
            assert(bs.take(d) =~= bs.take(d + 1).take(d));
            assert(before.current_path@.push(rot_pos).take(d) =~= before.current_path@);
        }
        let pm = path_moves(before.current_path@);
        assert(path_moves(before.current_path@.push(rot_pos)) =~= pm.push(next_move));
        assert forall|s: Seq<Item>|
            valid_moves(s) && canonical_after(pm, s) && before.depth + s.len() <= before.max_depth
                && #[trigger] apply_moves(origin@, s) == end@ && (s.len() > 0 && s[0] == next_move)
                implies found_within(status.best_found, before.depth + s.len()) by {
            let t = s.drop_first();
            assert forall|j: int| 0 <= j < t.len() implies !pruned(
                pm.push(next_move) + t.take(j),
                #[trigger] t[j],
            ) by {
                assert(pm.push(next_move) + t.take(j) =~= pm + s.take(j + 1));
                assert(t[j] == s[j + 1]);
            }
            assert(valid_moves(t));
            assert(apply_moves(next@, t) == end@);
        }
        lemma_wrap_add(before.iterations as int, 1, tc as int);
        assert(before.iterations + 1 < counter_range() ==> (before.iterations + 1)
            % counter_range() == before.iterations + 1);
    }
    Ghost(1 + tc)
}

} // verus!
