use vstd::prelude::*;

use crate::cube::rot::{reverse_of, Item};
use crate::tree::{PunningStats, Status};

verus! {

/// Whether the search at its current depth can no longer improve on the
/// best solution found (it is at least as deep); counts the cut.
pub fn depth_bigger_or_equal_best_sol(status: &Status, stats: &mut PunningStats) -> (res: bool)
    ensures
        res == match status.best_found {
            Some(b) => status.depth >= b.depth,
            None => false,
        },
        final(stats).depth_less_found == if res {
            (old(stats).depth_less_found + 1) % 0x1_0000_0000_0000_0000
        } else {
            old(stats).depth_less_found as int
        },
        final(stats).punning_3_consecutives == old(stats).punning_3_consecutives,
        final(stats).repeated_in_path == old(stats).repeated_in_path,
        final(stats).direction_higher_level == old(stats).direction_higher_level,
        final(stats).inverse_move == old(stats).inverse_move,
{
    let cut = match status.best_found {
        Some(b) => status.depth >= b.depth,
        None => false,
    };
    if cut {
        stats.depth_less_found = stats.depth_less_found.wrapping_add(1);
    }
    cut
}

/// Whether `next_move` undoes the last move of the current path; counts the
/// cut.
pub fn inverse_move(next_move: &Item, status: &Status, stats: &mut PunningStats) -> (res: bool)
    ensures
        res == (status.current_path@.len() > 0 && status.current_path@.last().rot == reverse_of(
            *next_move,
        )),
        final(stats).inverse_move == if res {
            (old(stats).inverse_move + 1) % 0x1_0000_0000_0000_0000
        } else {
            old(stats).inverse_move as int
        },
        final(stats).depth_less_found == old(stats).depth_less_found,
        final(stats).punning_3_consecutives == old(stats).punning_3_consecutives,
        final(stats).repeated_in_path == old(stats).repeated_in_path,
        final(stats).direction_higher_level == old(stats).direction_higher_level,
{
    let len = status.current_path.len();
    let cut = len > 0 && status.current_path[len - 1].rot == next_move.get_reverse();
    if cut {
        stats.inverse_move = stats.inverse_move.wrapping_add(1);
    }
    cut
}

/// Whether the last two moves of the current path are both `next_move`
/// (three equal quarter turns are one turn the other way); counts the cut.
pub fn three_consecutive_moves(
    next_move: &Item,
    status: &Status,
    stats: &mut PunningStats,
) -> (res: bool)
    ensures
        res == (status.current_path@.len() >= 2 && status.current_path@.last().rot == *next_move
            && status.current_path@[status.current_path@.len() - 2].rot == *next_move),
        final(stats).punning_3_consecutives == if res {
            (old(stats).punning_3_consecutives + 1) % 0x1_0000_0000_0000_0000
        } else {
            old(stats).punning_3_consecutives as int
        },
        final(stats).depth_less_found == old(stats).depth_less_found,
        final(stats).repeated_in_path == old(stats).repeated_in_path,
        final(stats).direction_higher_level == old(stats).direction_higher_level,
        final(stats).inverse_move == old(stats).inverse_move,
{
    let len = status.current_path.len();
    let cut = len >= 2 && status.current_path[len - 1].rot == *next_move
        && status.current_path[len - 2].rot == *next_move;
    if cut {
        stats.punning_3_consecutives = stats.punning_3_consecutives.wrapping_add(1);
    }
    cut
}

/// Whether the last move of the current path turns a higher layer of the
/// same axis in the same sense as `next_move` (such moves commute, so only
/// the order by increasing layer is searched); counts the cut.
pub fn same_direction_higher_level(
    next_move: &Item,
    status: &Status,
    stats: &mut PunningStats,
) -> (res: bool)
    ensures
        res == (status.current_path@.len() > 0 && status.current_path@.last().rot.0
            == next_move.0 && status.current_path@.last().rot.1 == next_move.1
            && status.current_path@.last().rot.2 > next_move.2),
        final(stats).direction_higher_level == if res {
            (old(stats).direction_higher_level + 1) % 0x1_0000_0000_0000_0000
        } else {
            old(stats).direction_higher_level as int
        },
        final(stats).depth_less_found == old(stats).depth_less_found,
        final(stats).punning_3_consecutives == old(stats).punning_3_consecutives,
        final(stats).repeated_in_path == old(stats).repeated_in_path,
        final(stats).inverse_move == old(stats).inverse_move,
{
    let len = status.current_path.len();
    let cut = if len > 0 {
        let last = status.current_path[len - 1].rot;
        last.0 == next_move.0 && last.1 == next_move.1 && last.2 > next_move.2
    } else {
        false
    };
    if cut {
        stats.direction_higher_level = stats.direction_higher_level.wrapping_add(1);
    }
    cut
}

} // verus!
