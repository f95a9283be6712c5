use rubiks_solver::side::for_cube::{merge_col, merge_row, rotation, Dir};
use rubiks_solver::side::{color, Side};

fn numbered() -> Side {
    Side { cells: [[0, 1, 2, 3], [4, 5, 6, 7], [8, 9, 10, 11], [12, 13, 14, 15]] }
}

#[test]
fn rows_and_columns() {
    let s = numbered();
    assert_eq!(s.row(2), [8, 9, 10, 11]);
    assert_eq!(s.col(1), [1, 5, 9, 13]);
    assert_eq!(color(7).row(3), [7, 7, 7, 7]);
}

#[test]
fn merging_a_row_or_a_column() {
    let s = numbered();
    let r = merge_row(&s, 1, &[20, 21, 22, 23]);
    assert_eq!(r.cells, [[0, 1, 2, 3], [20, 21, 22, 23], [8, 9, 10, 11], [12, 13, 14, 15]]);
    let c = merge_col(&s, 3, &[30, 31, 32, 33]);
    assert_eq!(c.cells, [[0, 1, 2, 30], [4, 5, 6, 31], [8, 9, 10, 32], [12, 13, 14, 33]]);
}

#[test]
fn quarter_turns() {
    let s = numbered();
    let clock = rotation(&s, Dir::Clock);
    assert_eq!(clock.cells, [[12, 8, 4, 0], [13, 9, 5, 1], [14, 10, 6, 2], [15, 11, 7, 3]]);
    let inv = rotation(&s, Dir::InvClock);
    assert_eq!(inv.cells, [[3, 7, 11, 15], [2, 6, 10, 14], [1, 5, 9, 13], [0, 4, 8, 12]]);
    assert_eq!(rotation(&clock, Dir::InvClock), s);
}
