use rubiks_solver::cube::rot::{process, Dir, Item, Orient};
use rubiks_solver::cube::{create, equivalent_end, Sides};
use rubiks_solver::side::color;
use rubiks_solver::tree::opts::before_move::{
    depth_bigger_or_equal_best_sol, inverse_move, same_direction_higher_level,
    three_consecutive_moves,
};
use rubiks_solver::tree::{
    empty_punning_stats, explore, get_better, Found, RotationPosition, Status,
};

fn standard_cube() -> Sides {
    create(&color(0), &color(1), &color(2), &color(3), &color(4), &color(5))
}

fn replay(origin: &Sides, path: &[RotationPosition]) -> Sides {
    let mut cube = *origin;
    for step in path {
        cube = process(&cube, &step.rot);
        assert_eq!(cube, step.position);
    }
    cube
}

#[test]
fn get_better_keeps_fewer_iterations() {
    let a = Found { depth: 3, iterations: 10 };
    let b = Found { depth: 2, iterations: 20 };
    let r = get_better(Some(a), &b).unwrap();
    assert_eq!((r.depth, r.iterations), (3, 10));
    let r = get_better(Some(b), &a).unwrap();
    assert_eq!((r.depth, r.iterations), (3, 10));
    let r = get_better(None, &b).unwrap();
    assert_eq!((r.depth, r.iterations), (2, 20));
    let tie = Found { depth: 5, iterations: 10 };
    let r = get_better(Some(a), &tie).unwrap();
    assert_eq!((r.depth, r.iterations), (5, 10));
}

#[test]
fn empty_stats_are_zero() {
    let s = empty_punning_stats();
    assert_eq!(
        (s.depth_less_found, s.punning_3_consecutives, s.repeated_in_path, s.direction_higher_level, s.inverse_move),
        (0, 0, 0, 0, 0)
    );
}

#[test]
fn solved_at_the_root() {
    let cube = standard_cube();
    let status = explore(&cube, &cube, 3);
    let found = status.best_found.unwrap();
    assert_eq!((found.depth, found.iterations), (0, 0));
    assert!(status.best_solution.is_empty());
    assert_eq!(status.depth, 0);
    assert_eq!(status.max_depth, 3);
}

#[test]
fn nothing_found_without_moves() {
    let cube = standard_cube();
    let end = process(&cube, &Item(Orient::Front, Dir::Plus, 0));
    let status = explore(&cube, &end, 0);
    assert!(status.best_found.is_none());
    assert!(status.best_solution.is_empty());
    assert_eq!(status.iterations, 0);
}

#[test]
fn finds_one_move() {
    let cube = standard_cube();
    let end = process(&cube, &Item(Orient::Vertical, Dir::Minus, 2));
    let status = explore(&cube, &end, 1);
    let found = status.best_found.unwrap();
    assert_eq!(found.depth, 1);
    assert_eq!(status.best_solution.len(), 1);
    assert!(equivalent_end(&replay(&cube, &status.best_solution), &end));
    assert_eq!(status.best_solution[0].rot, Item(Orient::Vertical, Dir::Minus, 2));
}

#[test]
fn finds_two_moves() {
    let cube = standard_cube();
    let mid = process(&cube, &Item(Orient::Horizontal, Dir::Plus, 1));
    let end = process(&mid, &Item(Orient::Front, Dir::Minus, 0));
    let status = explore(&cube, &end, 2);
    let found = status.best_found.unwrap();
    assert_eq!(found.depth as usize, status.best_solution.len());
    assert!(found.depth <= 2);
    assert!(equivalent_end(&replay(&cube, &status.best_solution), &end));
    assert!(status.iterations > 0);
}

#[test]
fn status_text() {
    let cube = standard_cube();
    let status = explore(&cube, &cube, 3);
    assert_eq!(
        status.to_string(),
        "---------\nbest_found:  found.depth:  0\nfound.iter:   0\n------------\ncurrent depth:  0\niterations:     0\nmax_depth:      3\n"
    );
    let end = process(&cube, &Item(Orient::Front, Dir::Plus, 0));
    let status = explore(&cube, &end, 0);
    assert_eq!(
        status.to_string(),
        "NOT FOUND\ncurrent depth:  0\niterations:     0\nmax_depth:      0\n"
    );
    assert_eq!(
        Found { depth: 12, iterations: 3456 }.to_string(),
        "found.depth:  12\nfound.iter:   3456"
    );
}

fn status_with_path(path: &[Item], best: Option<Found>, depth: u8) -> Status {
    let cube = standard_cube();
    Status {
        depth,
        max_depth: 9,
        iterations: 0,
        best_found: best,
        current_path: path.iter().map(|m| RotationPosition { rot: *m, position: cube }).collect(),
        best_solution: Vec::new(),
        punning_stats: empty_punning_stats(),
    }
}

#[test]
fn pruning_rules() {
    let h0 = Item(Orient::Horizontal, Dir::Plus, 0);
    let h2 = Item(Orient::Horizontal, Dir::Plus, 2);
    let h0m = Item(Orient::Horizontal, Dir::Minus, 0);
    let mut stats = empty_punning_stats();

    let s = status_with_path(&[h0], None, 1);
    assert!(inverse_move(&h0m, &s, &mut stats));
    assert!(!inverse_move(&h0, &s, &mut stats));
    assert_eq!(stats.inverse_move, 1);

    let s = status_with_path(&[h0, h0], None, 2);
    assert!(three_consecutive_moves(&h0, &s, &mut stats));
    let s = status_with_path(&[h2, h0], None, 2);
    assert!(!three_consecutive_moves(&h0, &s, &mut stats));
    assert_eq!(stats.punning_3_consecutives, 1);

    let s = status_with_path(&[h2], None, 1);
    assert!(same_direction_higher_level(&h0, &s, &mut stats));
    let s = status_with_path(&[h0], None, 1);
    assert!(!same_direction_higher_level(&h2, &s, &mut stats));
    assert_eq!(stats.direction_higher_level, 1);

    let s = status_with_path(&[h0, h2], Some(Found { depth: 2, iterations: 5 }), 2);
    assert!(depth_bigger_or_equal_best_sol(&s, &mut stats));
    let s = status_with_path(&[h0], Some(Found { depth: 2, iterations: 5 }), 1);
    assert!(!depth_bigger_or_equal_best_sol(&s, &mut stats));
    let s = status_with_path(&[], None, 0);
    assert!(!depth_bigger_or_equal_best_sol(&s, &mut stats));
    assert_eq!(stats.depth_less_found, 1);
    assert_eq!(stats.repeated_in_path, 0);
}

#[test]
fn three_quarter_turns_are_found_as_one() {
    let cube = standard_cube();
    let m = Item(Orient::Front, Dir::Plus, 1);
    let end = process(&process(&process(&cube, &m), &m), &m);
    let status = explore(&cube, &end, 3);
    let found = status.best_found.unwrap();
    assert_eq!(found.depth, 1);
    assert_eq!(status.best_solution[0].rot, m.get_reverse());
    assert!(equivalent_end(&replay(&cube, &status.best_solution), &end));
}

#[test]
fn moves_out_of_order_are_found_in_order() {
    let cube = standard_cube();
    let end = process(
        &process(&cube, &Item(Orient::Horizontal, Dir::Plus, 2)),
        &Item(Orient::Horizontal, Dir::Plus, 0),
    );
    let status = explore(&cube, &end, 2);
    let found = status.best_found.unwrap();
    assert_eq!(found.depth, 2);
    assert!(equivalent_end(&replay(&cube, &status.best_solution), &end));
}

#[test]
fn a_move_and_its_reverse_need_no_move() {
    let cube = standard_cube();
    let m = Item(Orient::Vertical, Dir::Minus, 3);
    let end = process(&process(&cube, &m), &m.get_reverse());
    let status = explore(&cube, &end, 2);
    assert_eq!(status.best_found.unwrap().depth, 0);
}

#[test]
fn moves_tried_stay_within_the_tree() {
    let cube = standard_cube();
    let mid = process(&cube, &Item(Orient::Horizontal, Dir::Plus, 1));
    let end = process(&mid, &Item(Orient::Front, Dir::Minus, 0));
    let status = explore(&cube, &end, 2);
    let found = status.best_found.unwrap();
    assert!(found.iterations <= status.iterations);
    assert!(status.iterations <= 24 + 24 * 24);
    let same = explore(&cube, &cube, 2);
    assert_eq!(same.iterations, 0);
    assert_eq!(same.punning_stats.inverse_move, 0);
}
