use rubiks_solver::cube::rot::{front, horizontal, process, vertical, Dir, Item, Orient};
use rubiks_solver::cube::{create, create_from_strings, equivalent_end, Sides};
use rubiks_solver::side::color;

fn standard_cube() -> Sides {
    create(&color(0), &color(1), &color(2), &color(3), &color(4), &color(5))
}

fn all_moves() -> Vec<Item> {
    let mut moves = Vec::new();
    for orient in [Orient::Horizontal, Orient::Vertical, Orient::Front] {
        for dir in [Dir::Plus, Dir::Minus] {
            for level in 0..4 {
                moves.push(Item(orient, dir, level));
            }
        }
    }
    moves
}

/// A cube whose 96 stickers are all told apart (by value modulo 256).
fn numbered_cube() -> Sides {
    let mut lines: Vec<String> = Vec::new();
    let mut n = 0u32;
    let mut digits = |k: usize| -> String {
        let mut s = String::new();
        for _ in 0..k {
            s.push(char::from_digit(n % 10, 10).unwrap());
            n += 7;
        }
        s
    };
    for _ in 0..4 {
        lines.push(digits(4));
    }
    for _ in 0..4 {
        let l = digits(4);
        let f = digits(4);
        let r = digits(4);
        lines.push(format!("{} {} {}", l, f, r));
    }
    for _ in 0..8 {
        lines.push(digits(4));
    }
    let refs: Vec<&str> = lines.iter().map(|s| s.as_str()).collect();
    let arr: [&str; 16] = refs.try_into().unwrap();
    create_from_strings(arr)
}

/// A scrambled cube with many distinct stickers.
fn scrambled() -> Sides {
    let mut cube = numbered_cube();
    for (i, m) in all_moves().iter().enumerate() {
        if i % 3 != 1 {
            cube = process(&cube, m);
        }
    }
    cube
}

#[test]
fn move_then_reverse_restores_every_cube() {
    let cube = scrambled();
    for m in all_moves() {
        let there = process(&cube, &m);
        let back = process(&there, &m.get_reverse());
        assert_eq!(back, cube, "move {}", m.to_string());
    }
}

#[test]
fn four_equal_moves_restore_every_cube() {
    let cube = scrambled();
    for m in all_moves() {
        let mut c = cube;
        for _ in 0..4 {
            c = process(&c, &m);
        }
        assert_eq!(c, cube, "move {}", m.to_string());
        let two = process(&process(&cube, &m), &m);
        assert_ne!(two, cube, "move {}", m.to_string());
    }
}

#[test]
fn moves_around_the_same_axis_commute() {
    let cube = scrambled();
    let moves = all_moves();
    for a in &moves {
        for b in &moves {
            let ab = process(&process(&cube, a), b);
            let ba = process(&process(&cube, b), a);
            if a.0 == b.0 {
                assert_eq!(ab, ba);
            }
        }
    }
    let h = Item(Orient::Horizontal, Dir::Plus, 0);
    let v = Item(Orient::Vertical, Dir::Plus, 0);
    assert_ne!(process(&process(&cube, &h), &v), process(&process(&cube, &v), &h));
}

#[test]
fn get_reverse_flips_the_sense_only() {
    assert_eq!(Item(Orient::Front, Dir::Plus, 3).get_reverse(), Item(Orient::Front, Dir::Minus, 3));
    assert_eq!(Item(Orient::Vertical, Dir::Minus, 1).get_reverse(), Item(Orient::Vertical, Dir::Plus, 1));
    for m in all_moves() {
        assert_eq!(m.get_reverse().get_reverse(), m);
    }
}

#[test]
fn process_dispatches_on_the_axis() {
    let cube = scrambled();
    assert_eq!(process(&cube, &Item(Orient::Horizontal, Dir::Minus, 2)), horizontal(&cube, Dir::Minus, 2));
    assert_eq!(process(&cube, &Item(Orient::Vertical, Dir::Plus, 3)), vertical(&cube, Dir::Plus, 3));
    assert_eq!(process(&cube, &Item(Orient::Front, Dir::Minus, 1)), front(&cube, Dir::Minus, 1));
    assert_eq!(cube.get_rotation(&Item(Orient::Front, Dir::Minus, 1)), front(&cube, Dir::Minus, 1));
}

#[test]
fn horizontal_middle_layer_moves_one_row_of_each_side_face() {
    let cube = standard_cube();
    let moved = horizontal(&cube, Dir::Minus, 1);
    // left takes front's row, right takes back's row, front takes right's, back takes left's
    assert_eq!(moved.left.cells[1], [2, 2, 2, 2]);
    assert_eq!(moved.right.cells[1], [5, 5, 5, 5]);
    assert_eq!(moved.front.cells[1], [3, 3, 3, 3]);
    assert_eq!(moved.back.cells[1], [1, 1, 1, 1]);
    assert_eq!(moved.left.cells[0], [1, 1, 1, 1]);
    assert_eq!(moved.top, cube.top);
    assert_eq!(moved.bottom, cube.bottom);
}

#[test]
fn equivalent_end_is_sticker_equality() {
    let a = scrambled();
    let b = scrambled();
    assert!(equivalent_end(&a, &b));
    let c = process(&a, &Item(Orient::Front, Dir::Plus, 2));
    assert!(!equivalent_end(&a, &c));
    assert!(equivalent_end(&standard_cube(), &standard_cube()));
    assert!(!equivalent_end(&standard_cube(), &create(&color(0), &color(1), &color(2), &color(3), &color(4), &color(4))));
}

#[test]
fn create_from_strings_reads_each_face_at_its_place() {
    let cube = create_from_strings([
        "0123", "4567", "8901", "2345",
        "1111 2222 3333",
        "1112 2223 3334",
        "1113 2224 3335",
        "1114 2225 3336",
        "4444", "4445", "4446", "4447",
        "5555", "5556", "5557", "5558",
    ]);
    assert_eq!(cube.top.cells, [[0, 1, 2, 3], [4, 5, 6, 7], [8, 9, 0, 1], [2, 3, 4, 5]]);
    assert_eq!(cube.left.cells[3], [1, 1, 1, 4]);
    assert_eq!(cube.front.cells[1], [2, 2, 2, 3]);
    assert_eq!(cube.right.cells[2], [3, 3, 3, 5]);
    assert_eq!(cube.bottom.cells[3], [4, 4, 4, 7]);
    assert_eq!(cube.back.cells[0], [5, 5, 5, 5]);
}

#[test]
fn picture_of_a_solved_cube() {
    let expected = [
        "      0000  \n", "      0000  \n", "      0000  \n", "      0000  \n", "\n",
        "1111  2222  3333  \n", "1111  2222  3333  \n", "1111  2222  3333  \n", "1111  2222  3333  \n", "\n",
        "      4444  \n", "      4444  \n", "      4444  \n", "      4444  \n", "\n",
        "      5555  \n", "      5555  \n", "      5555  \n", "      5555  \n", "\n",
    ]
    .concat();
    assert_eq!(standard_cube().to_string(), expected);
}

#[test]
fn picture_writes_colors_in_decimal() {
    let cube = create(&color(10), &color(1), &color(2), &color(3), &color(4), &color(255));
    let text = cube.to_string();
    assert!(text.starts_with("      10101010  \n"));
    assert!(text.ends_with("      255255255255  \n\n"));
}

#[test]
fn move_names() {
    assert_eq!(Item(Orient::Horizontal, Dir::Minus, 123).to_string(), "H-123");
    assert_eq!(Item(Orient::Front, Dir::Plus, 10).to_string(), "F+10");
    assert_eq!(Orient::Vertical.to_string(), "V");
    assert_eq!(Dir::Minus.to_string(), "-");
}

#[test]
fn moves_keep_the_number_of_stickers_of_each_color() {
    let count = |c: &Sides, col: u8| -> usize {
        [c.top, c.left, c.front, c.right, c.bottom, c.back]
            .iter()
            .map(|s| s.cells.iter().flatten().filter(|x| **x == col).count())
            .sum()
    };
    let cube = standard_cube();
    let mut moved = cube;
    for (i, m) in all_moves().iter().enumerate() {
        if i % 3 != 1 {
            moved = process(&moved, m);
        }
    }
    assert_ne!(moved, cube);
    for col in 0..6u8 {
        assert_eq!(count(&moved, col), 16);
    }
}
