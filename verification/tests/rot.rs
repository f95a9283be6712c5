use rubiks_solver::cube::rot::{front, horizontal, vertical, Dir, Item, Orient};
use rubiks_solver::cube::{create, create_from_strings, Sides};
use rubiks_solver::side::color;

fn standard_cube() -> Sides {
    create(&color(0), &color(1), &color(2), &color(3), &color(4), &color(5))
}

#[test]
fn test_display_rotation() {
    {
        let mv = Item(Orient::Horizontal, Dir::Plus, 0);
        assert_eq!(mv.to_string(), "H+0");
    }
    {
        let mv = Item(Orient::Front, Dir::Minus, 2);
        assert_eq!(mv.to_string(), "F-2");
    }
    {
        let mv = Item(Orient::Vertical, Dir::Plus, 4);
        assert_eq!(mv.to_string(), "V+4");
    }
}

#[test]
fn test_rotation() {
    let cube = standard_cube();

    let str_cube = [
        "      0000  \n",
        "      0000  \n",
        "      0000  \n",
        "      5555  \n",
        "\n",
        "4555  1111  0222  \n",
        "1111  0222  3333  \n",
        "1111  0222  3333  \n",
        "1111  0222  3333  \n",
        "\n",
        "      2444  \n",
        "      2444  \n",
        "      2444  \n",
        "      2444  \n",
        "\n",
        "      3333  \n",
        "      4555  \n",
        "      4555  \n",
        "      4555  \n",
        "\n",
    ]
    .concat();

    let rotation1 = vertical(&cube, Dir::Plus, 0);
    let rotation2 = horizontal(&rotation1, Dir::Plus, 0);

    assert_eq!(str_cube, rotation2.to_string());
}

#[test]
fn test_front() {
    let cube = standard_cube();

    {
        let str_cube = [
            "      0000  \n",
            "      0000  \n",
            "      0000  \n",
            "      1111  \n",
            "\n",
            "1114  2222  0333  \n",
            "1114  2222  0333  \n",
            "1114  2222  0333  \n",
            "1114  2222  0333  \n",
            "\n",
            "      3333  \n",
            "      4444  \n",
            "      4444  \n",
            "      4444  \n",
            "\n",
            "      5555  \n",
            "      5555  \n",
            "      5555  \n",
            "      5555  \n",
            "\n",
        ]
        .concat();
        let rotation1 = front(&cube, Dir::Plus, 0);
        assert_eq!(str_cube, rotation1.to_string());
    }
    {
        let str_cube = [
            "      0000  \n",
            "      3333  \n",
            "      0000  \n",
            "      0000  \n",
            "\n",
            "1011  2222  3343  \n",
            "1011  2222  3343  \n",
            "1011  2222  3343  \n",
            "1011  2222  3343  \n",
            "\n",
            "      4444  \n",
            "      4444  \n",
            "      1111  \n",
            "      4444  \n",
            "\n",
            "      5555  \n",
            "      5555  \n",
            "      5555  \n",
            "      5555  \n",
            "\n",
        ]
        .concat();
        let rotation1 = front(&cube, Dir::Minus, 2);
        assert_eq!(str_cube, rotation1.to_string());
    }
    {
        let str_cube = [
            "      5000  \n",
            "      5000  \n",
            "      5000  \n",
            "      1111  \n",
            "\n",
            "1112  0000  5333  \n",
            "1114  2222  0333  \n",
            "1114  2222  0333  \n",
            "1114  2222  0333  \n",
            "\n",
            "      3333  \n",
            "      2444  \n",
            "      2444  \n",
            "      2444  \n",
            "\n",
            "      4555  \n",
            "      4555  \n",
            "      4555  \n",
            "      4555  \n",
            "\n",
        ]
        .concat();
        let rotation1 = vertical(&cube, Dir::Plus, 0);
        let rotation2 = front(&rotation1, Dir::Plus, 0);
        assert_eq!(str_cube, rotation2.to_string());
    }
}

#[test]
fn test_rotation_front2() {
    let init: Sides = create_from_strings([
        "0000",
        "0000",
        "0000",
        "0000",
        "0001 0000 0000",
        "0002 0000 0000",
        "0003 0000 0000",
        "0004 0000 0000",
        "0000",
        "0000",
        "0000",
        "0000",
        "0000",
        "0000",
        "0000",
        "0000",
    ]);

    let end: Sides = create_from_strings([
        "0000",
        "0000",
        "0000",
        "4321",
        "0000 0000 0000",
        "0000 0000 0000",
        "0000 0000 0000",
        "0000 0000 0000",
        "0000",
        "0000",
        "0000",
        "0000",
        "0000",
        "0000",
        "0000",
        "0000",
    ]);

    {
        let rotation = front(&init, Dir::Plus, 0);
        assert_eq!(rotation, end);
    }

    {
        assert_eq!(
            init.get_rotation(&Item(Orient::Front, Dir::Plus, 0))
                .get_rotation(&Item(Orient::Front, Dir::Plus, 0))
                .get_rotation(&Item(Orient::Front, Dir::Plus, 0))
                .get_rotation(&Item(Orient::Front, Dir::Plus, 0)),
            init
        );
    }
}
