use rubiks::color::Color;
use rubiks::cube::Cube;

const FACES: [Color; 6] = [
    Color::White,
    Color::Red,
    Color::Green,
    Color::Orange,
    Color::Blue,
    Color::Yellow,
];

#[test]
fn solved_faces_show_their_own_color() {
    let cube = Cube::solved();
    for (index, color) in FACES.into_iter().enumerate() {
        let face = cube.face(color);
        for row in 0..3 {
            for col in 0..3 {
                let sticker = face.sticker(row, col);
                assert_eq!(sticker, Some(color));
                assert_eq!(sticker.map(|c| c.rank()), Some(index));
            }
        }
    }
}

#[test]
fn solved_is_the_same_every_time() {
    let first = Cube::solved();
    let second = Cube::solved();
    assert_eq!(first, second);
    assert!(!(first != second));
    for color in FACES {
        assert_eq!(first.face(color), second.face(color));
    }
}

#[test]
fn cubes_are_plain_values() {
    let cube = Cube::solved();
    let copy = cube;
    assert_eq!(cube, copy);
    assert_eq!(cube.clone(), Cube::solved());
    assert_eq!(format!("{:?}", cube), format!("{:?}", copy));
}

#[test]
fn faces_of_different_colors_differ() {
    let cube = Cube::solved();
    for a in FACES {
        for b in FACES {
            assert_eq!(cube.face(a) == cube.face(b), a == b);
        }
    }
}

#[test]
fn no_sticker_outside_the_grid() {
    let face = Cube::solved().face(Color::Green);
    assert_eq!(face.sticker(0, 0), Some(Color::Green));
    assert_eq!(face.sticker(2, 2), Some(Color::Green));
    assert_eq!(face.sticker(3, 0), None);
    assert_eq!(face.sticker(0, 3), None);
    assert_eq!(face.sticker(3, 3), None);
    assert_eq!(face.sticker(usize::MAX, 0), None);
    assert_eq!(face.sticker(0, usize::MAX), None);
    assert_eq!(face.sticker(usize::MAX, usize::MAX), None);
}

#[test]
fn solved_renders_as_eighteen_lines() {
    let text = Cube::solved().render();
    assert_eq!(text.chars().count(), 558);
    assert_eq!(text.chars().filter(|c| *c == '\n').count(), 18);
    assert!(text.ends_with('\n'));
    let lines: Vec<&str> = text.lines().collect();
    assert_eq!(lines.len(), 18);
    for (i, line) in lines.iter().enumerate() {
        let glyph = FACES[i / 3].render();
        assert_eq!(line.chars().count(), 30);
        assert_eq!(line.matches('\u{25a0}').count(), 3);
        assert_eq!(line.matches("\x1b[0m").count(), 3);
        assert_eq!(line.matches(glyph.as_str()).count(), 3);
        assert_eq!(*line, format!("{}{}{}", glyph, glyph, glyph));
    }
}

#[test]
fn solved_renders_as_six_blocks_in_rank_order() {
    let w = "\x1b[37m\u{25a0}\x1b[0m";
    let r = "\x1b[31m\u{25a0}\x1b[0m";
    let g = "\x1b[32m\u{25a0}\x1b[0m";
    let o = "\x1b[35m\u{25a0}\x1b[0m";
    let b = "\x1b[34m\u{25a0}\x1b[0m";
    let y = "\x1b[33m\u{25a0}\x1b[0m";
    let mut expected = String::new();
    for glyph in [w, r, g, o, b, y] {
        for _ in 0..3 {
            expected.push_str(glyph);
            expected.push_str(glyph);
            expected.push_str(glyph);
            expected.push('\n');
        }
    }
    assert_eq!(Cube::solved().render(), expected);
}

#[test]
fn rendering_twice_gives_the_same_text() {
    let cube = Cube::solved();
    assert_eq!(cube.render(), cube.render());
    assert_eq!(cube.render(), Cube::solved().render());
}

#[test]
fn first_line_of_the_solved_cube_is_white() {
    let text = Cube::solved().render();
    assert!(text.starts_with("\x1b[37m\u{25a0}\x1b[0m\x1b[37m\u{25a0}\x1b[0m\x1b[37m\u{25a0}\x1b[0m\n"));
    assert!(text.ends_with("\x1b[33m\u{25a0}\x1b[0m\x1b[33m\u{25a0}\x1b[0m\x1b[33m\u{25a0}\x1b[0m\n"));
}
