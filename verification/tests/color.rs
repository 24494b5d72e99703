use rubiks::color::Color;

const COLORS: [Color; 6] = [
    Color::White,
    Color::Red,
    Color::Green,
    Color::Orange,
    Color::Blue,
    Color::Yellow,
];

#[test]
fn ranks_are_fixed() {
    assert_eq!(Color::White.rank(), 0);
    assert_eq!(Color::Red.rank(), 1);
    assert_eq!(Color::Green.rank(), 2);
    assert_eq!(Color::Orange.rank(), 3);
    assert_eq!(Color::Blue.rank(), 4);
    assert_eq!(Color::Yellow.rank(), 5);
}

#[test]
fn rank_is_one_to_one_and_onto() {
    let mut seen = [0usize; 6];
    for color in COLORS {
        let rank = color.rank();
        assert!(rank < 6);
        seen[rank] += 1;
    }
    assert_eq!(seen, [1usize; 6]);
    for a in COLORS {
        for b in COLORS {
            assert_eq!(a.rank() == b.rank(), a == b);
        }
    }
}

#[test]
fn colors_are_ordered_by_rank() {
    for a in COLORS {
        for b in COLORS {
            assert_eq!(a < b, a.rank() < b.rank());
            assert_eq!(a <= b, a.rank() <= b.rank());
        }
    }
}

#[test]
fn colors_copy_and_compare() {
    let a = Color::Orange;
    let b = a;
    assert_eq!(a, b);
    assert_eq!(a.clone(), Color::Orange);
    assert_ne!(a, Color::Red);
    assert_eq!(format!("{:?}", a), "Orange");
}

#[test]
fn each_color_renders_in_its_own_style() {
    assert_eq!(Color::White.render(), "\x1b[37m\u{25a0}\x1b[0m");
    assert_eq!(Color::Red.render(), "\x1b[31m\u{25a0}\x1b[0m");
    assert_eq!(Color::Green.render(), "\x1b[32m\u{25a0}\x1b[0m");
    assert_eq!(Color::Blue.render(), "\x1b[34m\u{25a0}\x1b[0m");
    assert_eq!(Color::Yellow.render(), "\x1b[33m\u{25a0}\x1b[0m");
}

#[test]
fn orange_renders_in_magenta() {
    assert_eq!(Color::Orange.render(), "\x1b[35m\u{25a0}\x1b[0m");
}

#[test]
fn glyphs_are_ten_characters_around_the_mark() {
    for color in COLORS {
        let glyph: Vec<char> = color.render().chars().collect();
        assert_eq!(glyph.len(), 10);
        assert_eq!(glyph[0], '\x1b');
        assert_eq!(glyph[1], '[');
        assert_eq!(glyph[2], '3');
        assert_eq!(glyph[4], 'm');
        assert_eq!(glyph[5], '\u{25a0}');
        assert_eq!(&glyph[6..], &['\x1b', '[', '0', 'm']);
        assert!(!glyph.contains(&'\n'));
    }
}

#[test]
fn no_two_colors_share_a_glyph() {
    for a in COLORS {
        for b in COLORS {
            assert_eq!(a.render() == b.render(), a == b);
        }
    }
}
