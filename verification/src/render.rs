//! The text that draws stickers, faces and cubes on a colour terminal.

use vstd::prelude::*;
use crate::color::Color;

verus! {

/// The mark drawn for one sticker: a filled square.
pub open spec fn mark() -> char {
    '\u{25a0}'
}

/// The control sequence that switches the terminal back to its own colour.
pub open spec fn reset() -> Seq<char> {
    seq!['\u{1b}', '[', '0', 'm']
}

impl Color {
    /// The digit that selects this colour among the eight terminal
    /// foreground colours. A terminal has no orange, so orange is drawn in
    /// magenta.
    pub open spec fn digit(self) -> char {
        match self {
            Color::White => '7',
            Color::Red => '1',
            Color::Green => '2',
            Color::Orange => '5',
            Color::Blue => '4',
            Color::Yellow => '3',
        }
    }

    /// The control sequence that switches the terminal to this colour.
    pub open spec fn style(self) -> Seq<char> {
        seq!['\u{1b}', '[', '3', self.digit(), 'm']
    }

    /// One sticker of this colour as terminal text: the colour is switched
    /// on, the mark is drawn, the colour is switched off again.
    pub open spec fn glyph(self) -> Seq<char> {
        self.style() + seq![mark()] + reset()
    }

    /// The control sequence that switches the terminal to this colour.
    fn style_code(self) -> (code: &'static str)
        ensures
            code@ == self.style(),
    {
        proof {
            reveal_strlit("\x1b[37m");
            reveal_strlit("\x1b[31m");
            reveal_strlit("\x1b[32m");
            reveal_strlit("\x1b[35m");
            reveal_strlit("\x1b[34m");
            reveal_strlit("\x1b[33m");
        }
        let code = match self {
            Color::White => "\x1b[37m",
            Color::Red => "\x1b[31m",
            Color::Green => "\x1b[32m",
            Color::Orange => "\x1b[35m",
            Color::Blue => "\x1b[34m",
            Color::Yellow => "\x1b[33m",
        };
        assert(code@ =~= self.style());
        code
    }

    /// Renders one sticker of this colour as terminal text.
    pub fn render(self) -> (text: String)
        ensures
            text@ == self.glyph(),
    {
        proof {
            reveal_strlit("\u{25a0}");
            reveal_strlit("\x1b[0m");
        }
        let mut text = String::new();
        text.append(self.style_code());
        text.append("\u{25a0}");
        text.append("\x1b[0m");
        assert(text@ =~= self.glyph());
        text
    }
}

/// The three stickers of row `row` of a face, side by side.
pub open spec fn row_glyphs(face: Seq<Color>, row: int) -> Seq<char> {
    face[3 * row].glyph() + face[3 * row + 1].glyph() + face[3 * row + 2].glyph()
}

/// Row `row` of a face as a line of text, with the line break that ends it.
pub open spec fn row_text(face: Seq<Color>, row: int) -> Seq<char> {
    row_glyphs(face, row) + seq!['\n']
}

/// A face as text: its three rows, first row first.
pub open spec fn face_text(face: Seq<Color>) -> Seq<char> {
    row_text(face, 0) + row_text(face, 1) + row_text(face, 2)
}

/// A cube as text: its six faces in the order of their ranks, with nothing
/// between one face and the next.
pub open spec fn cube_text(faces: Seq<Seq<Color>>) -> Seq<char> {
    face_text(faces[0]) + face_text(faces[1]) + face_text(faces[2]) + face_text(faces[3])
        + face_text(faces[4]) + face_text(faces[5])
}

/// Three stickers of one colour, side by side.
pub open spec fn plain_row(color: Color) -> Seq<char> {
    color.glyph() + color.glyph() + color.glyph()
}

/// Line `i` of a text whose lines all have thirty characters before the
/// line break: what stands between one line break and the next.
pub open spec fn line(text: Seq<char>, i: int) -> Seq<char> {
    text.subrange(31 * i, 31 * i + 30)
}

/// Every colour has a glyph, and the glyph tells which colour it draws:
/// each is ten characters long, made of the colour's own control sequence,
/// the mark and the reset sequence, none of them a line break, and no two
/// colours share one.
pub proof fn lemma_glyph_complete()
    ensures
        forall|c: Color| (#[trigger] c.glyph()).len() == 10,
        forall|c: Color| (#[trigger] c.glyph()).subrange(0, 5) == c.style(),
        forall|c: Color| (#[trigger] c.glyph())[5] == mark(),
        forall|c: Color| (#[trigger] c.glyph()).subrange(6, 10) == reset(),
        forall|c: Color, k: int| 0 <= k < 10 ==> (#[trigger] c.glyph()[k]) != '\n',
        forall|a: Color, b: Color| #[trigger] a.glyph() == #[trigger] b.glyph() ==> a == b,
{
    assert forall|c: Color| (#[trigger] c.glyph()).subrange(0, 5) == c.style() by {
        assert(c.glyph().subrange(0, 5) =~= c.style());
    }
    assert forall|c: Color| (#[trigger] c.glyph()).subrange(6, 10) == reset() by {
        assert(c.glyph().subrange(6, 10) =~= reset());
    }
    assert forall|a: Color, b: Color| #[trigger] a.glyph() == #[trigger] b.glyph() implies a
        == b by {
        assert(a.glyph()[3] == a.digit());
        assert(b.glyph()[3] == b.digit());
    }
}

/// Where the characters of three pieces of one length stand once the
/// pieces are joined.
proof fn lemma_joined(a: Seq<char>, b: Seq<char>, c: Seq<char>, n: int, k: int)
    requires
        a.len() == n,
        b.len() == n,
        c.len() == n,
        0 <= k < 3 * n,
    ensures
        (a + b + c).len() == 3 * n,
        k < n ==> (a + b + c)[k] == a[k],
        n <= k < 2 * n ==> (a + b + c)[k] == b[k - n],
        2 * n <= k ==> (a + b + c)[k] == c[k - 2 * n],
{
}

/// The character at place `k` of a row: the line break at the end, and
/// before it the glyphs of the row's three stickers, ten characters each.
proof fn lemma_row_char(face: Seq<Color>, row: int, k: int)
    requires
        0 <= k < 31,
    ensures
        row_glyphs(face, row).len() == 30,
        row_text(face, row).len() == 31,
        k == 30 ==> row_text(face, row)[k] == '\n',
        k < 30 ==> row_text(face, row)[k] == row_glyphs(face, row)[k],
        k < 30 ==> row_glyphs(face, row)[k] == face[3 * row + k / 10].glyph()[k % 10],
{
    let a = face[3 * row].glyph();
    let b = face[3 * row + 1].glyph();
    let c = face[3 * row + 2].glyph();
    lemma_joined(a, b, c, 10, if k < 30 { k } else { 0 });
}

/// The character at place `j` of row `row` of a face.
proof fn lemma_face_char(face: Seq<Color>, row: int, j: int)
    requires
        0 <= row < 3,
        0 <= j < 31,
    ensures
        face_text(face).len() == 93,
        face_text(face)[31 * row + j] == row_text(face, row)[j],
{
    lemma_row_char(face, 0, 0);
    lemma_row_char(face, 1, 0);
    lemma_row_char(face, 2, 0);
    lemma_joined(row_text(face, 0), row_text(face, 1), row_text(face, 2), 31, 31 * row + j);
}

/// Where the characters of six pieces of one length stand once the pieces
/// are joined.
proof fn lemma_joined_six(
    a: Seq<char>,
    b: Seq<char>,
    c: Seq<char>,
    d: Seq<char>,
    e: Seq<char>,
    f: Seq<char>,
    n: int,
    k: int,
)
    requires
        a.len() == n,
        b.len() == n,
        c.len() == n,
        d.len() == n,
        e.len() == n,
        f.len() == n,
        0 <= k < 6 * n,
    ensures
        (a + b + c + d + e + f).len() == 6 * n,
        k < n ==> (a + b + c + d + e + f)[k] == a[k],
        n <= k < 2 * n ==> (a + b + c + d + e + f)[k] == b[k - n],
        2 * n <= k < 3 * n ==> (a + b + c + d + e + f)[k] == c[k - 2 * n],
        3 * n <= k < 4 * n ==> (a + b + c + d + e + f)[k] == d[k - 3 * n],
        4 * n <= k < 5 * n ==> (a + b + c + d + e + f)[k] == e[k - 4 * n],
        5 * n <= k ==> (a + b + c + d + e + f)[k] == f[k - 5 * n],
{
}

/// The character at place `j` of face `i` of a cube.
proof fn lemma_cube_char(faces: Seq<Seq<Color>>, i: int, j: int)
    requires
        0 <= i < 6,
        0 <= j < 93,
    ensures
        cube_text(faces).len() == 558,
        cube_text(faces)[93 * i + j] == face_text(faces[i])[j],
{
    lemma_face_char(faces[0], 0, 0);
    lemma_face_char(faces[1], 0, 0);
    lemma_face_char(faces[2], 0, 0);
    lemma_face_char(faces[3], 0, 0);
    lemma_face_char(faces[4], 0, 0);
    lemma_face_char(faces[5], 0, 0);
    lemma_joined_six(
        face_text(faces[0]),
        face_text(faces[1]),
        face_text(faces[2]),
        face_text(faces[3]),
        face_text(faces[4]),
        face_text(faces[5]),
        93,
        93 * i + j,
    );
}

/// The character at place `j` of line `i` of a cube.
proof fn lemma_line_char(faces: Seq<Seq<Color>>, i: int, j: int)
    requires
        0 <= i < 18,
        0 <= j < 31,
    ensures
        cube_text(faces).len() == 558,
        cube_text(faces)[31 * i + j] == row_text(faces[i / 3], i % 3)[j],
{
    lemma_cube_char(faces, i / 3, 31 * (i % 3) + j);
    lemma_face_char(faces[i / 3], i % 3, j);
}

/// The text of a cube is eighteen lines and nothing else. It has 558
/// characters; its line breaks stand at the end of each run of thirty-one
/// characters and nowhere else; and line `i` holds the three stickers of
/// row `i % 3` of face `i / 3`.
pub proof fn lemma_cube_text_lines(faces: Seq<Seq<Color>>)
    ensures
        cube_text(faces).len() == 558,
        forall|k: int| 0 <= k < 558 ==> ((#[trigger] cube_text(faces)[k]) == '\n' <==> k % 31 == 30),
        forall|i: int|
            0 <= i < 18 ==> #[trigger] line(cube_text(faces), i) == row_glyphs(
                faces[i / 3],
                i % 3,
            ),
{
    let text = cube_text(faces);
    lemma_line_char(faces, 0, 0);
    assert forall|k: int| 0 <= k < 558 implies ((#[trigger] text[k]) == '\n' <==> k % 31 == 30) by {
        let i = k / 31;
        let j = k % 31;
        lemma_line_char(faces, i, j);
        lemma_row_char(faces[i / 3], i % 3, j);
        lemma_glyph_complete();
    }
    assert forall|i: int| 0 <= i < 18 implies #[trigger] line(text, i) == row_glyphs(
        faces[i / 3],
        i % 3,
    ) by {
        let face = faces[i / 3];
        let row = i % 3;
        lemma_row_char(face, row, 0);
        assert forall|j: int| 0 <= j < 30 implies line(text, i)[j] == row_glyphs(face, row)[j] by {
            lemma_line_char(faces, i, j);
            lemma_row_char(face, row, j);
        }
        assert(line(text, i) =~= row_glyphs(face, row));
    }
}

} // verus!
