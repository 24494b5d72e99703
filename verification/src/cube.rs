//! Faces and cubes, and the solved cube.

use vstd::prelude::*;
use vstd::std_specs::cmp::PartialEqSpecImpl;
use crate::color::Color;
use crate::render::{cube_text, face_text, lemma_cube_text_lines, line, plain_row, row_text};

verus! {

/// A face: the nine stickers seen when looking at the cube from one side.
///
/// The stickers are stored row by row, three rows of three. On every face
/// but the white one the first row is the one closest to the white face; on
/// the white face it is the row closest to the green face.
///
/// A face does not exist as a part of a real cube, whose pieces cannot be
/// taken apart. Keeping six faces of freely placed stickers is convenient,
/// but it can describe cubes that no sequence of turns produces.
#[derive(Clone, Copy, Debug, Eq)]
pub struct Face([Color; 9]);

impl View for Face {
    type V = Seq<Color>;

    closed spec fn view(&self) -> Seq<Color> {
        self.0@
    }
}

impl PartialEq for Face {
    fn eq(&self, other: &Face) -> (equal: bool) {
        let mut p: usize = 0;
        while p < 9
            invariant
                p <= 9,
                forall|q: int| 0 <= q < p ==> self.0[q] == other.0[q],
            decreases 9 - p,
        {
            if self.0[p] != other.0[p] {
                return false;
            }
            p += 1;
        }
        assert(self.0 =~= other.0);
        true
    }
}

impl PartialEqSpecImpl for Face {
    open spec fn obeys_eq_spec() -> bool {
        true
    }

    open spec fn eq_spec(&self, other: &Face) -> bool {
        *self == *other
    }
}

impl Face {
    /// A face has nine stickers.
    pub proof fn lemma_len(&self)
        ensures
            self@.len() == 9,
    {
    }

    /// A face is no more than its stickers: two faces with the same
    /// stickers are the same face.
    pub proof fn lemma_view_injective(a: Face, b: Face)
        requires
            a@ == b@,
        ensures
            a == b,
    {
        assert(a.0 =~= b.0);
    }

    /// The sticker in row `row` and column `col`, both counted from zero;
    /// `None` where either is not below three.
    pub fn sticker(&self, row: usize, col: usize) -> (found: Option<Color>)
        ensures
            found == if row < 3 && col < 3 {
                Some(self@[row * 3 + col])
            } else {
                None
            },
    {
        if row < 3 && col < 3 {
            Some(self.0[row * 3 + col])
        } else {
            None
        }
    }
}

/// A Rubik's cube, kept as what can be seen of it: six faces whose stickers
/// are free to take any colour.
///
/// The face at index `i` is the one whose centre has the colour of rank `i`.
/// That is settled when the cube is made and nothing changes it afterwards.
///
/// Such a grid is easy to define and easy to draw. Its weakness is that it
/// can hold states that no real cube can reach; nothing here tests for them.
/// The only way to make a cube is [`Cube::solved`].
#[derive(Clone, Copy, Debug, Eq)]
pub struct Cube {
    faces: [Face; 6],
}

impl View for Cube {
    type V = Seq<Seq<Color>>;

    closed spec fn view(&self) -> Seq<Seq<Color>> {
        Seq::new(6, |i: int| self.faces[i]@)
    }
}

impl PartialEq for Cube {
    fn eq(&self, other: &Cube) -> (equal: bool) {
        let mut i: usize = 0;
        while i < 6
            invariant
                i <= 6,
                forall|j: int| 0 <= j < i ==> self.faces[j] == other.faces[j],
            decreases 6 - i,
        {
            if self.faces[i] != other.faces[i] {
                return false;
            }
            i += 1;
        }
        assert(self.faces =~= other.faces);
        true
    }
}

impl PartialEqSpecImpl for Cube {
    open spec fn obeys_eq_spec() -> bool {
        true
    }

    open spec fn eq_spec(&self, other: &Cube) -> bool {
        *self == *other
    }
}

impl Cube {
    /// Every sticker of every face has the colour of the face's centre.
    pub open spec fn is_solved(&self) -> bool {
        forall|i: int, p: int| 0 <= i < 6 && 0 <= p < 9 ==> (#[trigger] self@[i][p]).rank() == i
    }

    /// A cube has six faces of nine stickers.
    pub proof fn lemma_shape(&self)
        ensures
            self@.len() == 6,
            forall|i: int| 0 <= i < 6 ==> (#[trigger] self@[i]).len() == 9,
    {
    }

    /// A cube is no more than its stickers: two cubes with the same
    /// stickers are the same cube.
    pub proof fn lemma_view_injective(a: Cube, b: Cube)
        requires
            a@ == b@,
        ensures
            a == b,
    {
        assert forall|i: int| 0 <= i < 6 implies a.faces[i] == b.faces[i] by {
            assert(a@[i] == b@[i]);
            Face::lemma_view_injective(a.faces[i], b.faces[i]);
        }
        assert(a.faces =~= b.faces);
    }

    /// There is one solved cube: any two cubes that are solved are equal.
    pub proof fn lemma_solved_unique(a: Cube, b: Cube)
        requires
            a.is_solved(),
            b.is_solved(),
        ensures
            a == b,
    {
        a.lemma_shape();
        b.lemma_shape();
        assert forall|i: int| 0 <= i < 6 implies a@[i] == b@[i] by {
            assert forall|p: int| 0 <= p < 9 implies a@[i][p] == b@[i][p] by {
                assert(a@[i][p].rank() == b@[i][p].rank());
            }
            assert(a@[i] =~= b@[i]);
        }
        assert(a@ =~= b@);
        Cube::lemma_view_injective(a, b);
    }

    /// The solved cube: each face shows nothing but the colour of its centre.
    pub fn solved() -> (cube: Cube)
        ensures
            cube.is_solved(),
    {
        Cube {
            faces: [
                Face([Color::White; 9]),
                Face([Color::Red; 9]),
                Face([Color::Green; 9]),
                Face([Color::Orange; 9]),
                Face([Color::Blue; 9]),
                Face([Color::Yellow; 9]),
            ],
        }
    }

    /// The face whose centre has the given colour.
    pub fn face(&self, color: Color) -> (face: Face)
        ensures
            face@ == self@[color.rank() as int],
    {
        self.faces[color.rank()]
    }
}

/// The first `n` stickers of row `row` of a face, as text.
spec fn row_begun(face: Seq<Color>, row: int, n: int) -> Seq<char>
    decreases n,
{
    if n <= 0 {
        Seq::empty()
    } else {
        row_begun(face, row, n - 1) + face[3 * row + n - 1].glyph()
    }
}

/// The first `n` rows of a face, as text.
spec fn face_begun(face: Seq<Color>, n: int) -> Seq<char>
    decreases n,
{
    if n <= 0 {
        Seq::empty()
    } else {
        face_begun(face, n - 1) + row_text(face, n - 1)
    }
}

/// The first `n` faces of a cube, as text.
spec fn cube_begun(faces: Seq<Seq<Color>>, n: int) -> Seq<char>
    decreases n,
{
    if n <= 0 {
        Seq::empty()
    } else {
        cube_begun(faces, n - 1) + face_text(faces[n - 1])
    }
}

/// A row that has begun with all three stickers lacks only its line break.
proof fn lemma_row_done(face: Seq<Color>, row: int)
    ensures
        row_begun(face, row, 3) + seq!['\n'] == row_text(face, row),
{
    reveal_with_fuel(row_begun, 4);
    assert(row_begun(face, row, 3) + seq!['\n'] =~= row_text(face, row));
}

/// A face that has begun with all three rows is the whole face.
proof fn lemma_face_done(face: Seq<Color>)
    ensures
        face_begun(face, 3) == face_text(face),
{
    reveal_with_fuel(face_begun, 4);
    assert(face_begun(face, 3) =~= face_text(face));
}

/// A cube that has begun with all six faces is the whole cube.
proof fn lemma_cube_done(faces: Seq<Seq<Color>>)
    ensures
        cube_begun(faces, 6) == cube_text(faces),
{
    reveal_with_fuel(cube_begun, 7);
    assert(cube_begun(faces, 6) =~= cube_text(faces));
}

impl Cube {
    /// The text that draws this cube on a colour terminal.
    pub open spec fn text(&self) -> Seq<char> {
        cube_text(self@)
    }

    /// Renders the cube as text for a colour terminal: face after face in
    /// the order of their ranks, each as three lines of three stickers.
    pub fn render(&self) -> (text: String)
        ensures
            text@ == self.text(),
    {
        let mut text = String::new();
        let mut i: usize = 0;
        while i < 6
            invariant
                i <= 6,
                text@ == cube_begun(self@, i as int),
            decreases 6 - i,
        {
            let face = &self.faces[i];
            let ghost before_face = text@;
            let mut y: usize = 0;
            while y < 3
                invariant
                    y <= 3,
                    i < 6,
                    face@ == self@[i as int],
                    text@ == before_face + face_begun(face@, y as int),
                decreases 3 - y,
            {
                let ghost before_row = text@;
                let mut x: usize = 0;
                while x < 3
                    invariant
                        x <= 3,
                        y < 3,
                        text@ == before_row + row_begun(face@, y as int, x as int),
                    decreases 3 - x,
                {
                    let sticker = face.0[y * 3 + x].render();
                    text.append(sticker.as_str());
                    x += 1;
                    assert(text@ =~= before_row + row_begun(face@, y as int, x as int));
                }
                text.append("\n");
                y += 1;
                proof {
                    reveal_strlit("\n");
                    lemma_row_done(face@, y - 1);
                    assert(text@ =~= before_face + face_begun(face@, y as int));
                }
            }
            i += 1;
            proof {
                lemma_face_done(face@);
                assert(text@ =~= cube_begun(self@, i as int));
            }
        }
        proof {
            lemma_cube_done(self@);
        }
        text
    }

    /// The text of a solved cube is six blocks of one colour each, in the
    /// order of the colours' ranks: of its eighteen lines, line `i` draws
    /// three stickers of the colour of rank `i / 3`.
    pub proof fn lemma_solved_text(&self)
        requires
            self.is_solved(),
        ensures
            forall|i: int|
                0 <= i < 18 ==> #[trigger] line(self.text(), i) == plain_row(
                    Color::of_rank(i / 3),
                ),
    {
        lemma_cube_text_lines(self@);
        assert forall|i: int| 0 <= i < 18 implies #[trigger] line(self.text(), i) == plain_row(
            Color::of_rank(i / 3),
        ) by {
            let face = self@[i / 3];
            let row = i % 3;
            assert(face[3 * row].rank() == i / 3);
            assert(face[3 * row + 1].rank() == i / 3);
            assert(face[3 * row + 2].rank() == i / 3);
        }
    }
}

} // verus!
