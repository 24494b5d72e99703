//! The six colours of a cube and their ranks.

use vstd::prelude::*;

verus! {

/// A colour we can see on a cube.
///
/// A colour names a sticker and also the face whose centre carries it.
#[derive(Clone, Copy, Debug, PartialEq, Eq, Structural, PartialOrd)]
pub enum Color {
    White,
    Red,
    Green,
    Orange,
    Blue,
    Yellow,
}

impl Color {
    /// The rank of a colour: its position in the list of faces of a cube.
    pub open spec fn spec_rank(self) -> usize {
        match self {
            Color::White => 0,
            Color::Red => 1,
            Color::Green => 2,
            Color::Orange => 3,
            Color::Blue => 4,
            Color::Yellow => 5,
        }
    }

    /// The colour that has rank `r`. Outside `0..6` the value is Yellow and
    /// carries no meaning.
    pub open spec fn of_rank(r: int) -> Color {
        if r == 0 {
            Color::White
        } else if r == 1 {
            Color::Red
        } else if r == 2 {
            Color::Green
        } else if r == 3 {
            Color::Orange
        } else if r == 4 {
            Color::Blue
        } else {
            Color::Yellow
        }
    }

    /// The rank of this colour, usable as an index into the faces of a cube.
    #[verifier::when_used_as_spec(spec_rank)]
    pub fn rank(self) -> (r: usize)
        ensures
            r == self.spec_rank(),
    {
        match self {
            Color::White => 0,
            Color::Red => 1,
            Color::Green => 2,
            Color::Orange => 3,
            Color::Blue => 4,
            Color::Yellow => 5,
        }
    }
}

/// Rank is a bijection between the six colours and the numbers 0 to 5:
/// every colour has a rank below six, no two colours share one, and every
/// number below six is the rank of a colour.
pub proof fn lemma_rank_bijective()
    ensures
        forall|c: Color| 0 <= #[trigger] c.rank() < 6,
        forall|a: Color, b: Color| #[trigger] a.rank() == #[trigger] b.rank() ==> a == b,
        forall|r: int| 0 <= r < 6 ==> (#[trigger] Color::of_rank(r)).rank() == r,
        forall|c: Color| Color::of_rank(#[trigger] c.rank() as int) == c,
{
}

} // verus!
