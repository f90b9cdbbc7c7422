//! A board cell: empty, or settled with the color of the block that
//! locked there. Each cell renders as a two-character blank or a single
//! colored square glyph.

use vstd::prelude::*;
use crate::pieces::Color;

verus! {

#[derive(Clone, Copy, Debug, PartialEq, Eq, Structural)]
pub enum Square {
    Empty,
    Occupied(Color),
}

/// The characters a cell renders as: two blanks, or one square glyph of
/// the cell's color.
pub open spec fn square_chars(sq: Square) -> Seq<char> {
    match sq {
        Square::Empty => "  "@,
        Square::Occupied(Color::Red) => "\u{1F7E5}"@,
        Square::Occupied(Color::Blue) => "\u{1F7E6}"@,
        Square::Occupied(Color::Orange) => "\u{1F7E7}"@,
        Square::Occupied(Color::Yellow) => "\u{1F7E8}"@,
        Square::Occupied(Color::Green) => "\u{1F7E9}"@,
        Square::Occupied(Color::Violet) => "\u{1F7EA}"@,
        Square::Occupied(Color::Brown) => "\u{1F7EB}"@,
    }
}

impl Square {
    /// The cell's rendering, as a borrowed string.
    pub fn text(&self) -> (r: &'static str)
        ensures
            r@ == square_chars(*self),
    {
        match self {
            Square::Empty => "  ",
            Square::Occupied(Color::Red) => "\u{1F7E5}",
            Square::Occupied(Color::Blue) => "\u{1F7E6}",
            Square::Occupied(Color::Orange) => "\u{1F7E7}",
            Square::Occupied(Color::Yellow) => "\u{1F7E8}",
            Square::Occupied(Color::Green) => "\u{1F7E9}",
            Square::Occupied(Color::Violet) => "\u{1F7EA}",
            Square::Occupied(Color::Brown) => "\u{1F7EB}",
        }
    }
}

} // verus!
