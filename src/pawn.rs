use vstd::prelude::*;
use crate::piece::Color;

verus! {

/// A pawn of one colour, on its own.
pub struct Pawn {
    color: Color,
}

impl Pawn {
    pub closed spec fn color_spec(&self) -> Color {
        self.color
    }

    pub fn new(color: Color) -> (r: Self)
        ensures
            r.color_spec() == color,
    {
        Self { color }
    }

    pub fn get_color(&self) -> (r: Color)
        ensures
            r == self.color_spec(),
    {
        self.color
    }

    /// The pawn's glyph in its colour.
    pub fn get_as_char(&self) -> (r: char)
        ensures
            r == (match self.color_spec() {
                Color::White => '\u{2659}',
                Color::Black => '\u{265f}',
            }),
    {
        match self.color {
            Color::White => '\u{2659}',
            Color::Black => '\u{265f}',
        }
    }
}

} // verus!
