use vstd::prelude::*;

verus! {

/// A single unit of output: a character and the RGB colour to paint it.
#[derive(Debug, Clone, Copy, PartialEq, Eq, Structural)]
pub struct ColoredChar {
    pub glyph: char,
    pub r: u8,
    pub g: u8,
    pub b: u8,
}

impl ColoredChar {
    /// Builds a coloured character from its glyph and its red, green and blue components.
    pub fn new(glyph: char, r: u8, g: u8, b: u8) -> (c: Self)
        ensures
            c.glyph == glyph,
            c.r == r,
            c.g == g,
            c.b == b,
    {
        Self { glyph, r, g, b }
    }
}

} // verus!
