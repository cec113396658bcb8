//! Pixel colours.

use vstd::prelude::*;

verus! {

/// One pixel: red, green, blue and alpha, each one byte, with the colour
/// channels already multiplied by alpha.
#[derive(Clone, Copy, Debug, PartialEq, Eq, Hash, Structural)]
pub struct Color {
    pub r: u8,
    pub g: u8,
    pub b: u8,
    pub a: u8,
}

impl Color {
    /// Opaque white, the colour of a cell nobody has painted yet.
    pub open spec fn background() -> Color {
        Color { r: 255, g: 255, b: 255, a: 255 }
    }

    /// Opaque white.
    pub fn white() -> (c: Color)
        ensures
            c == Color::background(),
    {
        Color { r: 255, g: 255, b: 255, a: 255 }
    }

    /// A colour from its four stored bytes.
    pub fn new(r: u8, g: u8, b: u8, a: u8) -> (c: Color)
        ensures
            c == (Color { r, g, b, a }),
    {
        Color { r, g, b, a }
    }
}

} // verus!
