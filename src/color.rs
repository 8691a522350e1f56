use vstd::prelude::*;

verus! {

/// An 8-bit RGB color, as a shaded sphere contributes it to a pixel.
#[derive(Clone, Copy, Debug, PartialEq, Eq, Structural)]
pub struct Color {
    pub r: u8,
    pub g: u8,
    pub b: u8,
}

/// The color of a pixel that no sphere has drawn on.
pub open spec fn black() -> Color {
    Color { r: 0, g: 0, b: 0 }
}

impl Color {
    /// A color counts as drawn when any channel is non-zero; a miss shades
    /// to black and must not overwrite what an earlier sphere drew.
    pub open spec fn visible(self) -> bool {
        self.r > 0 || self.g > 0 || self.b > 0
    }

    pub fn new(r: u8, g: u8, b: u8) -> (c: Color)
        ensures
            c == (Color { r, g, b }),
    {
        Color { r, g, b }
    }

    pub fn is_visible(&self) -> (v: bool)
        ensures
            v == self.visible(),
    {
        self.r > 0 || self.g > 0 || self.b > 0
    }
}

} // verus!
