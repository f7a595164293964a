//! The colour stored in one slot of the canvas.

use vstd::prelude::*;

verus! {

/// An RGBA colour with eight bits per channel. Alpha is stored as given and
/// never blended.
#[derive(Clone, Copy, Debug, PartialEq, Eq, Structural)]
pub struct Pixel {
    pub r: u8,
    pub g: u8,
    pub b: u8,
    pub a: u8,
}

impl Pixel {
    /// The colour every slot of a fresh canvas holds.
    pub open spec fn opaque_black() -> Pixel {
        Pixel { r: 0, g: 0, b: 0, a: 255 }
    }

    /// The same red, green and blue, fully opaque.
    pub open spec fn opaque(self) -> Pixel {
        Pixel { a: 255, ..self }
    }

    /// Opaque black.
    pub fn black() -> (p: Pixel)
        ensures
            p == Pixel::opaque_black(),
    {
        Pixel { r: 0, g: 0, b: 0, a: 255 }
    }
}

} // verus!
