//! One pixel of a 32-bit frame.

use vstd::prelude::*;

verus! {

/// A pixel as its four channels. In a frame's byte buffer they stand in the
/// order blue, green, red, alpha.
#[derive(Clone, Copy, Debug, PartialEq, Eq)]
pub struct Pixel {
    pub b: u8,
    pub g: u8,
    pub r: u8,
    pub a: u8,
}

impl Pixel {
    /// The fully transparent pixel that surrounds the dock.
    pub open spec fn clear() -> Pixel {
        Pixel { b: 0, g: 0, r: 0, a: 0 }
    }

    /// Black at the given opacity: what shadows and the border are made of.
    pub open spec fn black(alpha: u8) -> Pixel {
        Pixel { b: 0, g: 0, r: 0, a: alpha }
    }

    /// This pixel with another opacity.
    pub open spec fn with_alpha(self, alpha: u8) -> Pixel {
        Pixel { b: self.b, g: self.g, r: self.r, a: alpha }
    }

    /// The byte that stands at position `channel` (0 to 3) of this pixel in a
    /// frame's byte buffer.
    pub open spec fn channel(self, channel: int) -> u8 {
        if channel == 0 {
            self.b
        } else if channel == 1 {
            self.g
        } else if channel == 2 {
            self.r
        } else {
            self.a
        }
    }
}

} // verus!
