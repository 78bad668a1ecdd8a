//! The framebuffer: a 64x32 monochrome bitmap, stored row-major, one byte
//! per pixel.  Pixels are logically binary; `get` normalizes any nonzero
//! stored byte to 1.

use vstd::prelude::*;

verus! {

/// Width of the display in pixels.
pub const SCREEN_WIDTH: usize = 64;

/// Height of the display in pixels.
pub const SCREEN_HEIGHT: usize = 32;

/// Number of stored pixel bytes.
pub const SCREEN_PIXELS: usize = 2048;

/// The flat index of the pixel at column `x`, row `y`.
pub open spec fn spec_pixel_index(x: int, y: int) -> int {
    y * 64 + x
}

/// A pixel value as the engine reads it: 0 stays 0, anything else reads as 1.
pub open spec fn spec_pixel_norm(v: u8) -> u8 {
    if v == 0 {
        0
    } else {
        1
    }
}

/// The 64x32 framebuffer.  Its view is the flat sequence of stored pixel
/// bytes, row-major: pixel (x, y) is entry `spec_pixel_index(x, y)`.
pub struct Screen {
    pixels: Vec<u8>,
}

impl View for Screen {
    type V = Seq<u8>;

    closed spec fn view(&self) -> Seq<u8> {
        self.pixels@
    }
}

impl Screen {
    /// A screen always holds exactly one byte per pixel.
    pub open spec fn wf(&self) -> bool {
        self@.len() == 2048
    }

    /// A fresh screen with every pixel off.
    pub fn new() -> (s: Screen)
        ensures
            s.wf(),
            forall|p: int| 0 <= p < 2048 ==> s@[p] == 0,
    {
        let mut pixels: Vec<u8> = Vec::new();
        let mut i: usize = 0;
        while i < SCREEN_PIXELS
            invariant
                i <= 2048,
                pixels@.len() == i,
                forall|p: int| 0 <= p < i ==> pixels@[p] == 0,
            decreases 2048 - i,
        {
            pixels.push(0);
            i = i + 1;
        }
        Screen { pixels }
    }

    /// Turns every pixel off.
    pub fn clear(&mut self)
        requires
            old(self).wf(),
        ensures
            final(self).wf(),
            forall|p: int| 0 <= p < 2048 ==> final(self)@[p] == 0,
    {
        let mut i: usize = 0;
        while i < SCREEN_PIXELS
            invariant
                i <= 2048,
                self.pixels@.len() == 2048,
                forall|p: int| 0 <= p < i ==> self.pixels@[p] == 0,
            decreases 2048 - i,
        {
            self.pixels[i] = 0;
            i = i + 1;
        }
    }

    /// Stores `bit` at pixel (x, y), leaving every other pixel unchanged.
    pub fn set(&mut self, x: usize, y: usize, bit: u8)
        requires
            old(self).wf(),
            x < 64,
            y < 32,
        ensures
            final(self).wf(),
            final(self)@ == old(self)@.update(spec_pixel_index(x as int, y as int), bit),
    {
        self.pixels[y * 64 + x] = bit;
    }

    /// Reads pixel (x, y), normalized: 0 when the stored byte is 0, else 1.
    pub fn get(&mut self, x: usize, y: usize) -> (r: u8)
        requires
            old(self).wf(),
            x < 64,
            y < 32,
        ensures
            *final(self) == *old(self),
            r == spec_pixel_norm(old(self)@[spec_pixel_index(x as int, y as int)]),
    {
        if self.pixels[y * 64 + x] == 0 {
            0
        } else {
            1
        }
    }
}

} // verus!
