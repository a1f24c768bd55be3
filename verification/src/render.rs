//! The display snapshot: the framebuffer as an RGBA byte buffer.

use vstd::prelude::*;
use crate::state::Chip8;
use crate::state::SCREEN_CELLS;

verus! {

/// Byte `j` (0 ..= 3) of the 4-byte RGBA pixel for one cell: opaque white
/// for an on pixel, a fixed opaque dark green for an off pixel.
pub open spec fn pixel_byte(on: bool, j: int) -> u8 {
    if on {
        0xFF
    } else if j == 1 {
        0xF0
    } else if j == 3 {
        0xFF
    } else {
        0x00
    }
}

impl Chip8 {
    /// A pixel buffer snapshot of the display: for each of the 64x32 cells
    /// in row-major order, four RGBA bytes, white for on and dark green for
    /// off. Pure: the machine is not changed.
    pub fn draw(&self) -> (pixels: Vec<u8>)
        requires
            self@.wf(),
        ensures
            pixels@.len() == 4 * SCREEN_CELLS,
            forall|k: int|
                0 <= k < pixels@.len() ==> pixels@[k] == pixel_byte(
                    self@.screen[k / 4],
                    k % 4,
                ),
    {
        let mut pixels: Vec<u8> = Vec::new();
        let mut c: usize = 0;
        while c < SCREEN_CELLS
            invariant
                c <= SCREEN_CELLS,
                self@.wf(),
                pixels@.len() == 4 * c,
                forall|k: int|
                    0 <= k < 4 * c ==> pixels@[k] == pixel_byte(self@.screen[k / 4], k % 4),
            decreases SCREEN_CELLS - c,
        {
            if self.screen[c] {
                pixels.push(0xFF);
                pixels.push(0xFF);
                pixels.push(0xFF);
                pixels.push(0xFF);
            } else {
                pixels.push(0x00);
                pixels.push(0xF0);
                pixels.push(0x00);
                pixels.push(0xFF);
            }
            proof {
                assert forall|k: int| 0 <= k < 4 * (c + 1) implies pixels@[k] == pixel_byte(
                    self@.screen[k / 4],
                    k % 4,
                ) by {
                    if k >= 4 * c {
                        assert(k / 4 == c && k % 4 == k - 4 * c);
                    }
                }
            }
            c = c + 1;
        }
        pixels
    }
}

} // verus!
