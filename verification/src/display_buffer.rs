//! The display surface of the machine: 64 by 32 monochrome pixels.

use vstd::prelude::*;
use crate::interfaces::DisplayInterface;
use crate::screen::{Screen, row_bit};
use crate::types::{ByteVal, HEIGHT, WIDTH};

verus! {

/// Number of pixels of the display.
pub const PIXELS: usize = 2048;

/// A 64 by 32 pixel grid, stored row by row, one byte per pixel.
pub struct DisplayBuffer {
    mem: [ByteVal; 2048],
}

impl DisplayBuffer {
    /// A display with every pixel off.
    pub fn new() -> (display: DisplayBuffer)
        ensures
            display.screen() == Screen::blank(WIDTH as nat, HEIGHT as nat),
    {
        let display = DisplayBuffer { mem: DisplayBuffer::blank_pixels() };
        assert(display.screen().lit =~= Set::empty());
        display
    }

    // The pixels of a display on which nothing is shown.
    fn blank_pixels() -> (mem: [ByteVal; 2048])
        ensures
            mem@ == Seq::new(2048, |k: int| 0u8),
    {
        let blank: [ByteVal; 2048] = [0u8; 2048];
        proof {
            let filled = vstd::array::spec_array_fill_for_copy_type::<ByteVal, 2048>(0u8);
            assert(blank == filled);
            assert forall|k: int| 0 <= k < 2048 implies blank@[k] == 0u8 by {
                assert(filled@[k] == 0u8);
            }
            assert(blank@ =~= Seq::new(2048, |k: int| 0u8));
        }
        blank
    }

    /// Every display of this kind is 64 pixels wide and 32 pixels high,
    /// and only pixels of that grid are ever on.
    pub proof fn lemma_geometry(&self)
        ensures
            self.screen().width == WIDTH,
            self.screen().height == HEIGHT,
            self.screen().wf(),
    {
    }

    // Where the pixel that (x, y) names is stored.
    fn offset(x: ByteVal, y: ByteVal) -> (off: usize)
        ensures
            off == (y as int % 32) * 64 + (x as int % 64),
            off < PIXELS,
    {
        (y as usize % HEIGHT) * WIDTH + (x as usize % WIDTH)
    }
}

impl DisplayInterface for DisplayBuffer {
    closed spec fn screen(&self) -> Screen {
        Screen {
            width: WIDTH as nat,
            height: HEIGHT as nat,
            lit: Set::new(
                |p: (int, int)|
                    0 <= p.0 < WIDTH && 0 <= p.1 < HEIGHT && self.mem@[p.1 * 64 + p.0] != 0,
            ),
        }
    }

    fn dimensions(&self) -> (d: (usize, usize)) {
        (WIDTH, HEIGHT)
    }

    fn clear(&mut self) {
        self.mem = DisplayBuffer::blank_pixels();
        assert(self.screen().lit =~= Set::empty());
    }

    fn read_pixel(&self, x: ByteVal, y: ByteVal) -> (val: ByteVal) {
        let off: usize = DisplayBuffer::offset(x, y);
        if self.mem[off] != 0 {
            1
        } else {
            0
        }
    }

    fn write_pixel(&mut self, x: ByteVal, y: ByteVal, val: ByteVal) {
        let off: usize = DisplayBuffer::offset(x, y);
        self.mem[off] = if val == 0 {
            0
        } else {
            1
        };
        assert(self.screen().lit =~= old(self).screen().put(x as int, y as int, val != 0).lit);
    }

    fn write_pixel_xor(&mut self, x: ByteVal, y: ByteVal, val: ByteVal) -> (cleared: bool) {
        let off: usize = DisplayBuffer::offset(x, y);
        let was_lit: bool = self.mem[off] != 0;
        let bit: bool = val != 0;
        let cleared: bool = was_lit && bit;
        self.mem[off] = if was_lit != bit {
            1
        } else {
            0
        };
        assert(self.screen().lit =~= old(self).screen().toggle(x as int, y as int, bit).lit);
        cleared
    }

    fn write_pixel_row_xor(&mut self, x: ByteVal, y: ByteVal, rowval: ByteVal) -> (cleared: bool) {
        let ghost before = self.screen();
        let mut cleared: bool = false;
        let mut i: ByteVal = 0;
        while i < 8
            invariant
                i <= 8,
                before.width == WIDTH,
                before.height == HEIGHT,
                self.screen() == before.xor_bits(x as int, y as int, rowval, i as nat),
                cleared == before.bits_erase(x as int, y as int, rowval, i as nat),
            decreases 8 - i,
        {
            let ghost shown = self.screen();
            let bit: ByteVal = (rowval >> (7 - i)) & 1;
            assert((bit != 0) == row_bit(rowval, i as int)) by {
                let s: ByteVal = (7 - i) as ByteVal;
                assert(((rowval >> s) & 1 != 0) == ((rowval >> s) & 1 == 1)) by (bit_vector);
            }
            let pixel_cleared: bool = self.write_pixel_xor(x.wrapping_add(i), y, bit);
            assert(shown.cell(x.wrapping_add(i) as int, y as int) == shown.cell(x + i, y as int));
            cleared = cleared || pixel_cleared;
            i += 1;
        }
        cleared
    }
}

} // verus!
