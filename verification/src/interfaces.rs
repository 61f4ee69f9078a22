//! The three interfaces through which the processor reaches the rest of the
//! machine: memory, display and keypad.

use vstd::prelude::*;
use crate::screen::Screen;
use crate::types::{Addr, ByteVal};

verus! {

/// The lowest key at or above `from` that is down, if there is one.
pub open spec fn first_pressed_from(keys: Seq<bool>, from: int) -> Option<ByteVal>
    decreases 16 - from,
{
    if from < 0 || from >= 16 {
        None
    } else if keys[from] {
        Some(from as ByteVal)
    } else {
        first_pressed_from(keys, from + 1)
    }
}

/// The lowest key that is down, if there is one.
pub open spec fn first_pressed(keys: Seq<bool>) -> Option<ByteVal> {
    first_pressed_from(keys, 0)
}

/// Whether `key` names a key of the keypad and that key is down.
pub open spec fn key_down(keys: Seq<bool>, key: int) -> bool {
    0 <= key < 16 && keys[key]
}

/// A byte-addressable store.
pub trait MemoryInterface {
    /// The bytes held, by address.
    spec fn contents(&self) -> Seq<ByteVal>;

    /// The number of bytes held.
    fn size(&self) -> (n: usize)
        ensures
            n == self.contents().len(),
    ;

    /// The byte at `addr`.
    fn read_byte(&self, addr: Addr) -> (val: ByteVal)
        requires
            addr < self.contents().len(),
        ensures
            val == self.contents()[addr as int],
    ;

    /// Stores `val` at `addr` and touches no other byte.
    fn write_byte(&mut self, addr: Addr, val: ByteVal)
        requires
            addr < old(self).contents().len(),
        ensures
            final(self).contents() == old(self).contents().update(addr as int, val),
    ;
}

/// A monochrome display surface. Coordinates wrap around at its edges.
pub trait DisplayInterface {
    /// The grid shown.
    spec fn screen(&self) -> Screen;

    /// Width and height of the grid, in pixels.
    fn dimensions(&self) -> (d: (usize, usize))
        ensures
            d.0 == self.screen().width,
            d.1 == self.screen().height,
    ;

    /// Switches every pixel off.
    fn clear(&mut self)
        ensures
            final(self).screen() == old(self).screen().cleared(),
    ;

    /// The pixel at `(x, y)`: 1 if it is on, 0 if it is off.
    fn read_pixel(&self, x: ByteVal, y: ByteVal) -> (val: ByteVal)
        ensures
            val == if self.screen().is_lit(x as int, y as int) { 1u8 } else { 0u8 },
    ;

    /// Switches the pixel at `(x, y)` on if `val` is nonzero, off if it is 0.
    fn write_pixel(&mut self, x: ByteVal, y: ByteVal, val: ByteVal)
        ensures
            final(self).screen() == old(self).screen().put(x as int, y as int, val != 0),
    ;

    /// Inverts the pixel at `(x, y)` if `val` is nonzero. Returns whether
    /// that switched the pixel off.
    fn write_pixel_xor(&mut self, x: ByteVal, y: ByteVal, val: ByteVal) -> (cleared: bool)
        ensures
            final(self).screen() == old(self).screen().toggle(x as int, y as int, val != 0),
            cleared == old(self).screen().erases(x as int, y as int, val != 0),
    ;

    /// Combines the eight bits of `rowval`, most significant first, by
    /// exclusive or into the eight pixels that start at `(x, y)` and run to
    /// the right. Returns whether that switched any pixel off.
    fn write_pixel_row_xor(&mut self, x: ByteVal, y: ByteVal, rowval: ByteVal) -> (cleared: bool)
        ensures
            final(self).screen() == old(self).screen().xor_row(x as int, y as int, rowval),
            cleared == old(self).screen().row_erases(x as int, y as int, rowval),
    ;
}

/// The state of the sixteen keys.
pub trait KeyboardInterface {
    /// For each key, by index, whether it is down. Indices at or above 16
    /// are not looked at.
    spec fn keys(&self) -> Seq<bool>;

    /// Whether `key` is down.
    fn key_pressed(&self, key: ByteVal) -> (pressed: bool)
        requires
            key < 16,
        ensures
            pressed == self.keys()[key as int],
    ;

    /// Polls the keypad once, without blocking: the lowest key that is down,
    /// or `None` while no key is down.
    fn wait_for_key(&self) -> (key: Option<ByteVal>)
        ensures
            key == first_pressed(self.keys()),
    ;
}

} // verus!
