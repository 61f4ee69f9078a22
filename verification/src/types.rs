//! Scalar types and machine constants shared by every component.

use vstd::prelude::*;

verus! {

/// A memory address, or the value of one of the two 16-bit registers.
pub type Addr = u16;

/// One byte of memory, one general-purpose register, or one pixel value.
pub type ByteVal = u8;

/// The index of a general-purpose register, `0x0` to `0xF`.
pub type RegNum = usize;

/// The value of the delay or the sound timer.
pub type TimerVal = u8;

/// Number of general-purpose registers.
pub const NUM_REGS: usize = 16;

/// Number of keys on the keypad.
pub const NUM_KEYS: usize = 16;

/// Index of the flag register, which shifts and drawing overwrite.
pub const FLAG_REG: usize = 15;

/// Address at which programs are loaded and at which execution starts.
pub const PROG_START_ADDR: Addr = 0x200;

/// Number of bytes in the address space.
pub const MEM_SIZE: usize = 4096;

/// Number of bytes in one font glyph.
pub const GLYPH_SIZE: usize = 5;

/// Width of the display, in pixels.
pub const WIDTH: usize = 64;

/// Height of the display, in pixels.
pub const HEIGHT: usize = 32;

/// Time between two timer ticks in nanoseconds: one sixtieth of a second.
pub const TICK_PERIOD_NANOS: u128 = 16666666;

/// `a + b` reduced to eight bits.
pub open spec fn add8(a: int, b: int) -> ByteVal {
    ((a + b) % 256) as ByteVal
}

/// `a - b` reduced to eight bits.
pub open spec fn sub8(a: int, b: int) -> ByteVal {
    ((a - b) % 256) as ByteVal
}

/// `a + b` reduced to sixteen bits.
pub open spec fn add16(a: int, b: int) -> Addr {
    ((a + b) % 65536) as Addr
}

/// `a - b` reduced to sixteen bits.
pub open spec fn sub16(a: int, b: int) -> Addr {
    ((a - b) % 65536) as Addr
}

} // verus!
