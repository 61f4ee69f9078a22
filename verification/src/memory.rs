//! Main memory: a flat store of bytes that starts out holding the font.

use vstd::prelude::*;
use crate::interfaces::MemoryInterface;
use crate::types::{Addr, ByteVal, MEM_SIZE, PROG_START_ADDR};

verus! {

/// Number of bytes in the font table: sixteen glyphs of five bytes.
pub const FONT_SIZE: usize = 80;

/// The sprites of the hexadecimal digits `0` to `F`, five bytes each, in
/// the order of the digits.
pub const FONT: [ByteVal; 80] = [
    0xF0, 0x90, 0x90, 0x90, 0xF0,
    0x20, 0x60, 0x20, 0x20, 0x70,
    0xF0, 0x10, 0xF0, 0x80, 0xF0,
    0xF0, 0x10, 0xF0, 0x10, 0xF0,
    0x90, 0x90, 0xF0, 0x10, 0x10,
    0xF0, 0x80, 0xF0, 0x10, 0xF0,
    0xF0, 0x80, 0xF0, 0x90, 0xF0,
    0xF0, 0x10, 0x20, 0x40, 0x40,
    0xF0, 0x90, 0xF0, 0x90, 0xF0,
    0xF0, 0x90, 0xF0, 0x10, 0xF0,
    0xF0, 0x90, 0xF0, 0x90, 0x90,
    0xE0, 0x90, 0xE0, 0x90, 0xE0,
    0xF0, 0x80, 0x80, 0x80, 0xF0,
    0xE0, 0x90, 0x90, 0x90, 0xE0,
    0xF0, 0x80, 0xF0, 0x80, 0xF0,
    0xF0, 0x80, 0xF0, 0x80, 0x80,
];

/// The contents of a memory that has just been created: the font at the
/// lowest addresses, zero everywhere else.
pub open spec fn fresh_memory() -> Seq<ByteVal> {
    Seq::new(MEM_SIZE as nat, |a: int| if a < FONT_SIZE { FONT@[a] } else { 0u8 })
}

/// The number of bytes of a program of `program_len` bytes that fit above
/// the program start in a memory of `mem_len` bytes.
pub open spec fn loadable(mem_len: nat, program_len: nat) -> nat {
    if mem_len <= PROG_START_ADDR {
        0
    } else if program_len < mem_len - PROG_START_ADDR {
        program_len
    } else {
        (mem_len - PROG_START_ADDR) as nat
    }
}

/// Memory after `program` is loaded: the bytes of the program that fit
/// stand at the program start, every other byte is what it was.
pub open spec fn with_program(mem: Seq<ByteVal>, program: Seq<ByteVal>) -> Seq<ByteVal> {
    Seq::new(
        mem.len(),
        |a: int|
            if PROG_START_ADDR <= a < PROG_START_ADDR + loadable(mem.len(), program.len()) {
                program[a - PROG_START_ADDR]
            } else {
                mem[a]
            },
    )
}

/// The machine's memory of 4096 bytes.
pub struct Memory {
    mem: Vec<ByteVal>,
}

impl Memory {
    #[verifier::type_invariant]
    spec fn full_size(self) -> bool {
        self.mem@.len() == MEM_SIZE
    }

    /// A memory that holds the font and is zero everywhere else.
    pub fn new() -> (memory: Memory)
        ensures
            memory.contents() == fresh_memory(),
    {
        let mut mem: Vec<ByteVal> = vec![0u8; MEM_SIZE];
        let mut i: usize = 0;
        while i < FONT_SIZE
            invariant
                i <= FONT_SIZE,
                mem@.len() == MEM_SIZE,
                forall|a: int| 0 <= a < i ==> mem@[a] == FONT@[a],
                forall|a: int| i <= a < MEM_SIZE ==> mem@[a] == 0,
            decreases FONT_SIZE - i,
        {
            mem.set(i, FONT[i]);
            i += 1;
        }
        assert(mem@ =~= fresh_memory());
        Memory { mem }
    }

    /// Copies `program` to the program start. What does not fit is left
    /// out; no byte outside the program area is written. Returns the number
    /// of bytes copied.
    pub fn load_program(&mut self, program: &[ByteVal]) -> (copied: usize)
        ensures
            final(self).contents() == with_program(old(self).contents(), program@),
            copied == loadable(MEM_SIZE as nat, program@.len()),
    {
        proof {
            use_type_invariant(&*self);
        }
        let start: usize = PROG_START_ADDR as usize;
        let room: usize = MEM_SIZE - start;
        let memlen: usize = if program.len() < room {
            program.len()
        } else {
            room
        };
        let mut i: usize = 0;
        while i < memlen
            invariant
                i <= memlen,
                start == PROG_START_ADDR,
                memlen == loadable(MEM_SIZE as nat, program@.len()),
                self.mem@.len() == MEM_SIZE,
                forall|a: int| start <= a < start + i ==> self.mem@[a] == program@[a - start],
                forall|a: int|
                    0 <= a < MEM_SIZE && !(start <= a < start + i) ==> self.mem@[a] == old(
                        self,
                    ).mem@[a],
            decreases memlen - i,
        {
            self.mem[start + i] = program[i];
            i += 1;
        }
        assert(self.mem@ =~= with_program(old(self).mem@, program@));
        memlen
    }
}

impl MemoryInterface for Memory {
    closed spec fn contents(&self) -> Seq<ByteVal> {
        self.mem@
    }

    fn size(&self) -> (n: usize) {
        self.mem.len()
    }

    fn read_byte(&self, addr: Addr) -> (val: ByteVal) {
        self.mem[addr as usize]
    }

    fn write_byte(&mut self, addr: Addr, val: ByteVal) {
        proof {
            use_type_invariant(&*self);
        }
        self.mem[addr as usize] = val;
    }
}

} // verus!
