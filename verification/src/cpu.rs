//! The processor: its registers, the fetch of an instruction word and the
//! execution of each instruction.

use vstd::prelude::*;
use crate::interfaces::{
    DisplayInterface, KeyboardInterface, MemoryInterface, first_pressed, key_down,
};
use crate::machine::{
    CpuState, Fault, Machine, executable, execute, fault_of, fetchable, fetched, in_memory,
    loaded_regs, sprite_at, steppable, stored_bcd, stored_regs, word_at_pc,
};
use crate::opcode::{OpCode, OpVal, decode, decode_op};
use crate::types::{
    Addr, ByteVal, PROG_START_ADDR, RegNum, TimerVal, add16, add8, sub16, sub8,
};

verus! {

/// The processor. Memory, display and keypad are handed to each operation
/// that needs them.
pub struct CPU {
    pc: Addr,
    vreg: [ByteVal; 16],
    ireg: Addr,
    dt: TimerVal,
    st: TimerVal,
    stack: Vec<Addr>,
}

impl View for CPU {
    type V = CpuState;

    closed spec fn view(&self) -> CpuState {
        CpuState {
            pc: self.pc,
            v: self.vreg@,
            i: self.ireg,
            dt: self.dt,
            st: self.st,
            stack: self.stack@,
        }
    }
}

/// A byte from the thread-local generator of the `rand` crate, through
/// `rand::random::<u8>()`. Nothing is claimed of the byte: any value may
/// come back, and two calls may differ. The call panics where the
/// generator of the thread cannot be seeded from the operating system.
#[verifier::external_body]
fn random_byte() -> (b: ByteVal) {
    rand::random::<u8>()
}

impl CPU {
    /// A processor that has just been switched on: the program counter at
    /// the start of the program area, everything else zero or empty.
    pub fn new() -> (cpu: CPU)
        ensures
            cpu@ == CpuState::initial(),
    {
        let cpu = CPU {
            pc: PROG_START_ADDR,
            vreg: [0u8;16],
            ireg: 0,
            dt: 0,
            st: 0,
            stack: Vec::new(),
        };
        assert(cpu@.v =~= CpuState::initial().v);
        cpu
    }

    /// The model of any processor has sixteen registers.
    pub proof fn lemma_wf(&self)
        ensures
            self@.wf(),
    {
    }

    /// The program counter.
    pub fn pc(&self) -> (pc: Addr)
        ensures
            pc == self@.pc,
    {
        self.pc
    }

    /// The address register.
    pub fn ireg(&self) -> (i: Addr)
        ensures
            i == self@.i,
    {
        self.ireg
    }

    /// The delay timer.
    pub fn delay_timer(&self) -> (dt: TimerVal)
        ensures
            dt == self@.dt,
    {
        self.dt
    }

    /// The sound timer.
    pub fn sound_timer(&self) -> (st: TimerVal)
        ensures
            st == self@.st,
    {
        self.st
    }

    /// The number of subroutines being run.
    pub fn stack_depth(&self) -> (depth: usize)
        ensures
            depth == self@.stack.len(),
    {
        self.stack.len()
    }

    fn set_pc(&mut self, addr: Addr)
        ensures
            final(self)@ == old(self)@.with_pc(addr),
    {
        self.pc = addr;
    }

    fn incr_pc(&mut self)
        ensures
            final(self)@ == old(self)@.with_pc(add16(old(self)@.pc as int, 2)),
    {
        self.pc = self.pc.wrapping_add(2);
    }

    /// Whether an instruction word can be fetched from a memory of
    /// `mem_size` bytes.
    pub fn can_fetch(&self, mem_size: usize) -> (ok: bool)
        ensures
            ok == fetchable(self@, mem_size as nat),
    {
        self.pc < 0xFFFF && (self.pc as usize) + 1 < mem_size
    }

    /// Reads the instruction word at the program counter and moves the
    /// program counter past it. Returns the word and the address that it
    /// was read from.
    pub fn fetch_op<M: MemoryInterface>(&mut self, mem: &M) -> (fetched_op: (OpVal, Addr))
        requires
            fetchable(old(self)@, mem.contents().len()),
        ensures
            fetched_op.0@ == word_at_pc(old(self)@, mem.contents()),
            fetched_op.1 == old(self)@.pc,
            final(self)@ == fetched(old(self)@),
    {
        let b0: ByteVal = mem.read_byte(self.pc);
        let b1: ByteVal = mem.read_byte(self.pc + 1);
        let pc: Addr = self.pc;
        self.incr_pc();
        (OpVal::from_bytes(b0, b1), pc)
    }

    /// The value of register `regnum`.
    pub fn read_reg(&self, regnum: RegNum) -> (val: ByteVal)
        requires
            regnum < 16,
        ensures
            val == self@.v[regnum as int],
    {
        self.vreg[regnum]
    }

    /// Stores `val` in register `regnum`.
    pub fn write_reg(&mut self, regnum: RegNum, val: ByteVal)
        requires
            regnum < 16,
        ensures
            final(self)@ == old(self)@.with_reg(regnum as int, val),
    {
        self.vreg[regnum] = val;
        assert(self@.v =~= old(self)@.v.update(regnum as int, val));
    }

    // Call into the host machine's native code: reported, nothing done.
    fn op_sys(&mut self, addr: Addr) -> (fault: Fault)
        ensures
            final(self)@ == old(self)@,
            fault == Fault::UnsupportedSys,
    {
        Fault::UnsupportedSys
    }

    // Clear the display.
    fn op_cls<D: DisplayInterface>(&mut self, display: &mut D)
        ensures
            final(self)@ == old(self)@,
            final(display).screen() == old(display).screen().cleared(),
    {
        display.clear();
    }

    // Return from a subroutine.
    fn op_ret(&mut self) -> (fault: Option<Fault>)
        ensures
            old(self)@.stack.len() == 0 ==> final(self)@ == old(self)@ && fault == Some(
                Fault::StackUnderflow,
            ),
            old(self)@.stack.len() > 0 ==> fault.is_none() && final(self)@ == (CpuState {
                pc: old(self)@.stack.last(),
                stack: old(self)@.stack.drop_last(),
                ..old(self)@
            }),
    {
        match self.stack.pop() {
            Some(addr) => {
                self.set_pc(addr);
                None
            },
            None => Some(Fault::StackUnderflow),
        }
    }

    // Jump to addr.
    fn op_jp(&mut self, addr: Addr)
        ensures
            final(self)@ == old(self)@.with_pc(addr),
    {
        self.pc = addr;
    }

    // Jump to addr plus register 0.
    fn op_jp_rel(&mut self, addr: Addr)
        ensures
            final(self)@ == old(self)@.with_pc(add16(old(self)@.v[0] as int, addr as int)),
    {
        let base: Addr = self.vreg[0] as Addr;
        self.pc = base.wrapping_add(addr);
    }

    // Call the subroutine at addr.
    fn op_call(&mut self, addr: Addr)
        ensures
            final(self)@ == (CpuState {
                pc: addr,
                stack: old(self)@.stack.push(old(self)@.pc),
                ..old(self)@
            }),
    {
        self.stack.push(self.pc);
        self.pc = addr;
    }

    // Skip the next instruction if the register equals val.
    fn op_sec(&mut self, vx: RegNum, val: ByteVal)
        requires
            vx < 16,
        ensures
            final(self)@ == old(self)@.skip_if(old(self)@.v[vx as int] == val),
    {
        if self.vreg[vx] == val {
            self.incr_pc();
        }
    }

    // Skip the next instruction if the register differs from val.
    fn op_snec(&mut self, vx: RegNum, val: ByteVal)
        requires
            vx < 16,
        ensures
            final(self)@ == old(self)@.skip_if(old(self)@.v[vx as int] != val),
    {
        if self.vreg[vx] != val {
            self.incr_pc();
        }
    }

    // Skip the next instruction if the two registers are equal.
    fn op_se(&mut self, vx: RegNum, vy: RegNum)
        requires
            vx < 16,
            vy < 16,
        ensures
            final(self)@ == old(self)@.skip_if(old(self)@.v[vx as int] == old(self)@.v[vy as int]),
    {
        if self.vreg[vx] == self.vreg[vy] {
            self.incr_pc();
        }
    }

    // Skip the next instruction if the two registers differ.
    fn op_sne(&mut self, vx: RegNum, vy: RegNum)
        requires
            vx < 16,
            vy < 16,
        ensures
            final(self)@ == old(self)@.skip_if(old(self)@.v[vx as int] != old(self)@.v[vy as int]),
    {
        if self.vreg[vx] != self.vreg[vy] {
            self.incr_pc();
        }
    }

    // Load the register with val.
    fn op_ldc(&mut self, vx: RegNum, val: ByteVal)
        requires
            vx < 16,
        ensures
            final(self)@ == old(self)@.with_reg(vx as int, val),
    {
        self.write_reg(vx, val);
    }

    // Load the register from another register.
    fn op_ld(&mut self, vx: RegNum, vy: RegNum)
        requires
            vx < 16,
            vy < 16,
        ensures
            final(self)@ == old(self)@.with_reg(vx as int, old(self)@.v[vy as int]),
    {
        let val: ByteVal = self.vreg[vy];
        self.write_reg(vx, val);
    }

    // Load the address register.
    fn op_ldi(&mut self, addr: Addr)
        ensures
            final(self)@ == old(self)@.with_i(addr),
    {
        self.ireg = addr;
    }

    // Load the register from the delay timer.
    fn op_lddt(&mut self, vx: RegNum)
        requires
            vx < 16,
        ensures
            final(self)@ == old(self)@.with_reg(vx as int, old(self)@.dt),
    {
        let val: ByteVal = self.dt;
        self.write_reg(vx, val);
    }

    // Store the register into the delay timer.
    fn op_stdt(&mut self, vx: RegNum)
        requires
            vx < 16,
        ensures
            final(self)@ == (CpuState { dt: old(self)@.v[vx as int], ..old(self)@ }),
    {
        self.dt = self.vreg[vx];
    }

    // Store the register into the sound timer.
    fn op_stst(&mut self, vx: RegNum)
        requires
            vx < 16,
        ensures
            final(self)@ == (CpuState { st: old(self)@.v[vx as int], ..old(self)@ }),
    {
        self.st = self.vreg[vx];
    }

    // Poll the keypad: with a key down, its index goes into the register;
    // with none, the program counter goes back to this instruction.
    fn op_ldtc<K: KeyboardInterface>(&mut self, vx: RegNum, keyboard: &K)
        requires
            vx < 16,
        ensures
            final(self)@ == match first_pressed(keyboard.keys()) {
                Some(key) => old(self)@.with_reg(vx as int, key),
                None => old(self)@.with_pc(sub16(old(self)@.pc as int, 2)),
            },
    {
        match keyboard.wait_for_key() {
            Some(key) => {
                self.write_reg(vx, key);
            },
            None => {
                self.pc = self.pc.wrapping_sub(2);
            },
        }
    }

    // Point the address register at the glyph of the digit in the register.
    fn op_ldsprt(&mut self, vx: RegNum)
        requires
            vx < 16,
        ensures
            final(self)@ == old(self)@.with_i((old(self)@.v[vx as int] * 5) as Addr),
    {
        let digit: Addr = self.vreg[vx] as Addr;
        self.ireg = digit * 5;
    }

    // Store the decimal digits of the register at the address register.
    fn op_stbcd<M: MemoryInterface>(&mut self, vx: RegNum, mem: &mut M)
        requires
            vx < 16,
            in_memory(old(self)@.i + 2, old(mem).contents().len()),
        ensures
            final(self)@ == old(self)@,
            final(mem).contents() == stored_bcd(
                old(mem).contents(),
                old(self)@.i as int,
                old(self)@.v[vx as int],
            ),
    {
        let v: ByteVal = self.vreg[vx];
        mem.write_byte(self.ireg, v / 100);
        mem.write_byte(self.ireg + 1, (v / 10) % 10);
        mem.write_byte(self.ireg + 2, v % 10);
    }

    // Load registers 0 to vx from memory at the address register.
    fn op_ldall<M: MemoryInterface>(&mut self, vx: RegNum, mem: &M)
        requires
            vx < 16,
            in_memory(old(self)@.i + vx, mem.contents().len()),
        ensures
            final(self)@ == (CpuState {
                v: loaded_regs(old(self)@, mem.contents(), vx as int),
                ..old(self)@
            }),
    {
        let mut i: usize = 0;
        assert(self@.v =~= loaded_regs(old(self)@, mem.contents(), -1));
        while i <= vx
            invariant
                vx < 16,
                i <= vx + 1,
                in_memory(old(self)@.i + vx, mem.contents().len()),
                self@ == (CpuState {
                    v: loaded_regs(old(self)@, mem.contents(), i - 1),
                    ..old(self)@
                }),
            decreases vx + 1 - i,
        {
            let val: ByteVal = mem.read_byte(self.ireg + i as Addr);
            self.vreg[i] = val;
            assert(self@.v =~= loaded_regs(old(self)@, mem.contents(), i as int));
            i += 1;
        }
    }

    // Store registers 0 to vx to memory at the address register.
    fn op_stall<M: MemoryInterface>(&mut self, vx: RegNum, mem: &mut M)
        requires
            vx < 16,
            in_memory(old(self)@.i + vx, old(mem).contents().len()),
        ensures
            final(self)@ == old(self)@,
            final(mem).contents() == stored_regs(old(self)@, old(mem).contents(), vx as int),
    {
        let mut i: usize = 0;
        assert(mem.contents() =~= stored_regs(old(self)@, old(mem).contents(), -1));
        while i <= vx
            invariant
                vx < 16,
                i <= vx + 1,
                self@ == old(self)@,
                mem.contents().len() == old(mem).contents().len(),
                in_memory(self@.i + vx, mem.contents().len()),
                mem.contents() == stored_regs(old(self)@, old(mem).contents(), i - 1),
            decreases vx + 1 - i,
        {
            mem.write_byte(self.ireg + i as Addr, self.vreg[i]);
            assert(mem.contents() =~= stored_regs(old(self)@, old(mem).contents(), i as int));
            i += 1;
        }
    }

    // vx <- vx | vy
    fn op_or(&mut self, vx: RegNum, vy: RegNum)
        requires
            vx < 16,
            vy < 16,
        ensures
            final(self)@ == old(self)@.with_reg(
                vx as int,
                old(self)@.v[vx as int] | old(self)@.v[vy as int],
            ),
    {
        let a: ByteVal = self.vreg[vx];
        let b: ByteVal = self.vreg[vy];
        self.write_reg(vx, a | b);
    }

    // vx <- vx & vy
    fn op_and(&mut self, vx: RegNum, vy: RegNum)
        requires
            vx < 16,
            vy < 16,
        ensures
            final(self)@ == old(self)@.with_reg(
                vx as int,
                old(self)@.v[vx as int] & old(self)@.v[vy as int],
            ),
    {
        let a: ByteVal = self.vreg[vx];
        let b: ByteVal = self.vreg[vy];
        self.write_reg(vx, a & b);
    }

    // vx <- vx ^ vy
    fn op_xor(&mut self, vx: RegNum, vy: RegNum)
        requires
            vx < 16,
            vy < 16,
        ensures
            final(self)@ == old(self)@.with_reg(
                vx as int,
                old(self)@.v[vx as int] ^ old(self)@.v[vy as int],
            ),
    {
        let a: ByteVal = self.vreg[vx];
        let b: ByteVal = self.vreg[vy];
        self.write_reg(vx, a ^ b);
    }

    // The flag takes the bit shifted out, then vx <- vx >> 1.
    fn op_shr(&mut self, vx: RegNum)
        requires
            vx < 16,
        ensures
            ({
                let flagged = old(self)@.with_reg(15, old(self)@.v[vx as int] & 1);
                final(self)@ == flagged.with_reg(vx as int, flagged.v[vx as int] >> 1)
            }),
    {
        let low: ByteVal = self.vreg[vx] & 1;
        self.write_reg(0xf, low);
        let val: ByteVal = self.vreg[vx];
        self.write_reg(vx, val >> 1);
    }

    // The flag takes the bit shifted out, then vx <- vx << 1.
    fn op_shl(&mut self, vx: RegNum)
        requires
            vx < 16,
        ensures
            ({
                let flagged = old(self)@.with_reg(15, old(self)@.v[vx as int] >> 7);
                final(self)@ == flagged.with_reg(vx as int, flagged.v[vx as int] << 1)
            }),
    {
        let high: ByteVal = self.vreg[vx] >> 7;
        self.write_reg(0xf, high);
        let val: ByteVal = self.vreg[vx];
        self.write_reg(vx, val << 1);
    }

    // vx <- vx + val
    fn op_addc(&mut self, vx: RegNum, val: ByteVal)
        requires
            vx < 16,
        ensures
            final(self)@ == old(self)@.with_reg(
                vx as int,
                add8(old(self)@.v[vx as int] as int, val as int),
            ),
    {
        let a: ByteVal = self.vreg[vx];
        self.write_reg(vx, a.wrapping_add(val));
    }

    // vx <- vx + vy
    fn op_add(&mut self, vx: RegNum, vy: RegNum)
        requires
            vx < 16,
            vy < 16,
        ensures
            final(self)@ == old(self)@.with_reg(
                vx as int,
                add8(old(self)@.v[vx as int] as int, old(self)@.v[vy as int] as int),
            ),
    {
        let a: ByteVal = self.vreg[vx];
        let b: ByteVal = self.vreg[vy];
        self.write_reg(vx, a.wrapping_add(b));
    }

    // The address register takes itself plus vx.
    fn op_addi(&mut self, vx: RegNum)
        requires
            vx < 16,
        ensures
            final(self)@ == old(self)@.with_i(
                add16(old(self)@.i as int, old(self)@.v[vx as int] as int),
            ),
    {
        let a: Addr = self.vreg[vx] as Addr;
        self.ireg = self.ireg.wrapping_add(a);
    }

    // vx <- vx - vy
    fn op_sub(&mut self, vx: RegNum, vy: RegNum)
        requires
            vx < 16,
            vy < 16,
        ensures
            final(self)@ == old(self)@.with_reg(
                vx as int,
                sub8(old(self)@.v[vx as int] as int, old(self)@.v[vy as int] as int),
            ),
    {
        let a: ByteVal = self.vreg[vx];
        let b: ByteVal = self.vreg[vy];
        self.write_reg(vx, a.wrapping_sub(b));
    }

    // vx <- vy - vx
    fn op_subn(&mut self, vx: RegNum, vy: RegNum)
        requires
            vx < 16,
            vy < 16,
        ensures
            final(self)@ == old(self)@.with_reg(
                vx as int,
                sub8(old(self)@.v[vy as int] as int, old(self)@.v[vx as int] as int),
            ),
    {
        let a: ByteVal = self.vreg[vx];
        let b: ByteVal = self.vreg[vy];
        self.write_reg(vx, b.wrapping_sub(a));
    }

    // vx <- random & val
    fn op_rnd(&mut self, vx: RegNum, val: ByteVal, random: ByteVal)
        requires
            vx < 16,
        ensures
            final(self)@ == old(self)@.with_reg(vx as int, random & val),
    {
        self.write_reg(vx, random & val);
    }

    // Draw the sprite of val rows at the address register onto the display
    // at the position held in vx and vy; the flag tells whether a pixel
    // went off.
    fn op_drw<M: MemoryInterface, D: DisplayInterface>(
        &mut self,
        vx: RegNum,
        vy: RegNum,
        val: ByteVal,
        mem: &M,
        display: &mut D,
    )
        requires
            vx < 16,
            vy < 16,
            val < 16,
            val == 0 || in_memory(old(self)@.i + val - 1, mem.contents().len()),
        ensures
            ({
                let cpu = old(self)@;
                let sprite = sprite_at(cpu, mem.contents(), val as int);
                let x = cpu.v[vx as int];
                let y = cpu.v[vy as int];
                &&& final(display).screen() == old(display).screen().draw(x, y, sprite)
                &&& final(self)@ == cpu.with_reg(
                    15,
                    if old(display).screen().draw_erases(x, y, sprite) {
                        1u8
                    } else {
                        0u8
                    },
                )
            }),
    {
        let x: ByteVal = self.vreg[vx];
        let y: ByteVal = self.vreg[vy];
        let ghost cpu = self@;
        let ghost before = display.screen();
        let ghost sprite = sprite_at(cpu, mem.contents(), val as int);
        self.write_reg(0xf, 0);
        let mut i: ByteVal = 0;
        while i < val
            invariant
                i <= val < 16,
                cpu.wf(),
                val == 0 || in_memory(cpu.i + val - 1, mem.contents().len()),
                sprite == sprite_at(cpu, mem.contents(), val as int),
                display.screen() == before.draw_rows(x, y, sprite, i as nat),
                self@ == cpu.with_reg(
                    15,
                    if before.rows_erase(x, y, sprite, i as nat) {
                        1u8
                    } else {
                        0u8
                    },
                ),
            decreases val - i,
        {
            let rowval: ByteVal = mem.read_byte(self.ireg + i as Addr);
            let ghost shown = display.screen();
            let cleared: bool = display.write_pixel_row_xor(x, y.wrapping_add(i), rowval);
            if cleared {
                self.write_reg(0xf, 1);
            }
            assert(before.rows_erase(x, y, sprite, (i + 1) as nat) == (before.rows_erase(
                x,
                y,
                sprite,
                i as nat,
            ) || shown.row_erases(x as int, add8(y as int, i as int) as int, sprite[i as int])));
            assert(self@.v =~= cpu.with_reg(
                15,
                if before.rows_erase(x, y, sprite, (i + 1) as nat) {
                    1u8
                } else {
                    0u8
                },
            ).v);
            i += 1;
        }
    }

    // Skip the next instruction if the key named by the register is down.
    fn op_skp<K: KeyboardInterface>(&mut self, vx: RegNum, keyboard: &K)
        requires
            vx < 16,
        ensures
            final(self)@ == old(self)@.skip_if(
                key_down(keyboard.keys(), old(self)@.v[vx as int] as int),
            ),
    {
        let key: ByteVal = self.vreg[vx];
        if key < 16 && keyboard.key_pressed(key) {
            self.incr_pc();
        }
    }

    // Skip the next instruction if the key named by the register is up.
    fn op_sknp<K: KeyboardInterface>(&mut self, vx: RegNum, keyboard: &K)
        requires
            vx < 16,
        ensures
            final(self)@ == old(self)@.skip_if(
                !key_down(keyboard.keys(), old(self)@.v[vx as int] as int),
            ),
    {
        let key: ByteVal = self.vreg[vx];
        if !(key < 16 && keyboard.key_pressed(key)) {
            self.incr_pc();
        }
    }

    // A word that is no instruction: reported, nothing done.
    fn op_undef(&mut self) -> (fault: Fault)
        ensures
            final(self)@ == old(self)@,
            fault == Fault::UnknownInstruction,
    {
        Fault::UnknownInstruction
    }

    /// Whether `op` can be executed on a memory of `mem_size` bytes.
    pub fn can_execute(&self, op: OpCode, mem_size: usize) -> (ok: bool)
        ensures
            ok == executable(self@, op, mem_size as nat),
    {
        let i: usize = self.ireg as usize;
        match op {
            OpCode::Stbcd(_) => i + 2 <= 0xFFFF && i + 2 < mem_size,
            OpCode::Ldall(x) => x <= 0xFFFF && i + x <= 0xFFFF && i + x < mem_size,
            OpCode::Stall(x) => x <= 0xFFFF && i + x <= 0xFFFF && i + x < mem_size,
            OpCode::Drw(_, _, n) => n == 0 || (i + n as usize - 1 <= 0xFFFF && i + n as usize - 1
                < mem_size),
            _ => true,
        }
    }

    /// Whether one whole cycle can run on `mem`: fetch, decode and execute.
    pub fn can_step<M: MemoryInterface>(&self, mem: &M) -> (ok: bool)
        ensures
            ok == steppable(self@, mem.contents()),
    {
        let mem_size: usize = mem.size();
        if !self.can_fetch(mem_size) {
            return false;
        }
        let b0: ByteVal = mem.read_byte(self.pc);
        let b1: ByteVal = mem.read_byte(self.pc + 1);
        let op: OpCode = decode_op(OpVal::from_bytes(b0, b1));
        self.can_execute(op, mem_size)
    }

    /// Executes `op`, with `random` as the byte that the random source
    /// hands out. Returns what the instruction reports, if anything.
    pub fn execute_op<M: MemoryInterface, D: DisplayInterface, K: KeyboardInterface>(
        &mut self,
        op: OpCode,
        random: ByteVal,
        mem: &mut M,
        display: &mut D,
        keyboard: &K,
    ) -> (fault: Option<Fault>)
        requires
            op.wf(),
            executable(old(self)@, op, old(mem).contents().len()),
        ensures
            (Machine {
                cpu: final(self)@,
                mem: final(mem).contents(),
                screen: final(display).screen(),
            }) == execute(
                Machine {
                    cpu: old(self)@,
                    mem: old(mem).contents(),
                    screen: old(display).screen(),
                },
                op,
                keyboard.keys(),
                random,
            ),
            fault == fault_of(old(self)@, op),
    {
        match op {
            OpCode::Undefined => Some(self.op_undef()),
            OpCode::Sys(addr) => Some(self.op_sys(addr)),
            OpCode::Cls => {
                self.op_cls(display);
                None
            },
            OpCode::Ret => self.op_ret(),
            OpCode::Jp(addr) => {
                self.op_jp(addr);
                None
            },
            OpCode::JpRel(addr) => {
                self.op_jp_rel(addr);
                None
            },
            OpCode::Call(addr) => {
                self.op_call(addr);
                None
            },
            OpCode::Sec(x, kk) => {
                self.op_sec(x, kk);
                None
            },
            OpCode::Snec(x, kk) => {
                self.op_snec(x, kk);
                None
            },
            OpCode::Se(x, y) => {
                self.op_se(x, y);
                None
            },
            OpCode::Sne(x, y) => {
                self.op_sne(x, y);
                None
            },
            OpCode::Ldc(x, kk) => {
                self.op_ldc(x, kk);
                None
            },
            OpCode::Ld(x, y) => {
                self.op_ld(x, y);
                None
            },
            OpCode::Ldi(addr) => {
                self.op_ldi(addr);
                None
            },
            OpCode::Lddt(x) => {
                self.op_lddt(x);
                None
            },
            OpCode::Stdt(x) => {
                self.op_stdt(x);
                None
            },
            OpCode::Stst(x) => {
                self.op_stst(x);
                None
            },
            OpCode::Ldtc(x) => {
                self.op_ldtc(x, keyboard);
                None
            },
            OpCode::Ldsprt(x) => {
                self.op_ldsprt(x);
                None
            },
            OpCode::Stbcd(x) => {
                self.op_stbcd(x, mem);
                None
            },
            OpCode::Ldall(x) => {
                self.op_ldall(x, mem);
                None
            },
            OpCode::Stall(x) => {
                self.op_stall(x, mem);
                None
            },
            OpCode::Or(x, y) => {
                self.op_or(x, y);
                None
            },
            OpCode::And(x, y) => {
                self.op_and(x, y);
                None
            },
            OpCode::Xor(x, y) => {
                self.op_xor(x, y);
                None
            },
            OpCode::Shr(x) => {
                self.op_shr(x);
                None
            },
            OpCode::Shl(x) => {
                self.op_shl(x);
                None
            },
            OpCode::Addc(x, kk) => {
                self.op_addc(x, kk);
                None
            },
            OpCode::Add(x, y) => {
                self.op_add(x, y);
                None
            },
            OpCode::Addi(x) => {
                self.op_addi(x);
                None
            },
            OpCode::Sub(x, y) => {
                self.op_sub(x, y);
                None
            },
            OpCode::Subn(x, y) => {
                self.op_subn(x, y);
                None
            },
            OpCode::Rnd(x, kk) => {
                self.op_rnd(x, kk, random);
                None
            },
            OpCode::Drw(x, y, n) => {
                self.op_drw(x, y, n, mem, display);
                None
            },
            OpCode::Skp(x) => {
                self.op_skp(x, keyboard);
                None
            },
            OpCode::Sknp(x) => {
                self.op_sknp(x, keyboard);
                None
            },
        }
    }

    /// Decodes `opval` and executes the instruction. A random instruction
    /// takes its byte from the random source. Returns what the instruction
    /// reports, if anything.
    pub fn decode_and_execute_op<M: MemoryInterface, D: DisplayInterface, K: KeyboardInterface>(
        &mut self,
        opval: OpVal,
        mem: &mut M,
        display: &mut D,
        keyboard: &K,
    ) -> (fault: Option<Fault>)
        requires
            executable(old(self)@, decode(opval@), old(mem).contents().len()),
        ensures
            exists|random: ByteVal|
                (Machine {
                    cpu: final(self)@,
                    mem: final(mem).contents(),
                    screen: final(display).screen(),
                }) == #[trigger] execute(
                    Machine {
                        cpu: old(self)@,
                        mem: old(mem).contents(),
                        screen: old(display).screen(),
                    },
                    decode(opval@),
                    keyboard.keys(),
                    random,
                ),
            !(decode(opval@) is Rnd) ==> (Machine {
                cpu: final(self)@,
                mem: final(mem).contents(),
                screen: final(display).screen(),
            }) == execute(
                Machine {
                    cpu: old(self)@,
                    mem: old(mem).contents(),
                    screen: old(display).screen(),
                },
                decode(opval@),
                keyboard.keys(),
                0,
            ),
            fault == fault_of(old(self)@, decode(opval@)),
    {
        let op: OpCode = decode_op(opval);
        let random: ByteVal = match op {
            OpCode::Rnd(_, _) => random_byte(),
            _ => 0,
        };
        self.execute_op(op, random, mem, display, keyboard)
    }

    /// One timer tick: the delay and the sound timer each go down by one
    /// and stop at zero.
    pub fn decrement_timers(&mut self)
        ensures
            final(self)@ == old(self)@.ticked(),
    {
        if self.dt > 0 {
            self.dt -= 1;
        }
        if self.st > 0 {
            self.st -= 1;
        }
    }
}

} // verus!
