//! The mathematical model of the machine: the state of the processor, of
//! memory and of the display, and what each instruction does to them.

use vstd::prelude::*;
use crate::interfaces::{first_pressed, key_down};
use crate::opcode::{OpCode, decode, nibbles_of};
use crate::screen::Screen;
use crate::types::{Addr, ByteVal, TimerVal, add16, add8, sub16, sub8};

verus! {

/// The registers of the processor.
pub struct CpuState {
    /// The program counter.
    pub pc: Addr,
    /// The sixteen general-purpose registers.
    pub v: Seq<ByteVal>,
    /// The address register.
    pub i: Addr,
    /// The delay timer.
    pub dt: TimerVal,
    /// The sound timer.
    pub st: TimerVal,
    /// The return addresses of the subroutines being run, innermost last.
    pub stack: Seq<Addr>,
}

/// The whole machine as an instruction sees it.
pub struct Machine {
    pub cpu: CpuState,
    pub mem: Seq<ByteVal>,
    pub screen: Screen,
}

/// What an instruction reports to the operator. Execution goes on after
/// each of them.
#[derive(Debug, Clone, Copy, PartialEq, Eq, Structural)]
pub enum Fault {
    /// The instruction word matches no instruction.
    UnknownInstruction,
    /// A return was executed while no subroutine was running.
    StackUnderflow,
    /// A call into the host machine's native code was executed.
    UnsupportedSys,
}

impl Fault {
    /// The line that tells the operator of the fault.
    pub open spec fn text(self) -> Seq<char> {
        match self {
            Fault::UnknownInstruction => "Unknown instruction!"@,
            Fault::StackUnderflow => "Call stack underflow"@,
            Fault::UnsupportedSys => "RCA1802 calls are not supported!"@,
        }
    }

    /// The line that tells the operator of the fault.
    pub fn message(&self) -> (line: String)
        ensures
            line@ == self.text(),
    {
        match self {
            Fault::UnknownInstruction => "Unknown instruction!".to_owned(),
            Fault::StackUnderflow => "Call stack underflow".to_owned(),
            Fault::UnsupportedSys => "RCA1802 calls are not supported!".to_owned(),
        }
    }
}

impl CpuState {
    /// The state of a processor that has just been switched on.
    pub open spec fn initial() -> CpuState {
        CpuState {
            pc: 0x200,
            v: Seq::new(16, |j: int| 0u8),
            i: 0,
            dt: 0,
            st: 0,
            stack: Seq::empty(),
        }
    }

    /// There are sixteen general-purpose registers.
    pub open spec fn wf(self) -> bool {
        self.v.len() == 16
    }

    /// The same state with `val` in register `x`.
    pub open spec fn with_reg(self, x: int, val: ByteVal) -> CpuState {
        CpuState { v: self.v.update(x, val), ..self }
    }

    /// The same state with the program counter at `pc`.
    pub open spec fn with_pc(self, pc: Addr) -> CpuState {
        CpuState { pc, ..self }
    }

    /// The same state with `i` in the address register.
    pub open spec fn with_i(self, i: Addr) -> CpuState {
        CpuState { i, ..self }
    }

    /// The same state, with the program counter moved past one more
    /// instruction if `cond` holds.
    pub open spec fn skip_if(self, cond: bool) -> CpuState {
        if cond {
            self.with_pc(add16(self.pc as int, 2))
        } else {
            self
        }
    }

    /// The state after one timer tick: each timer goes down by one and
    /// stops at zero.
    pub open spec fn ticked(self) -> CpuState {
        CpuState {
            dt: if self.dt > 0 { (self.dt - 1) as TimerVal } else { 0 },
            st: if self.st > 0 { (self.st - 1) as TimerVal } else { 0 },
            ..self
        }
    }
}

/// Whether `addr` is an address of a memory of `len` bytes.
pub open spec fn in_memory(addr: int, len: nat) -> bool {
    0 <= addr < len && addr <= 0xFFFF
}

/// Whether an instruction word can be fetched: both of its bytes lie in
/// memory.
pub open spec fn fetchable(cpu: CpuState, len: nat) -> bool {
    in_memory(cpu.pc + 1, len)
}

/// The state after an instruction word is fetched.
pub open spec fn fetched(cpu: CpuState) -> CpuState {
    cpu.with_pc(add16(cpu.pc as int, 2))
}

/// The nibbles of the instruction word at the program counter.
pub open spec fn word_at_pc(cpu: CpuState, mem: Seq<ByteVal>) -> (ByteVal, ByteVal, ByteVal, ByteVal) {
    nibbles_of(mem[cpu.pc as int], mem[cpu.pc + 1])
}

/// Whether `op` can be executed: every memory access that it makes lies in
/// a memory of `len` bytes.
pub open spec fn executable(cpu: CpuState, op: OpCode, len: nat) -> bool {
    match op {
        OpCode::Stbcd(_) => in_memory(cpu.i + 2, len),
        OpCode::Ldall(x) | OpCode::Stall(x) => in_memory(cpu.i + x, len),
        OpCode::Drw(_, _, n) => n == 0 || in_memory(cpu.i + n - 1, len),
        _ => true,
    }
}

/// The registers after registers 0 to `x` are loaded from `mem` at the
/// address register.
pub open spec fn loaded_regs(cpu: CpuState, mem: Seq<ByteVal>, x: int) -> Seq<ByteVal> {
    Seq::new(16, |j: int| if j <= x { mem[cpu.i + j] } else { cpu.v[j] })
}

/// Memory after registers 0 to `x` are stored at the address register.
pub open spec fn stored_regs(cpu: CpuState, mem: Seq<ByteVal>, x: int) -> Seq<ByteVal> {
    Seq::new(mem.len(), |a: int| if cpu.i <= a <= cpu.i + x { cpu.v[a - cpu.i] } else { mem[a] })
}

/// Memory after the decimal digits of `val` are stored at `at`, hundreds
/// first.
pub open spec fn stored_bcd(mem: Seq<ByteVal>, at: int, val: ByteVal) -> Seq<ByteVal> {
    mem.update(at, val / 100).update(at + 1, (val / 10) % 10).update(at + 2, val % 10)
}

/// The bytes of the sprite that a draw instruction of `n` rows reads.
pub open spec fn sprite_at(cpu: CpuState, mem: Seq<ByteVal>, n: int) -> Seq<ByteVal> {
    Seq::new(n as nat, |j: int| mem[cpu.i + j])
}

/// The machine after `op` is executed. `keys` tells which keys are down and
/// `random` is the byte that the random source hands out.
pub open spec fn execute(m: Machine, op: OpCode, keys: Seq<bool>, random: ByteVal) -> Machine {
    let cpu = m.cpu;
    let v = cpu.v;
    match op {
        OpCode::Undefined => m,
        OpCode::Sys(_) => m,
        OpCode::Cls => Machine { screen: m.screen.cleared(), ..m },
        OpCode::Ret => if cpu.stack.len() == 0 {
            m
        } else {
            Machine {
                cpu: CpuState { pc: cpu.stack.last(), stack: cpu.stack.drop_last(), ..cpu },
                ..m
            }
        },
        OpCode::Jp(addr) => Machine { cpu: cpu.with_pc(addr), ..m },
        OpCode::JpRel(addr) => Machine { cpu: cpu.with_pc(add16(v[0] as int, addr as int)), ..m },
        OpCode::Call(addr) => Machine {
            cpu: CpuState { pc: addr, stack: cpu.stack.push(cpu.pc), ..cpu },
            ..m
        },
        OpCode::Sec(x, kk) => Machine { cpu: cpu.skip_if(v[x as int] == kk), ..m },
        OpCode::Snec(x, kk) => Machine { cpu: cpu.skip_if(v[x as int] != kk), ..m },
        OpCode::Se(x, y) => Machine { cpu: cpu.skip_if(v[x as int] == v[y as int]), ..m },
        OpCode::Sne(x, y) => Machine { cpu: cpu.skip_if(v[x as int] != v[y as int]), ..m },
        OpCode::Ldc(x, kk) => Machine { cpu: cpu.with_reg(x as int, kk), ..m },
        OpCode::Ld(x, y) => Machine { cpu: cpu.with_reg(x as int, v[y as int]), ..m },
        OpCode::Ldi(addr) => Machine { cpu: cpu.with_i(addr), ..m },
        OpCode::Lddt(x) => Machine { cpu: cpu.with_reg(x as int, cpu.dt), ..m },
        OpCode::Stdt(x) => Machine { cpu: CpuState { dt: v[x as int], ..cpu }, ..m },
        OpCode::Stst(x) => Machine { cpu: CpuState { st: v[x as int], ..cpu }, ..m },
        OpCode::Ldtc(x) => match first_pressed(keys) {
            Some(key) => Machine { cpu: cpu.with_reg(x as int, key), ..m },
            None => Machine { cpu: cpu.with_pc(sub16(cpu.pc as int, 2)), ..m },
        },
        OpCode::Ldsprt(x) => Machine { cpu: cpu.with_i((v[x as int] * 5) as Addr), ..m },
        OpCode::Stbcd(x) => Machine { mem: stored_bcd(m.mem, cpu.i as int, v[x as int]), ..m },
        OpCode::Ldall(x) => Machine {
            cpu: CpuState { v: loaded_regs(cpu, m.mem, x as int), ..cpu },
            ..m
        },
        OpCode::Stall(x) => Machine { mem: stored_regs(cpu, m.mem, x as int), ..m },
        OpCode::Or(x, y) => Machine { cpu: cpu.with_reg(x as int, v[x as int] | v[y as int]), ..m },
        OpCode::And(x, y) => Machine { cpu: cpu.with_reg(x as int, v[x as int] & v[y as int]), ..m },
        OpCode::Xor(x, y) => Machine { cpu: cpu.with_reg(x as int, v[x as int] ^ v[y as int]), ..m },
        OpCode::Shr(x) => {
            let flagged = cpu.with_reg(15, v[x as int] & 1);
            Machine { cpu: flagged.with_reg(x as int, flagged.v[x as int] >> 1), ..m }
        },
        OpCode::Shl(x) => {
            let flagged = cpu.with_reg(15, v[x as int] >> 7);
            Machine { cpu: flagged.with_reg(x as int, flagged.v[x as int] << 1), ..m }
        },
        OpCode::Addc(x, kk) => Machine {
            cpu: cpu.with_reg(x as int, add8(v[x as int] as int, kk as int)),
            ..m
        },
        OpCode::Add(x, y) => Machine {
            cpu: cpu.with_reg(x as int, add8(v[x as int] as int, v[y as int] as int)),
            ..m
        },
        OpCode::Addi(x) => Machine { cpu: cpu.with_i(add16(cpu.i as int, v[x as int] as int)), ..m },
        OpCode::Sub(x, y) => Machine {
            cpu: cpu.with_reg(x as int, sub8(v[x as int] as int, v[y as int] as int)),
            ..m
        },
        OpCode::Subn(x, y) => Machine {
            cpu: cpu.with_reg(x as int, sub8(v[y as int] as int, v[x as int] as int)),
            ..m
        },
        OpCode::Rnd(x, kk) => Machine { cpu: cpu.with_reg(x as int, random & kk), ..m },
        OpCode::Drw(x, y, n) => {
            let sprite = sprite_at(cpu, m.mem, n as int);
            let erased = m.screen.draw_erases(v[x as int], v[y as int], sprite);
            Machine {
                cpu: cpu.with_reg(15, if erased { 1u8 } else { 0u8 }),
                screen: m.screen.draw(v[x as int], v[y as int], sprite),
                ..m
            }
        },
        OpCode::Skp(x) => Machine { cpu: cpu.skip_if(key_down(keys, v[x as int] as int)), ..m },
        OpCode::Sknp(x) => Machine { cpu: cpu.skip_if(!key_down(keys, v[x as int] as int)), ..m },
    }
}

/// What executing `op` reports, if anything.
pub open spec fn fault_of(cpu: CpuState, op: OpCode) -> Option<Fault> {
    match op {
        OpCode::Undefined => Some(Fault::UnknownInstruction),
        OpCode::Sys(_) => Some(Fault::UnsupportedSys),
        OpCode::Ret => if cpu.stack.len() == 0 {
            Some(Fault::StackUnderflow)
        } else {
            None
        },
        _ => None,
    }
}

/// Whether one whole cycle can run: the instruction word at the program
/// counter can be fetched and the instruction that it encodes can be
/// executed.
pub open spec fn steppable(cpu: CpuState, mem: Seq<ByteVal>) -> bool {
    &&& fetchable(cpu, mem.len())
    &&& executable(fetched(cpu), decode(word_at_pc(cpu, mem)), mem.len())
}

/// The machine after one whole cycle: fetch, decode and execute.
pub open spec fn step(m: Machine, keys: Seq<bool>, random: ByteVal) -> Machine {
    execute(
        Machine { cpu: fetched(m.cpu), ..m },
        decode(word_at_pc(m.cpu, m.mem)),
        keys,
        random,
    )
}

} // verus!
