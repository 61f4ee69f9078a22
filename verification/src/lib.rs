//! An interpreter for the CHIP-8 instruction set: the processor, its memory,
//! its display surface and its keypad, each with a mathematical model that
//! the contracts of the executable code are stated over.

pub mod clock;
pub mod cpu;
pub mod display_buffer;
pub mod interfaces;
pub mod iostate;
pub mod keypad;
pub mod laws;
pub mod machine;
pub mod memory;
pub mod opcode;
pub mod screen;
pub mod types;

use std::time::Instant;
use vstd::prelude::*;
use crate::clock::{clock_now, nanos_of, time_between};
use crate::cpu::CPU;
use crate::interfaces::{DisplayInterface, KeyboardInterface, MemoryInterface};
use crate::machine::{
    CpuState, Fault, Machine, execute, fault_of, fetched, step, steppable, word_at_pc,
};
use crate::opcode::{OpCode, decode, decode_op};
use crate::screen::Screen;
use crate::types::{ByteVal, TICK_PERIOD_NANOS};

verus! {

/// The state of the emulator: the processor and the timer clock.
pub struct Chip8State {
    /// The registers of the processor.
    pub cpu: CpuState,
    /// When the timers last ticked, in nanoseconds since the emulator was
    /// created.
    pub last_tick: u128,
    /// The time between two timer ticks, in nanoseconds.
    pub period: u128,
}

impl Chip8State {
    /// Whether a timer tick is due at the time `now`: more than one period
    /// has gone by since the last tick.
    pub open spec fn tick_due(self, now: u128) -> bool {
        now - self.last_tick > self.period
    }

    /// The state after the clock is looked at at the time `now`: if a tick
    /// is due, the timers tick once and the tick is recorded.
    pub open spec fn ticked_at(self, now: u128) -> Chip8State {
        if self.tick_due(now) {
            Chip8State { cpu: self.cpu.ticked(), last_tick: now, ..self }
        } else {
            self
        }
    }
}

/// The emulator, memory and display after one cycle at the time `now`: one
/// instruction is fetched and executed, then the timers tick if a tick is
/// due. `keys` tells which keys are down and `random` is the byte that the
/// random source hands out.
pub open spec fn cycled(
    s: Chip8State,
    mem: Seq<ByteVal>,
    screen: Screen,
    keys: Seq<bool>,
    now: u128,
    random: ByteVal,
) -> (Chip8State, Seq<ByteVal>, Screen) {
    let after = step(Machine { cpu: s.cpu, mem, screen }, keys, random);
    ((Chip8State { cpu: after.cpu, ..s }).ticked_at(now), after.mem, after.screen)
}

/// What the instruction of one cycle reports, if anything.
pub open spec fn cycle_fault(s: Chip8State, mem: Seq<ByteVal>) -> Option<Fault> {
    fault_of(fetched(s.cpu), decode(word_at_pc(s.cpu, mem)))
}

/// The emulator: a processor whose timers tick sixty times a second,
/// whatever the rate at which instructions are executed.
pub struct Chip8 {
    cpu: CPU,
    started: Instant,
    last_tick_time: u128,
    period: u128,
}

impl View for Chip8 {
    type V = Chip8State;

    closed spec fn view(&self) -> Chip8State {
        Chip8State { cpu: self.cpu@, last_tick: self.last_tick_time, period: self.period }
    }
}

impl Chip8 {
    /// An emulator that has just been switched on. Its clock starts now.
    pub fn new() -> (chip8: Chip8)
        ensures
            chip8@ == (Chip8State {
                cpu: CpuState::initial(),
                last_tick: 0,
                period: TICK_PERIOD_NANOS,
            }),
    {
        Chip8 {
            cpu: CPU::new(),
            started: clock_now(),
            last_tick_time: 0,
            period: TICK_PERIOD_NANOS,
        }
    }

    /// The processor.
    pub fn cpu(&self) -> (cpu: &CPU)
        ensures
            cpu@ == self@.cpu,
    {
        &self.cpu
    }

    /// Whether one whole cycle can run on `mem`.
    pub fn can_cycle<M: MemoryInterface>(&self, mem: &M) -> (ok: bool)
        ensures
            ok == steppable(self@.cpu, mem.contents()),
    {
        self.cpu.can_step(mem)
    }

    /// Looks at the clock at the time `now`, in nanoseconds since the
    /// emulator was created: if more than one period has gone by since the
    /// last tick, the timers tick once. Returns whether they did.
    pub fn tick_at(&mut self, now: u128) -> (ticked: bool)
        ensures
            ticked == old(self)@.tick_due(now),
            final(self)@ == old(self)@.ticked_at(now),
    {
        if now > self.last_tick_time && now - self.last_tick_time > self.period {
            self.cpu.decrement_timers();
            self.last_tick_time = now;
            true
        } else {
            false
        }
    }

    /// One cycle at the time `now`, with `random` as the byte that the
    /// random source hands out: fetches one instruction, executes it, then
    /// lets the timers tick if a tick is due. Returns what the instruction
    /// reports, if anything.
    pub fn cycle_with<M: MemoryInterface, D: DisplayInterface, K: KeyboardInterface>(
        &mut self,
        now: u128,
        random: ByteVal,
        mem: &mut M,
        display: &mut D,
        keyboard: &K,
    ) -> (fault: Option<Fault>)
        requires
            steppable(old(self)@.cpu, old(mem).contents()),
        ensures
            (final(self)@, final(mem).contents(), final(display).screen()) == cycled(
                old(self)@,
                old(mem).contents(),
                old(display).screen(),
                keyboard.keys(),
                now,
                random,
            ),
            fault == cycle_fault(old(self)@, old(mem).contents()),
    {
        let (opval, _) = self.cpu.fetch_op(mem);
        let op: OpCode = decode_op(opval);
        let fault: Option<Fault> = self.cpu.execute_op(op, random, mem, display, keyboard);
        self.tick_at(now);
        fault
    }

    /// One cycle: fetches one instruction, executes it, then reads the
    /// clock and lets the timers tick if a tick is due. Returns what the
    /// instruction reports, if anything.
    pub fn cycle<M: MemoryInterface, D: DisplayInterface, K: KeyboardInterface>(
        &mut self,
        mem: &mut M,
        display: &mut D,
        keyboard: &K,
    ) -> (fault: Option<Fault>)
        requires
            steppable(old(self)@.cpu, old(mem).contents()),
        ensures
            exists|now: u128, random: ByteVal|
                (final(self)@, final(mem).contents(), final(display).screen()) == #[trigger] cycled(
                    old(self)@,
                    old(mem).contents(),
                    old(display).screen(),
                    keyboard.keys(),
                    now,
                    random,
                ),
            fault == cycle_fault(old(self)@, old(mem).contents()),
    {
        let (opval, _) = self.cpu.fetch_op(mem);
        let ghost fetched_machine = Machine {
            cpu: self.cpu@,
            mem: mem.contents(),
            screen: display.screen(),
        };
        let fault: Option<Fault> = self.cpu.decode_and_execute_op(opval, mem, display, keyboard);
        let ghost executed = Machine {
            cpu: self.cpu@,
            mem: mem.contents(),
            screen: display.screen(),
        };
        let time: Instant = clock_now();
        let now: u128 = nanos_of(&time_between(&time, &self.started));
        self.tick_at(now);
        proof {
            let random = choose|random: ByteVal|
                executed == #[trigger] execute(
                    fetched_machine,
                    decode(opval@),
                    keyboard.keys(),
                    random,
                );
            assert((self@, mem.contents(), display.screen()) == cycled(
                old(self)@,
                old(mem).contents(),
                old(display).screen(),
                keyboard.keys(),
                now,
                random,
            ));
        }
        fault
    }
}

} // verus!
