//! Laws of the machine: facts that hold of every state and every operand,
//! proved from the model.

use vstd::prelude::*;
use crate::Chip8State;
use crate::interfaces::first_pressed;
use crate::machine::{
    CpuState, Machine, executable, execute, fetchable, fetched, sprite_at, step, stored_bcd,
    word_at_pc,
};
use crate::memory::{FONT, FONT_SIZE, fresh_memory, loadable, with_program};
use crate::opcode::{OpCode, decode, nibbles_of};
use crate::screen::{
    Screen, lemma_draw_rows, lemma_draw_twice, lemma_draw_twice_on_blank, lemma_draw_wf,
    lines_differ,
};
use crate::types::{Addr, ByteVal, MEM_SIZE, PROG_START_ADDR, RegNum, add16};

verus! {

/// A word made of nibbles decodes to an instruction with valid operands.
pub proof fn lemma_decode_wf(n: (ByteVal, ByteVal, ByteVal, ByteVal))
    requires
        n.0 < 16,
        n.1 < 16,
        n.2 < 16,
        n.3 < 16,
    ensures
        decode(n).wf(),
{
    reveal(decode);
}

/// The two bytes `3x kk` decode to the skip-if-equal instruction on
/// register `x` and the byte `kk`.
pub proof fn lemma_decode_skip_equal(x: RegNum, kk: ByteVal)
    requires
        x < 16,
    ensures
        decode(nibbles_of((0x30 + x) as ByteVal, kk)) == OpCode::Sec(x, kk),
{
    reveal(decode);
}

/// Loading `kk` into register `x` and then running one cycle on the
/// skip-if-equal instruction for `x` and `kk` leaves the program counter
/// four bytes past that instruction: two for the instruction and two for
/// the instruction skipped. The count wraps at sixteen bits.
pub proof fn lemma_load_then_skip_equal(
    m: Machine,
    x: RegNum,
    kk: ByteVal,
    keys: Seq<bool>,
    random: ByteVal,
)
    requires
        m.cpu.wf(),
        x < 16,
        fetchable(m.cpu, m.mem.len()),
        m.mem[m.cpu.pc as int] == 0x30 + x,
        m.mem[m.cpu.pc + 1] == kk,
    ensures
        ({
            let loaded = execute(m, OpCode::Ldc(x, kk), keys, random);
            &&& loaded.cpu.pc == m.cpu.pc
            &&& step(loaded, keys, random).cpu.pc == add16(m.cpu.pc as int, 4)
        }),
{
    lemma_decode_skip_equal(x, kk);
    let loaded = execute(m, OpCode::Ldc(x, kk), keys, random);
    assert(loaded == Machine { cpu: m.cpu.with_reg(x as int, kk), ..m });
    assert(word_at_pc(loaded.cpu, loaded.mem) == nibbles_of((0x30 + x) as ByteVal, kk));
    let at_skip = Machine { cpu: fetched(loaded.cpu), ..loaded };
    assert(step(loaded, keys, random) == execute(at_skip, OpCode::Sec(x, kk), keys, random));
    assert(at_skip.cpu.v[x as int] == kk);
    assert(execute(at_skip, OpCode::Sec(x, kk), keys, random).cpu == at_skip.cpu.skip_if(true));
}

/// Both additions wrap modulo 256, change the one register and nothing
/// else, and leave the flag register alone unless it is the target.
pub proof fn lemma_add_wraps(
    m: Machine,
    x: RegNum,
    y: RegNum,
    kk: ByteVal,
    keys: Seq<bool>,
    random: ByteVal,
)
    requires
        m.cpu.wf(),
        x < 16,
        y < 16,
    ensures
        execute(m, OpCode::Addc(x, kk), keys, random) == (Machine {
            cpu: m.cpu.with_reg(x as int, ((m.cpu.v[x as int] + kk) % 256) as ByteVal),
            ..m
        }),
        execute(m, OpCode::Add(x, y), keys, random) == (Machine {
            cpu: m.cpu.with_reg(
                x as int,
                ((m.cpu.v[x as int] + m.cpu.v[y as int]) % 256) as ByteVal,
            ),
            ..m
        }),
        execute(m, OpCode::Addc(x, kk), keys, random).cpu.v[x as int] == (m.cpu.v[x as int] + kk)
            % 256,
        execute(m, OpCode::Add(x, y), keys, random).cpu.v[x as int] == (m.cpu.v[x as int]
            + m.cpu.v[y as int]) % 256,
{
}

/// A shift to the right halves the register and puts the bit shifted out,
/// the remainder, in the flag register. Where the register shifted is the
/// flag register itself, it ends as zero.
pub proof fn lemma_shift_right(m: Machine, x: RegNum, keys: Seq<bool>, random: ByteVal)
    requires
        m.cpu.wf(),
        x < 16,
    ensures
        ({
            let after = execute(m, OpCode::Shr(x), keys, random);
            &&& x != 15 ==> after.cpu.v[15] == m.cpu.v[x as int] % 2
            &&& x != 15 ==> after.cpu.v[x as int] == m.cpu.v[x as int] / 2
            &&& x == 15 ==> after.cpu.v[15] == 0
            &&& after.cpu.v.len() == 16
            &&& forall|j: int| 0 <= j < 15 && j != x ==> after.cpu.v[j] == m.cpu.v[j]
            &&& after == Machine { cpu: CpuState { v: after.cpu.v, ..m.cpu }, ..m }
        }),
{
    let v = m.cpu.v[x as int];
    assert(v & 1 == v % 2) by (bit_vector);
    assert(v >> 1 == v / 2) by (bit_vector);
    assert((v & 1) >> 1 == 0) by (bit_vector);
}

/// A shift to the left doubles the register modulo 256 and puts the bit
/// shifted out in the flag register. Where the register shifted is the
/// flag register itself, it ends as twice that bit.
pub proof fn lemma_shift_left(m: Machine, x: RegNum, keys: Seq<bool>, random: ByteVal)
    requires
        m.cpu.wf(),
        x < 16,
    ensures
        ({
            let after = execute(m, OpCode::Shl(x), keys, random);
            &&& x != 15 ==> after.cpu.v[15] == m.cpu.v[x as int] / 128
            &&& x != 15 ==> after.cpu.v[x as int] == (2 * m.cpu.v[x as int]) % 256
            &&& x == 15 ==> after.cpu.v[15] == 2 * (m.cpu.v[15] / 128)
            &&& after.cpu.v.len() == 16
            &&& forall|j: int| 0 <= j < 15 && j != x ==> after.cpu.v[j] == m.cpu.v[j]
            &&& after == Machine { cpu: CpuState { v: after.cpu.v, ..m.cpu }, ..m }
        }),
{
    let v = m.cpu.v[x as int];
    assert(v >> 7 == v / 128) by (bit_vector);
    assert(v << 1 == (2 * v) % 256) by (bit_vector);
    assert((v >> 7) << 1 == 2 * (v / 128)) by (bit_vector);
}

/// A call followed at once by a return undoes the call: the program
/// counter is back at the instruction after the call and the stack is what
/// it was, so empty if it was empty.
pub proof fn lemma_call_then_return(m: Machine, addr: Addr, keys: Seq<bool>, random: ByteVal)
    ensures
        execute(execute(m, OpCode::Call(addr), keys, random), OpCode::Ret, keys, random) == m,
{
    let called = execute(m, OpCode::Call(addr), keys, random);
    assert(called.cpu.stack.drop_last() =~= m.cpu.stack);
}

/// Two cycles, the first on a call and the second on a return that stands
/// at the address called: the machine ends as if it had only stepped over
/// the call, with the program counter at the instruction after the call
/// and the stack as it was.
pub proof fn lemma_call_then_return_cycles(
    m: Machine,
    addr: Addr,
    keys: Seq<bool>,
    random: ByteVal,
)
    requires
        decode(word_at_pc(m.cpu, m.mem)) == OpCode::Call(addr),
        decode(word_at_pc(m.cpu.with_pc(addr), m.mem)) == OpCode::Ret,
    ensures
        step(step(m, keys, random), keys, random) == (Machine { cpu: fetched(m.cpu), ..m }),
{
    let called = step(m, keys, random);
    assert(called == Machine {
        cpu: CpuState { pc: addr, stack: m.cpu.stack.push(fetched(m.cpu).pc), ..m.cpu },
        ..m
    });
    assert(word_at_pc(called.cpu, called.mem) == word_at_pc(m.cpu.with_pc(addr), m.mem));
    assert(called.cpu.stack.drop_last() =~= m.cpu.stack);
}

/// The three bytes that the decimal store writes are decimal digits, and
/// they spell the value of the register.
pub proof fn lemma_bcd_digits(mem: Seq<ByteVal>, at: int, val: ByteVal)
    requires
        0 <= at,
        at + 2 < mem.len(),
    ensures
        ({
            let after = stored_bcd(mem, at, val);
            &&& after.len() == mem.len()
            &&& after[at] < 10 && after[at + 1] < 10 && after[at + 2] < 10
            &&& 100 * after[at] + 10 * after[at + 1] + after[at + 2] == val
            &&& forall|a: int| 0 <= a < mem.len() && !(at <= a <= at + 2) ==> after[a] == mem[a]
        }),
{
}

/// Loading a program never changes the size of memory nor a byte below
/// the program start. A program that fits is copied whole and every byte
/// behind it stays what it was; of a longer one, as much as fits is copied.
pub proof fn lemma_load_program(mem: Seq<ByteVal>, program: Seq<ByteVal>)
    requires
        mem.len() >= PROG_START_ADDR,
    ensures
        ({
            let after = with_program(mem, program);
            let room = mem.len() - PROG_START_ADDR;
            let copied = loadable(mem.len(), program.len());
            &&& after.len() == mem.len()
            &&& copied == if program.len() <= room { program.len() as int } else { room }
            &&& forall|a: int| 0 <= a < PROG_START_ADDR ==> after[a] == mem[a]
            &&& forall|j: int| 0 <= j < copied ==> after[PROG_START_ADDR + j] == program[j]
            &&& forall|a: int| PROG_START_ADDR + copied <= a < mem.len() ==> after[a] == mem[a]
        }),
{
}

/// In a memory that has just been created, a program that fits is followed
/// by zeros up to the end of memory, and the font stands below it.
pub proof fn lemma_load_into_fresh_memory(program: Seq<ByteVal>)
    requires
        program.len() <= MEM_SIZE - PROG_START_ADDR,
    ensures
        ({
            let after = with_program(fresh_memory(), program);
            &&& after.len() == MEM_SIZE
            &&& forall|a: int| 0 <= a < FONT_SIZE ==> after[a] == FONT@[a]
            &&& forall|j: int| 0 <= j < program.len() ==> after[PROG_START_ADDR + j] == program[j]
            &&& forall|a: int| PROG_START_ADDR + program.len() <= a < MEM_SIZE ==> after[a] == 0
        }),
{
}

/// Drawing the same sprite twice in succession at the same place restores
/// the display, whatever was on it. The position must not be held in the
/// flag register, which the first drawing overwrites.
pub proof fn lemma_draw_twice_restores(
    m: Machine,
    x: RegNum,
    y: RegNum,
    n: ByteVal,
    keys: Seq<bool>,
    random: ByteVal,
)
    requires
        m.cpu.wf(),
        x < 15,
        y < 15,
    ensures
        ({
            let once = execute(m, OpCode::Drw(x, y, n), keys, random);
            let twice = execute(once, OpCode::Drw(x, y, n), keys, random);
            &&& twice.screen == m.screen
            &&& twice.mem == m.mem
            &&& twice.cpu == once.cpu.with_reg(15, twice.cpu.v[15])
            &&& once.cpu == m.cpu.with_reg(15, once.cpu.v[15])
        }),
{
    let once = execute(m, OpCode::Drw(x, y, n), keys, random);
    let sprite = sprite_at(m.cpu, m.mem, n as int);
    assert(sprite_at(once.cpu, once.mem, n as int) == sprite);
    lemma_draw_twice(m.screen, m.cpu.v[x as int], m.cpu.v[y as int], sprite);
}

/// Drawing a sprite twice in succession at the same place on a blank
/// display, where no two bits of the sprite fall on one pixel (so on the
/// display of 64 by 32 pixels): the first drawing leaves the flag register
/// at 0; the second sets it to 1, unless every row of the sprite is empty;
/// and the display is blank again. The position must not be held in the
/// flag register.
pub proof fn lemma_draw_twice_on_blank_display(
    m: Machine,
    x: RegNum,
    y: RegNum,
    n: ByteVal,
    keys: Seq<bool>,
    random: ByteVal,
)
    requires
        m.cpu.wf(),
        x < 15,
        y < 15,
        m.screen.width >= 8,
        lines_differ(m.screen.height, n as nat),
        m.screen == Screen::blank(m.screen.width, m.screen.height),
    ensures
        ({
            let once = execute(m, OpCode::Drw(x, y, n), keys, random);
            let twice = execute(once, OpCode::Drw(x, y, n), keys, random);
            let shown = exists|r: int| 0 <= r < n && #[trigger] m.mem[m.cpu.i + r] != 0;
            &&& once.cpu.v[15] == 0
            &&& twice.cpu.v[15] == if shown { 1u8 } else { 0u8 }
            &&& twice.screen == m.screen
        }),
{
    let vx = m.cpu.v[x as int];
    let vy = m.cpu.v[y as int];
    let once = execute(m, OpCode::Drw(x, y, n), keys, random);
    let sprite = sprite_at(m.cpu, m.mem, n as int);
    assert(sprite_at(once.cpu, once.mem, n as int) == sprite);
    lemma_draw_twice_on_blank(m.screen.width, m.screen.height, vx, vy, sprite);
    if exists|r: int| 0 <= r < n && #[trigger] m.mem[m.cpu.i + r] != 0 {
        let r = choose|r: int| 0 <= r < n && #[trigger] m.mem[m.cpu.i + r] != 0;
        assert(0 <= r < sprite.len() && sprite[r] != 0);
    }
    if exists|r: int| 0 <= r < sprite.len() && #[trigger] sprite[r] != 0 {
        let r = choose|r: int| 0 <= r < sprite.len() && #[trigger] sprite[r] != 0;
        assert(0 <= r < n && m.mem[m.cpu.i + r] != 0);
    }
}

/// The glyph instruction points the address register at five times the
/// value of the register. Where that value is a hexadecimal digit and the
/// font stands at the bottom of memory, the five bytes there are the glyph
/// of the digit.
pub proof fn lemma_glyph_address(m: Machine, x: RegNum, keys: Seq<bool>, random: ByteVal)
    requires
        m.cpu.wf(),
        x < 16,
    ensures
        ({
            let after = execute(m, OpCode::Ldsprt(x), keys, random);
            let digit = m.cpu.v[x as int];
            &&& after == Machine { cpu: m.cpu.with_i((5 * digit) as Addr), ..m }
            &&& after.cpu.i == 5 * digit
            &&& digit < 16 && m.mem.len() >= FONT_SIZE && m.mem.subrange(0, FONT_SIZE as int)
                == FONT@ ==> sprite_at(after.cpu, after.mem, 5) == FONT@.subrange(
                5 * digit,
                5 * digit + 5,
            )
        }),
{
    let after = execute(m, OpCode::Ldsprt(x), keys, random);
    let digit = m.cpu.v[x as int];
    if digit < 16 && m.mem.len() >= FONT_SIZE && m.mem.subrange(0, FONT_SIZE as int) == FONT@ {
        let glyph = sprite_at(after.cpu, after.mem, 5);
        let font = m.mem.subrange(0, FONT_SIZE as int);
        assert forall|r: int| 0 <= r < 5 implies #[trigger] glyph[r] == FONT@[5 * digit + r] by {
            assert(font[5 * digit + r] == m.mem[5 * digit + r]);
        }
        assert(sprite_at(after.cpu, after.mem, 5) =~= FONT@.subrange(5 * digit, 5 * digit + 5));
    }
}

/// No instruction changes the number of registers, the size of memory or
/// the size of the display, and none lights a pixel outside the display.
pub proof fn lemma_execute_keeps_shape(m: Machine, op: OpCode, keys: Seq<bool>, random: ByteVal)
    requires
        m.cpu.wf(),
        op.wf(),
        executable(m.cpu, op, m.mem.len()),
    ensures
        ({
            let after = execute(m, op, keys, random);
            &&& after.cpu.wf()
            &&& after.mem.len() == m.mem.len()
            &&& after.screen.width == m.screen.width
            &&& after.screen.height == m.screen.height
            &&& m.screen.wf() ==> after.screen.wf()
        }),
{
    match op {
        OpCode::Drw(x, y, n) => {
            let sprite = sprite_at(m.cpu, m.mem, n as int);
            lemma_draw_rows(m.screen, m.cpu.v[x as int], m.cpu.v[y as int], sprite, sprite.len());
            if m.screen.wf() {
                lemma_draw_wf(m.screen, m.cpu.v[x as int], m.cpu.v[y as int], sprite);
            }
        },
        _ => {},
    }
}

/// While no key is down, a cycle on the wait-for-key instruction changes
/// nothing: the program counter is back where it was before the fetch.
pub proof fn lemma_wait_for_key_holds(m: Machine, x: RegNum, keys: Seq<bool>, random: ByteVal)
    requires
        decode(word_at_pc(m.cpu, m.mem)) == OpCode::Ldtc(x),
        first_pressed(keys).is_none(),
    ensures
        step(m, keys, random) == m,
{
}

/// One look at the clock makes the timers tick at most once: each timer
/// goes down by one if a tick is due and it is not yet zero, and stays
/// otherwise.
pub proof fn lemma_single_tick(s: Chip8State, now: u128)
    ensures
        ({
            let after = s.ticked_at(now);
            let due = now - s.last_tick > s.period;
            &&& after.cpu.dt == if due && s.cpu.dt > 0 { s.cpu.dt - 1 } else { s.cpu.dt as int }
            &&& after.cpu.st == if due && s.cpu.st > 0 { s.cpu.st - 1 } else { s.cpu.st as int }
            &&& after.last_tick == if due { now } else { s.last_tick }
            &&& after.period == s.period
        }),
{
}

/// Two looks at the clock, the second no more than one period after the
/// first: if the timers ticked at the first, they do not tick at the
/// second.
pub proof fn lemma_no_double_tick(s: Chip8State, first: u128, second: u128)
    requires
        s.tick_due(first),
        second - first <= s.period,
    ensures
        !s.ticked_at(first).tick_due(second),
        s.ticked_at(first).ticked_at(second) == s.ticked_at(first),
{
}

} // verus!
