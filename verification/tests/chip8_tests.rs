use chip8::display_buffer::DisplayBuffer;
use chip8::interfaces::{DisplayInterface, MemoryInterface};
use chip8::iostate::IOState;
use chip8::keypad::Keypad;
use chip8::machine::Fault;
use chip8::memory::Memory;
use chip8::types::TICK_PERIOD_NANOS;
use chip8::Chip8;
use std::time::{Duration, Instant};

const PERIOD: u128 = 16_666_666;

// V1 = 5; delay timer = V1; sound timer = V1; then jump to self for ever.
const TIMER_PROGRAM: [u8; 8] = [0x61, 0x05, 0xF1, 0x15, 0xF1, 0x18, 0x12, 0x06];

struct Rig {
    chip8: Chip8,
    mem: Memory,
    display: DisplayBuffer,
    keys: Keypad,
}

fn rig_with(program: &[u8]) -> Rig {
    let mut mem = Memory::new();
    mem.load_program(program);
    Rig { chip8: Chip8::new(), mem, display: DisplayBuffer::new(), keys: Keypad::new() }
}

fn cycle_at(r: &mut Rig, now: u128) -> Option<Fault> {
    assert!(r.chip8.can_cycle(&r.mem));
    r.chip8.cycle_with(now, 0, &mut r.mem, &mut r.display, &r.keys)
}

fn timers(r: &Rig) -> (u8, u8) {
    (r.chip8.cpu().delay_timer(), r.chip8.cpu().sound_timer())
}

#[test]
fn tick_period_is_a_sixtieth_of_a_second() {
    assert_eq!(TICK_PERIOD_NANOS, PERIOD);
    assert_eq!(1_000_000_000 / 60, PERIOD);
}

#[test]
fn new_emulator_starts_at_the_program_area() {
    let chip8 = Chip8::new();
    assert_eq!(chip8.cpu().pc(), 0x200);
    assert_eq!(chip8.cpu().stack_depth(), 0);
    assert_eq!(chip8.cpu().delay_timer(), 0);
}

#[test]
fn cycle_fetches_and_executes_one_instruction() {
    let mut r = rig_with(&[0x6A, 0x42, 0x00, 0xEE, 0xFF, 0xFF, 0x01, 0x00]);
    assert_eq!(cycle_at(&mut r, 0), None);
    assert_eq!(r.chip8.cpu().pc(), 0x202);
    assert_eq!(r.chip8.cpu().read_reg(0xA), 0x42);
    assert_eq!(cycle_at(&mut r, 0), Some(Fault::StackUnderflow));
    assert_eq!(r.chip8.cpu().pc(), 0x204);
    assert_eq!(cycle_at(&mut r, 0), Some(Fault::UnknownInstruction));
    assert_eq!(r.chip8.cpu().pc(), 0x206);
    assert_eq!(cycle_at(&mut r, 0), Some(Fault::UnsupportedSys));
    assert_eq!(r.chip8.cpu().pc(), 0x208);
}

#[test]
fn timers_do_not_tick_before_a_period_has_passed() {
    let mut r = rig_with(&TIMER_PROGRAM);
    cycle_at(&mut r, 0);
    cycle_at(&mut r, 1);
    cycle_at(&mut r, 2);
    assert_eq!(timers(&r), (5, 5));
    cycle_at(&mut r, PERIOD - 1);
    assert_eq!(timers(&r), (5, 5));
    cycle_at(&mut r, PERIOD);
    assert_eq!(timers(&r), (5, 5));
    cycle_at(&mut r, PERIOD + 1);
    assert_eq!(timers(&r), (4, 4));
}

#[test]
fn two_cycles_within_one_period_tick_once() {
    let mut r = rig_with(&TIMER_PROGRAM);
    cycle_at(&mut r, 0);
    cycle_at(&mut r, 1);
    cycle_at(&mut r, 2);
    let first = PERIOD + 1000;
    cycle_at(&mut r, first);
    assert_eq!(timers(&r), (4, 4));
    cycle_at(&mut r, first + 1);
    assert_eq!(timers(&r), (4, 4));
    cycle_at(&mut r, first + PERIOD);
    assert_eq!(timers(&r), (4, 4));
    cycle_at(&mut r, first + PERIOD + 1);
    assert_eq!(timers(&r), (3, 3));
}

#[test]
fn one_cycle_ticks_once_however_late() {
    let mut r = rig_with(&TIMER_PROGRAM);
    cycle_at(&mut r, 0);
    cycle_at(&mut r, 1);
    cycle_at(&mut r, 2);
    cycle_at(&mut r, 100 * PERIOD);
    assert_eq!(timers(&r), (4, 4));
    cycle_at(&mut r, 100 * PERIOD + 5);
    assert_eq!(timers(&r), (4, 4));
}

#[test]
fn a_clock_that_goes_back_does_not_tick() {
    let mut r = rig_with(&TIMER_PROGRAM);
    cycle_at(&mut r, 0);
    cycle_at(&mut r, 1);
    cycle_at(&mut r, 2);
    cycle_at(&mut r, 10 * PERIOD);
    assert_eq!(timers(&r), (4, 4));
    cycle_at(&mut r, 0);
    assert_eq!(timers(&r), (4, 4));
    cycle_at(&mut r, 5 * PERIOD);
    assert_eq!(timers(&r), (4, 4));
    cycle_at(&mut r, 11 * PERIOD + 1);
    assert_eq!(timers(&r), (3, 3));
}

#[test]
fn timers_stop_at_zero() {
    let mut r = rig_with(&TIMER_PROGRAM);
    cycle_at(&mut r, 0);
    cycle_at(&mut r, 1);
    cycle_at(&mut r, 2);
    for k in 1..=10u128 {
        cycle_at(&mut r, k * (PERIOD + 1));
    }
    assert_eq!(timers(&r), (0, 0));
}

#[test]
fn tick_at_tells_whether_the_timers_ticked() {
    let mut r = rig_with(&TIMER_PROGRAM);
    cycle_at(&mut r, 0);
    cycle_at(&mut r, 0);
    cycle_at(&mut r, 0);
    assert!(!r.chip8.tick_at(PERIOD));
    assert_eq!(timers(&r), (5, 5));
    assert!(r.chip8.tick_at(PERIOD + 1));
    assert_eq!(timers(&r), (4, 4));
    assert!(!r.chip8.tick_at(PERIOD + 2));
    assert!(!r.chip8.tick_at(2 * PERIOD + 1));
    assert_eq!(timers(&r), (4, 4));
    assert!(r.chip8.tick_at(2 * PERIOD + 2));
    assert_eq!(timers(&r), (3, 3));
    assert!(r.chip8.tick_at(u128::MAX));
    assert_eq!(timers(&r), (2, 2));
    assert!(!r.chip8.tick_at(u128::MAX));
}

#[test]
fn given_random_byte_reaches_the_random_instruction() {
    let mut r = rig_with(&[0xC7, 0xF0]);
    assert!(r.chip8.can_cycle(&r.mem));
    let fault = r.chip8.cycle_with(0, 0xAB, &mut r.mem, &mut r.display, &r.keys);
    assert_eq!(fault, None);
    assert_eq!(r.chip8.cpu().read_reg(7), 0xA0);
}

#[test]
fn cycle_cannot_run_outside_memory() {
    // Jump to the last byte of memory.
    let mut r = rig_with(&[0x1F, 0xFF]);
    assert!(r.chip8.can_cycle(&r.mem));
    cycle_at(&mut r, 0);
    assert_eq!(r.chip8.cpu().pc(), 0xFFF);
    assert!(!r.chip8.can_cycle(&r.mem));
}

#[test]
fn cycle_cannot_store_outside_memory() {
    // I = 0xFFE; store the decimal digits of V0.
    let mut r = rig_with(&[0xAF, 0xFE, 0xF0, 0x33]);
    assert!(r.chip8.can_cycle(&r.mem));
    cycle_at(&mut r, 0);
    assert!(!r.chip8.can_cycle(&r.mem));
    assert_eq!(r.mem.read_byte(0xFFE), 0);
    assert_eq!(r.mem.read_byte(0xFFF), 0);
}

#[test]
fn cycle_on_the_wall_clock_executes_instructions() {
    let mut r = rig_with(&[0x61, 0x07, 0x71, 0x01, 0x12, 0x02]);
    for _ in 0..21 {
        assert!(r.chip8.can_cycle(&r.mem));
        assert_eq!(r.chip8.cycle(&mut r.mem, &mut r.display, &r.keys), None);
    }
    assert_eq!(r.chip8.cpu().read_reg(1), 7 + 10);
    assert_eq!(r.chip8.cpu().pc(), 0x202);
}

#[test]
fn cycle_on_the_wall_clock_ticks_after_a_period() {
    let mut r = rig_with(&TIMER_PROGRAM);
    for _ in 0..3 {
        r.chip8.cycle(&mut r.mem, &mut r.display, &r.keys);
    }
    // A tick may have come in between on a slow machine, but one at most
    // for each cycle.
    let (dt, st) = timers(&r);
    assert!(dt == 5 || dt == 4);
    assert!(st == 5 || st == 4);
    let waited = Instant::now();
    while waited.elapsed() < Duration::from_millis(40) {
        std::hint::spin_loop();
    }
    r.chip8.cycle(&mut r.mem, &mut r.display, &r.keys);
    assert_eq!(timers(&r), (dt - 1, st - 1));
}

#[test]
fn the_whole_machine_draws_through_shared_state() {
    // I = glyph of V0 (0); draw it at (V1, V2) = (0, 0); jump to self.
    let mut mem = Memory::new();
    mem.load_program(&[0xF0, 0x29, 0xD1, 0x25, 0x12, 0x04]);
    let mut io = IOState::new();
    let mut chip8 = Chip8::new();
    io.mark_rendered();
    for now in 0..5u128 {
        let keys = io.keypad();
        assert!(chip8.can_cycle(&mem));
        assert_eq!(chip8.cycle_with(now, 0, &mut mem, &mut io, &keys), None);
    }
    assert!(io.display_changed());
    // The glyph of 0: 0xF0 0x90 0x90 0x90 0xF0.
    assert_eq!(
        io.lit_pixels(),
        vec![
            (0, 0),
            (1, 0),
            (2, 0),
            (3, 0),
            (0, 1),
            (3, 1),
            (0, 2),
            (3, 2),
            (0, 3),
            (3, 3),
            (0, 4),
            (1, 4),
            (2, 4),
            (3, 4)
        ]
    );
    assert_eq!(io.read_pixel(0, 0), 1);
    assert_eq!(chip8.cpu().read_reg(15), 0);
    assert_eq!(chip8.cpu().pc(), 0x204);
}
