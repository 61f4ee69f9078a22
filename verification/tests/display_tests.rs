use chip8::display_buffer::{DisplayBuffer, PIXELS};
use chip8::interfaces::DisplayInterface;
use chip8::types::{HEIGHT, WIDTH};

fn lit_count(display: &DisplayBuffer) -> usize {
    let mut count = 0;
    for y in 0..32u8 {
        for x in 0..64u8 {
            if display.read_pixel(x, y) != 0 {
                count += 1;
            }
        }
    }
    count
}

#[test]
fn display_is_64_by_32() {
    let display = DisplayBuffer::new();
    assert_eq!(display.dimensions(), (64, 32));
    assert_eq!((WIDTH, HEIGHT), (64, 32));
    assert_eq!(PIXELS, 2048);
}

#[test]
fn new_display_is_blank() {
    let display = DisplayBuffer::new();
    assert_eq!(lit_count(&display), 0);
}

#[test]
fn write_pixel_sets_and_normalizes() {
    let mut display = DisplayBuffer::new();
    display.write_pixel(3, 4, 0xFF);
    assert_eq!(display.read_pixel(3, 4), 1);
    display.write_pixel(5, 6, 1);
    assert_eq!(display.read_pixel(5, 6), 1);
    display.write_pixel(5, 6, 2);
    assert_eq!(display.read_pixel(5, 6), 1);
    display.write_pixel(3, 4, 0);
    assert_eq!(display.read_pixel(3, 4), 0);
    assert_eq!(lit_count(&display), 1);
}

#[test]
fn write_pixel_is_a_set_not_an_xor() {
    let mut display = DisplayBuffer::new();
    display.write_pixel(10, 10, 1);
    display.write_pixel(10, 10, 1);
    assert_eq!(display.read_pixel(10, 10), 1);
}

#[test]
fn xor_reports_a_pixel_switched_off() {
    let mut display = DisplayBuffer::new();
    assert!(!display.write_pixel_xor(7, 7, 1));
    assert_eq!(display.read_pixel(7, 7), 1);
    assert!(display.write_pixel_xor(7, 7, 1));
    assert_eq!(display.read_pixel(7, 7), 0);
    assert!(!display.write_pixel_xor(7, 7, 0));
    assert_eq!(display.read_pixel(7, 7), 0);
}

#[test]
fn xor_with_zero_changes_nothing_and_reports_nothing() {
    let mut display = DisplayBuffer::new();
    display.write_pixel(1, 1, 1);
    assert!(!display.write_pixel_xor(1, 1, 0));
    assert_eq!(display.read_pixel(1, 1), 1);
}

#[test]
fn xor_normalizes_any_nonzero_value() {
    let mut display = DisplayBuffer::new();
    assert!(!display.write_pixel_xor(2, 2, 0x80));
    assert_eq!(display.read_pixel(2, 2), 1);
    assert!(display.write_pixel_xor(2, 2, 0x02));
    assert_eq!(display.read_pixel(2, 2), 0);
}

#[test]
fn row_goes_most_significant_bit_first() {
    let mut display = DisplayBuffer::new();
    assert!(!display.write_pixel_row_xor(8, 3, 0b1010_0001));
    let row: Vec<u8> = (8..16u8).map(|x| display.read_pixel(x, 3)).collect();
    assert_eq!(row, vec![1, 0, 1, 0, 0, 0, 0, 1]);
    assert_eq!(lit_count(&display), 3);
}

#[test]
fn row_reports_collision_if_any_pixel_goes_off() {
    let mut display = DisplayBuffer::new();
    display.write_pixel(12, 0, 1);
    assert!(display.write_pixel_row_xor(8, 0, 0b0000_1000));
    assert_eq!(display.read_pixel(12, 0), 0);
    display.write_pixel(12, 0, 1);
    assert!(!display.write_pixel_row_xor(8, 0, 0b1111_0111));
    assert_eq!(lit_count(&display), 8);
}

#[test]
fn same_row_twice_restores_the_display() {
    let mut display = DisplayBuffer::new();
    display.write_pixel(20, 9, 1);
    assert!(!display.write_pixel_row_xor(30, 9, 0xFF));
    assert!(display.write_pixel_row_xor(30, 9, 0xFF));
    assert_eq!(lit_count(&display), 1);
    assert_eq!(display.read_pixel(20, 9), 1);
}

#[test]
fn coordinates_wrap_at_the_edges() {
    let mut display = DisplayBuffer::new();
    display.write_pixel(64, 32, 1);
    assert_eq!(display.read_pixel(0, 0), 1);
    display.write_pixel(65, 33, 1);
    assert_eq!(display.read_pixel(1, 1), 1);
    display.write_pixel(255, 255, 1);
    assert_eq!(display.read_pixel(63, 31), 1);
    assert_eq!(display.read_pixel(255, 255), 1);
    assert_eq!(display.read_pixel(127, 63), 1);
    assert_eq!(lit_count(&display), 3);
}

#[test]
fn row_wraps_around_the_right_edge() {
    let mut display = DisplayBuffer::new();
    assert!(!display.write_pixel_row_xor(60, 5, 0xFF));
    for x in 60..64u8 {
        assert_eq!(display.read_pixel(x, 5), 1);
    }
    for x in 0..4u8 {
        assert_eq!(display.read_pixel(x, 5), 1);
    }
    assert_eq!(display.read_pixel(4, 5), 0);
    assert_eq!(display.read_pixel(59, 5), 0);
    assert_eq!(lit_count(&display), 8);
}

#[test]
fn row_at_the_largest_coordinate_wraps_too() {
    let mut display = DisplayBuffer::new();
    assert!(!display.write_pixel_row_xor(252, 255, 0xFF));
    for x in 60..64u8 {
        assert_eq!(display.read_pixel(x, 31), 1);
    }
    for x in 0..4u8 {
        assert_eq!(display.read_pixel(x, 31), 1);
    }
    assert_eq!(lit_count(&display), 8);
}

#[test]
fn clear_switches_every_pixel_off() {
    let mut display = DisplayBuffer::new();
    display.write_pixel_row_xor(0, 0, 0xFF);
    display.write_pixel_row_xor(56, 31, 0xFF);
    assert_eq!(lit_count(&display), 16);
    display.clear();
    assert_eq!(lit_count(&display), 0);
    assert_eq!(display.dimensions(), (64, 32));
}
