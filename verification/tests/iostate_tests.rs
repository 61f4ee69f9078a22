use chip8::interfaces::{DisplayInterface, KeyboardInterface};
use chip8::iostate::{pixel_rect, IOState, InputEvent, PIXEL_HEIGHT, PIXEL_WIDTH};

#[test]
fn new_state_is_blank_and_marked_changed() {
    let io = IOState::new();
    assert!(io.display_changed());
    assert_eq!(io.dimensions(), (64, 32));
    assert!(io.lit_pixels().is_empty());
    assert_eq!(io.wait_for_key(), None);
    for key in 0..16u8 {
        assert!(!io.key_pressed(key));
    }
}

#[test]
fn every_write_marks_the_picture_changed() {
    let mut io = IOState::new();
    io.mark_rendered();
    assert!(!io.display_changed());
    io.clear();
    assert!(io.display_changed());

    io.mark_rendered();
    io.write_pixel(1, 1, 1);
    assert!(io.display_changed());

    io.mark_rendered();
    io.write_pixel_xor(1, 1, 1);
    assert!(io.display_changed());

    io.mark_rendered();
    io.write_pixel_row_xor(1, 1, 0xF0);
    assert!(io.display_changed());
}

#[test]
fn reading_and_keys_leave_the_mark_alone() {
    let mut io = IOState::new();
    io.mark_rendered();
    io.read_pixel(0, 0);
    io.dimensions();
    io.process_keycode('a' as i32, true);
    io.handle_event(InputEvent::KeyUp('a' as i32));
    io.lit_pixels();
    assert!(!io.display_changed());
}

#[test]
fn row_xor_draws_eight_pixels() {
    let mut io = IOState::new();
    assert!(!io.write_pixel_row_xor(0, 0, 0b1100_0011));
    assert_eq!(io.lit_pixels(), vec![(0, 0), (1, 0), (6, 0), (7, 0)]);
    assert!(io.write_pixel_row_xor(0, 0, 0b1000_0000));
    assert_eq!(io.lit_pixels(), vec![(1, 0), (6, 0), (7, 0)]);
}

#[test]
fn pixel_xor_inverts_one_pixel() {
    let mut io = IOState::new();
    assert!(!io.write_pixel_xor(9, 9, 0xFF));
    assert_eq!(io.read_pixel(9, 9), 1);
    assert_eq!(io.lit_pixels(), vec![(9, 9)]);
    assert!(io.write_pixel_xor(9, 9, 1));
    assert!(io.lit_pixels().is_empty());
}

#[test]
fn lit_pixels_come_line_by_line() {
    let mut io = IOState::new();
    io.write_pixel(63, 31, 1);
    io.write_pixel(5, 2, 1);
    io.write_pixel(0, 0, 1);
    io.write_pixel(4, 2, 1);
    io.write_pixel(63, 0, 1);
    assert_eq!(io.lit_pixels(), vec![(0, 0), (63, 0), (4, 2), (5, 2), (63, 31)]);
    io.clear();
    assert!(io.lit_pixels().is_empty());
}

#[test]
fn keycodes_press_and_release_keys() {
    let mut io = IOState::new();
    io.process_keycode('7' as i32, true);
    io.process_keycode('e' as i32, true);
    assert!(io.key_pressed(7));
    assert!(io.key_pressed(14));
    assert_eq!(io.wait_for_key(), Some(7));
    io.process_keycode('7' as i32, false);
    assert!(!io.key_pressed(7));
    assert_eq!(io.wait_for_key(), Some(14));
    io.process_keycode('z' as i32, true);
    assert_eq!(io.wait_for_key(), Some(14));
}

#[test]
fn keypad_copy_shows_the_keys_of_the_moment() {
    let mut io = IOState::new();
    io.process_keycode('2' as i32, true);
    let keys = io.keypad();
    io.process_keycode('2' as i32, false);
    assert!(keys.key_pressed(2));
    assert!(!io.key_pressed(2));
}

#[test]
fn quit_and_escape_end_the_session() {
    let mut io = IOState::new();
    assert!(!io.handle_event(InputEvent::Quit));
    assert!(!io.handle_event(InputEvent::KeyDown(27)));
    assert!(io.handle_event(InputEvent::KeyUp(27)));
    assert!(io.handle_event(InputEvent::Other));
    assert_eq!(io.wait_for_key(), None);
}

#[test]
fn key_events_reach_the_keypad() {
    let mut io = IOState::new();
    assert!(io.handle_event(InputEvent::KeyDown('f' as i32)));
    assert!(io.key_pressed(15));
    assert!(io.handle_event(InputEvent::KeyDown('q' as i32)));
    assert_eq!(io.wait_for_key(), Some(15));
    assert!(io.handle_event(InputEvent::KeyUp('f' as i32)));
    assert!(!io.key_pressed(15));
}

#[test]
fn window_rectangle_of_a_pixel() {
    assert_eq!((PIXEL_WIDTH, PIXEL_HEIGHT), (10, 10));
    assert_eq!(pixel_rect(0, 0), (0, 0, 10, 10));
    assert_eq!(pixel_rect(3, 7), (30, 70, 10, 10));
    assert_eq!(pixel_rect(63, 31), (630, 310, 10, 10));
    assert_eq!(pixel_rect(255, 255), (2550, 2550, 10, 10));
}
