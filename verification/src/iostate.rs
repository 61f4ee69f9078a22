//! What the processor shares with the outside: the keys that are down and
//! the picture on the display, with a mark that tells a renderer whether
//! the picture has changed since it last painted it.

use vstd::prelude::*;
use crate::display_buffer::DisplayBuffer;
use crate::interfaces::{DisplayInterface, KeyboardInterface};
use crate::keypad::{KEYCODE_ESCAPE, Keypad, key_for_code, key_of_code};
use crate::screen::Screen;
use crate::types::{ByteVal, HEIGHT, WIDTH};

verus! {

/// Width of one display pixel in a window, in window pixels.
pub const PIXEL_WIDTH: u32 = 10;

/// Height of one display pixel in a window, in window pixels.
pub const PIXEL_HEIGHT: u32 = 10;

/// Something that happened at the window the display is shown in.
#[derive(Debug, Clone, Copy, PartialEq, Eq, Structural)]
pub enum InputEvent {
    /// The window was asked to close.
    Quit,
    /// The keyboard key with this code went down.
    KeyDown(i32),
    /// The keyboard key with this code went up.
    KeyUp(i32),
    /// Anything else.
    Other,
}

/// The keys after the keyboard key with the code `code` went down or up.
pub open spec fn keys_after(keys: Seq<bool>, code: i32, pressed: bool) -> Seq<bool> {
    match key_of_code(code) {
        Some(key) => keys.update(key as int, pressed),
        None => keys,
    }
}

/// The keys after `event`.
pub open spec fn keys_after_event(keys: Seq<bool>, event: InputEvent) -> Seq<bool> {
    match event {
        InputEvent::KeyDown(code) => if code == KEYCODE_ESCAPE {
            keys
        } else {
            keys_after(keys, code, true)
        },
        InputEvent::KeyUp(code) => keys_after(keys, code, false),
        _ => keys,
    }
}

/// Whether `event` ends the session: a request to close the window does,
/// and so does the escape key going down.
pub open spec fn ends_session(event: InputEvent) -> bool {
    event == InputEvent::Quit || event == InputEvent::KeyDown(KEYCODE_ESCAPE)
}

/// The lit pixels among the first `n` of line `y`, from left to right.
pub open spec fn lit_in_line(screen: Screen, y: int, n: nat) -> Seq<(ByteVal, ByteVal)>
    decreases n,
{
    if n == 0 {
        Seq::empty()
    } else if screen.lit.contains((n - 1, y)) {
        lit_in_line(screen, y, (n - 1) as nat).push(((n - 1) as ByteVal, y as ByteVal))
    } else {
        lit_in_line(screen, y, (n - 1) as nat)
    }
}

/// The lit pixels of the first `m` lines, line by line from the top, each
/// line from left to right.
pub open spec fn lit_in_lines(screen: Screen, m: nat) -> Seq<(ByteVal, ByteVal)>
    decreases m,
{
    if m == 0 {
        Seq::empty()
    } else {
        lit_in_lines(screen, (m - 1) as nat) + lit_in_line(screen, m - 1, screen.width)
    }
}

/// `lit_in_line` lists exactly the lit pixels among the first `n` of a
/// line.
pub proof fn lemma_lit_in_line(screen: Screen, y: int, n: nat, p: (ByteVal, ByteVal))
    requires
        0 <= y < 256,
        n <= 256,
    ensures
        lit_in_line(screen, y, n).contains(p) <==> p.1 == y && p.0 < n && screen.lit.contains(
            (p.0 as int, y),
        ),
    decreases n,
{
    if n > 0 {
        let rest = lit_in_line(screen, y, (n - 1) as nat);
        let last = ((n - 1) as ByteVal, y as ByteVal);
        lemma_lit_in_line(screen, y, (n - 1) as nat, p);
        if screen.lit.contains((n - 1, y)) {
            let all = rest.push(last);
            assert(all[rest.len() as int] == last);
            if rest.contains(p) {
                let k = choose|k: int| 0 <= k < rest.len() && rest[k] == p;
                assert(all[k] == p);
            }
            if all.contains(p) {
                let k = choose|k: int| 0 <= k < all.len() && all[k] == p;
                if k < rest.len() {
                    assert(rest[k] == p);
                }
            }
        }
    }
}

/// `lit_in_lines` lists exactly the lit pixels of the first `m` lines, on
/// a grid that is at most 256 pixels wide.
pub proof fn lemma_lit_in_lines(screen: Screen, m: nat, p: (ByteVal, ByteVal))
    requires
        m <= 256,
        screen.width <= 256,
    ensures
        lit_in_lines(screen, m).contains(p) <==> p.1 < m && p.0 < screen.width
            && screen.lit.contains((p.0 as int, p.1 as int)),
    decreases m,
{
    if m > 0 {
        let above = lit_in_lines(screen, (m - 1) as nat);
        let line = lit_in_line(screen, m - 1, screen.width);
        let all = above + line;
        lemma_lit_in_lines(screen, (m - 1) as nat, p);
        lemma_lit_in_line(screen, m - 1, screen.width, p);
        if above.contains(p) {
            let k = choose|k: int| 0 <= k < above.len() && above[k] == p;
            assert(all[k] == p);
        }
        if line.contains(p) {
            let k = choose|k: int| 0 <= k < line.len() && line[k] == p;
            assert(all[above.len() + k] == p);
        }
        if all.contains(p) {
            let k = choose|k: int| 0 <= k < all.len() && all[k] == p;
            if k < above.len() {
                assert(above[k] == p);
            } else {
                assert(line[k - above.len()] == p);
            }
        }
    }
}

/// The rectangle of the window that shows the display pixel `(x, y)`: its
/// left edge, its top edge, its width and its height.
pub fn pixel_rect(x: ByteVal, y: ByteVal) -> (rect: (i32, i32, u32, u32))
    ensures
        rect.0 == x * PIXEL_WIDTH,
        rect.1 == y * PIXEL_HEIGHT,
        rect.2 == PIXEL_WIDTH,
        rect.3 == PIXEL_HEIGHT,
{
    let left: i32 = (x as i32) * 10;
    let top: i32 = (y as i32) * 10;
    (left, top, PIXEL_WIDTH, PIXEL_HEIGHT)
}

/// The keypad and the display of one session.
pub struct IOState {
    keypad: Keypad,
    display_buffer: DisplayBuffer,
    display_changed: bool,
}

impl IOState {
    /// Whether the picture may have changed since it was last marked as
    /// painted.
    pub closed spec fn changed(&self) -> bool {
        self.display_changed
    }

    /// The display is 64 pixels wide and 32 pixels high, only pixels of
    /// that grid are ever on, and there are sixteen keys.
    pub proof fn lemma_geometry(&self)
        ensures
            self.screen().width == WIDTH,
            self.screen().height == HEIGHT,
            self.screen().wf(),
    {
        self.display_buffer.lemma_geometry();
    }

    /// Every key up, every pixel off, and the picture marked as changed.
    pub fn new() -> (io: IOState)
        ensures
            io.keys() == Seq::new(16, |k: int| false),
            io.screen() == Screen::blank(WIDTH as nat, HEIGHT as nat),
            io.changed(),
    {
        IOState { keypad: Keypad::new(), display_buffer: DisplayBuffer::new(), display_changed: true }
    }

    /// Whether the picture may have changed since it was last marked as
    /// painted.
    pub fn display_changed(&self) -> (changed: bool)
        ensures
            changed == self.changed(),
    {
        self.display_changed
    }

    /// Marks the picture as painted.
    pub fn mark_rendered(&mut self)
        ensures
            !final(self).changed(),
            final(self).screen() == old(self).screen(),
            final(self).keys() == old(self).keys(),
    {
        self.display_changed = false;
    }

    /// A copy of the state of the keys.
    pub fn keypad(&self) -> (keypad: Keypad)
        ensures
            keypad.keys() == self.keys(),
    {
        self.keypad
    }

    /// Records that the keyboard key with the code `key` went down
    /// (`key_state` true) or up. A key that stands for no key of the
    /// keypad changes nothing.
    pub fn process_keycode(&mut self, key: i32, key_state: bool)
        ensures
            final(self).keys() == keys_after(old(self).keys(), key, key_state),
            final(self).screen() == old(self).screen(),
            final(self).changed() == old(self).changed(),
    {
        match key_for_code(key) {
            Some(index) => {
                self.keypad.set_key(index, key_state);
            },
            None => {},
        }
    }

    /// Takes in one event. Returns whether the session goes on: it ends
    /// when the window is asked to close or the escape key goes down.
    pub fn handle_event(&mut self, event: InputEvent) -> (running: bool)
        ensures
            running == !ends_session(event),
            final(self).keys() == keys_after_event(old(self).keys(), event),
            final(self).screen() == old(self).screen(),
            final(self).changed() == old(self).changed(),
    {
        match event {
            InputEvent::Quit => false,
            InputEvent::KeyDown(code) => {
                if code == KEYCODE_ESCAPE {
                    false
                } else {
                    self.process_keycode(code, true);
                    true
                }
            },
            InputEvent::KeyUp(code) => {
                self.process_keycode(code, false);
                true
            },
            InputEvent::Other => true,
        }
    }

    /// The coordinates of the pixels that are on, line by line from the
    /// top, each line from left to right.
    pub fn lit_pixels(&self) -> (pixels: Vec<(ByteVal, ByteVal)>)
        ensures
            pixels@ == lit_in_lines(self.screen(), HEIGHT as nat),
            forall|p: (ByteVal, ByteVal)|
                pixels@.contains(p) <==> self.screen().lit.contains((p.0 as int, p.1 as int)),
    {
        proof {
            self.lemma_geometry();
        }
        let mut pixels: Vec<(ByteVal, ByteVal)> = Vec::new();
        let mut y: ByteVal = 0;
        while y < 32
            invariant
                y <= 32,
                self.screen().width == 64,
                self.screen().height == 32,
                pixels@ == lit_in_lines(self.screen(), y as nat),
            decreases 32 - y,
        {
            let ghost above = pixels@;
            let mut x: ByteVal = 0;
            while x < 64
                invariant
                    x <= 64,
                    y < 32,
                    self.screen().width == 64,
                    self.screen().height == 32,
                    pixels@ == above + lit_in_line(self.screen(), y as int, x as nat),
                decreases 64 - x,
            {
                if self.read_pixel(x, y) != 0 {
                    pixels.push((x, y));
                }
                x += 1;
            }
            y += 1;
        }
        proof {
            assert forall|p: (ByteVal, ByteVal)|
                pixels@.contains(p) <==> self.screen().lit.contains(
                    (p.0 as int, p.1 as int),
                ) by {
                lemma_lit_in_lines(self.screen(), HEIGHT as nat, p);
            }
        }
        pixels
    }
}

impl KeyboardInterface for IOState {
    closed spec fn keys(&self) -> Seq<bool> {
        self.keypad.keys()
    }

    fn key_pressed(&self, key: ByteVal) -> (pressed: bool) {
        self.keypad.key_pressed(key)
    }

    fn wait_for_key(&self) -> (key: Option<ByteVal>) {
        self.keypad.wait_for_key()
    }
}

impl DisplayInterface for IOState {
    closed spec fn screen(&self) -> Screen {
        self.display_buffer.screen()
    }

    fn dimensions(&self) -> (d: (usize, usize)) {
        self.display_buffer.dimensions()
    }

    fn clear(&mut self)
        ensures
            final(self).changed(),
            final(self).keys() == old(self).keys(),
    {
        self.display_changed = true;
        self.display_buffer.clear();
    }

    fn read_pixel(&self, x: ByteVal, y: ByteVal) -> (val: ByteVal) {
        self.display_buffer.read_pixel(x, y)
    }

    fn write_pixel(&mut self, x: ByteVal, y: ByteVal, val: ByteVal)
        ensures
            final(self).changed(),
            final(self).keys() == old(self).keys(),
    {
        self.display_changed = true;
        self.display_buffer.write_pixel(x, y, val);
    }

    fn write_pixel_xor(&mut self, x: ByteVal, y: ByteVal, val: ByteVal) -> (cleared: bool)
        ensures
            final(self).changed(),
            final(self).keys() == old(self).keys(),
    {
        self.display_changed = true;
        self.display_buffer.write_pixel_xor(x, y, val)
    }

    fn write_pixel_row_xor(&mut self, x: ByteVal, y: ByteVal, rowval: ByteVal) -> (cleared: bool)
        ensures
            final(self).changed(),
            final(self).keys() == old(self).keys(),
    {
        self.display_changed = true;
        self.display_buffer.write_pixel_row_xor(x, y, rowval)
    }
}

} // verus!
