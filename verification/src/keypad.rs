//! The sixteen-key keypad.

use vstd::prelude::*;
use crate::interfaces::{KeyboardInterface, first_pressed, first_pressed_from};
use crate::types::ByteVal;

verus! {

/// Code of the escape key.
pub const KEYCODE_ESCAPE: i32 = 27;

/// The key of the keypad that the keyboard key with the code `code`
/// stands for: the digits `0` to `9` and the letters `a` to `f` stand for
/// the keys of the same hexadecimal value.
pub open spec fn key_of_code(code: i32) -> Option<ByteVal> {
    if 48 <= code <= 57 {
        Some((code - 48) as ByteVal)
    } else if 97 <= code <= 102 {
        Some((code - 87) as ByteVal)
    } else {
        None
    }
}

/// The key of the keypad that a keyboard key stands for, if it stands for
/// one. `code` is the code point of the character that the key types.
pub fn key_for_code(code: i32) -> (key: Option<ByteVal>)
    ensures
        key == key_of_code(code),
        key matches Some(k) ==> k < 16,
{
    if 48 <= code && code <= 57 {
        Some((code - 48) as ByteVal)
    } else if 97 <= code && code <= 102 {
        Some((code - 87) as ByteVal)
    } else {
        None
    }
}

/// Which of the sixteen keys are down.
#[derive(Debug, Clone, Copy)]
pub struct Keypad {
    key_pressed: [bool; 16],
}

/// `first_pressed_from` finds the lowest key at or above `from` that is
/// down, and finds none only if none is down.
pub proof fn lemma_first_pressed_from(keys: Seq<bool>, from: int)
    requires
        0 <= from <= 16,
    ensures
        match first_pressed_from(keys, from) {
            Some(k) => from <= k < 16 && keys[k as int] && forall|j: int|
                from <= j < k ==> !keys[j],
            None => forall|j: int| from <= j < 16 ==> !keys[j],
        },
    decreases 16 - from,
{
    if from < 16 && !keys[from] {
        lemma_first_pressed_from(keys, from + 1);
    }
}

/// `first_pressed` is the lowest key that is down, and is `None` exactly
/// when no key is down.
pub proof fn lemma_first_pressed(keys: Seq<bool>)
    ensures
        match first_pressed(keys) {
            Some(k) => k < 16 && keys[k as int] && forall|j: int| 0 <= j < k ==> !keys[j],
            None => forall|j: int| 0 <= j < 16 ==> !keys[j],
        },
{
    lemma_first_pressed_from(keys, 0);
}

impl Keypad {
    /// A keypad with every key up.
    pub fn new() -> (keypad: Keypad)
        ensures
            keypad.keys() == Seq::new(16, |k: int| false),
    {
        let keypad = Keypad { key_pressed: [false;16] };
        assert(keypad.keys() =~= Seq::new(16, |k: int| false));
        keypad
    }

    /// Records that `key` went down or up. A `key` that is no key of the
    /// keypad changes nothing.
    pub fn set_key(&mut self, key: ByteVal, pressed: bool)
        ensures
            key < 16 ==> final(self).keys() == old(self).keys().update(key as int, pressed),
            key >= 16 ==> final(self).keys() == old(self).keys(),
            final(self).keys().len() == 16,
    {
        if key < 16 {
            self.key_pressed[key as usize] = pressed;
        }
    }
}

impl KeyboardInterface for Keypad {
    closed spec fn keys(&self) -> Seq<bool> {
        self.key_pressed@
    }

    fn key_pressed(&self, key: ByteVal) -> (pressed: bool) {
        self.key_pressed[key as usize]
    }

    fn wait_for_key(&self) -> (key: Option<ByteVal>) {
        let mut i: ByteVal = 0;
        while i < 16
            invariant
                i <= 16,
                first_pressed(self.keys()) == first_pressed_from(self.keys(), i as int),
            decreases 16 - i,
        {
            if self.key_pressed[i as usize] {
                return Some(i);
            }
            i += 1;
        }
        None
    }
}

} // verus!
