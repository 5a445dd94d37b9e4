//! Decoding of raw evdev key events into key presses: the per-device
//! decisions of a keyboard reader, which is fed one event at a time.

use vstd::prelude::*;

use crate::keymap::{self, is_shift, map_key, Key};

verus! {

/// What a keyboard reader hands to the main loop.
#[derive(Clone, Copy, PartialEq, Eq, Debug)]
pub enum InputEvent {
    Key(Key),
}

/// The state a keyboard reader keeps between events: whether shift is held.
pub struct KeyReader {
    pub shift_held: bool,
}

/// The reader's next shift state and decoded key for one key event, where
/// `value` is 0 for a release, 1 for a press and 2 for an autorepeat.
pub open spec fn key_event_step(shift_held: bool, code: u16, value: i32) -> (bool, Option<Key>) {
    if keymap::spec_is_shift(code) {
        (value != 0, None)
    } else if value == 0 {
        (shift_held, None)
    } else {
        (shift_held, keymap::spec_map_key(code, shift_held))
    }
}

impl KeyReader {
    /// A reader that starts with shift released.
    pub fn new() -> (r: Self)
        ensures
            !r.shift_held,
    {
        KeyReader { shift_held: false }
    }

    /// Feeds one key event; returns the key it produces, if any.
    pub fn on_key_event(&mut self, code: u16, value: i32) -> (r: Option<InputEvent>)
        ensures
            (final(self).shift_held, match r {
                Some(InputEvent::Key(k)) => Some(k),
                None => None,
            }) == key_event_step(old(self).shift_held, code, value),
            !keymap::spec_is_shift(code) && value != 0 ==> r == match keymap::spec_map_key(
                code,
                old(self).shift_held,
            ) {
                Some(k) => Some(InputEvent::Key(k)),
                None => None::<InputEvent>,
            },
    {
        if is_shift(code) {
            self.shift_held = value != 0;
            return None;
        }
        if value == 0 {
            return None;
        }
        match map_key(code, self.shift_held) {
            Some(k) => Some(InputEvent::Key(k)),
            None => None,
        }
    }
}

/// Releases never produce a key, and a shift event sets the shift state to
/// whether the key is down, whatever it was before.
pub proof fn lemma_reader_events(shift_held: bool, code: u16, value: i32)
    ensures
        value == 0 ==> key_event_step(shift_held, code, value).1 is None,
        keymap::spec_is_shift(code) ==> key_event_step(shift_held, code, value) == (value != 0, None::<Key>),
        !keymap::spec_is_shift(code) ==> key_event_step(shift_held, code, value).0 == shift_held,
{
}

/// Every press and every autorepeat of a key other than shift gives the key
/// the table maps it to under the current shift state, so holding a key
/// keeps producing it; an autorepeat acts exactly as a press does.
pub proof fn lemma_presses_and_repeats_give_the_key(shift_held: bool, code: u16, value: i32)
    ensures
        !keymap::spec_is_shift(code) && value != 0 ==> key_event_step(shift_held, code, value) == (
            shift_held,
            keymap::spec_map_key(code, shift_held),
        ),
        key_event_step(shift_held, code, 2) == key_event_step(shift_held, code, 1),
{
}

} // verus!
