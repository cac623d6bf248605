//! Keys as the terminal reports them, and the debounce rule that drops a
//! key repeated too soon after itself.

use vstd::prelude::*;

verus! {

/// A key of the keyboard, one variant for each key the terminal layer can
/// report. `Media` and `Modifier` carry the position of the media or
/// modifier key in the terminal layer's own list of such keys.
#[derive(Debug, Clone, Copy, PartialEq, Eq, Structural)]
pub enum Key {
    Backspace,
    Enter,
    Left,
    Right,
    Up,
    Down,
    Home,
    End,
    PageUp,
    PageDown,
    Tab,
    BackTab,
    Delete,
    Insert,
    F(u8),
    Char(char),
    Null,
    Esc,
    CapsLock,
    ScrollLock,
    NumLock,
    PrintScreen,
    Pause,
    Menu,
    KeypadBegin,
    Media(u8),
    Modifier(u8),
}

/// How long, in nanoseconds (180 ms), the same key must stay quiet before it is
/// accepted again.
pub const KEY_DEBOUNCE_NANOS: u64 = 180_000_000;

/// The nanoseconds from clock reading `earlier` to clock reading `now`,
/// zero when `earlier` is the later one.
pub open spec fn nanos_between(now: u64, earlier: u64) -> u64 {
    if now >= earlier {
        (now - earlier) as u64
    } else {
        0
    }
}

/// A key press is a repeat when it is the key seen last and less than the
/// debounce interval has passed since then.
pub open spec fn is_repeat_press(last_key: Option<Key>, code: Key, elapsed_nanos: u64) -> bool {
    last_key == Some(code) && elapsed_nanos < KEY_DEBOUNCE_NANOS
}

/// Decides whether a press of `code`, `elapsed_nanos` after the press of
/// `last_key`, repeats it.
pub fn debounce(last_key: Option<Key>, code: Key, elapsed_nanos: u64) -> (r: bool)
    ensures
        r == is_repeat_press(last_key, code, elapsed_nanos),
{
    match last_key {
        Some(k) => k == code && elapsed_nanos < KEY_DEBOUNCE_NANOS,
        None => false,
    }
}

} // verus!
