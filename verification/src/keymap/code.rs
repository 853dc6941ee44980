//! The kernel's key codes, as `linux/input-event-codes.h` numbers them.

use vstd::prelude::*;

verus! {

pub const ESC: u16 = 1;
pub const BACKSPACE: u16 = 14;
pub const TAB: u16 = 15;
/// `F10`: half-width Latin in every Japanese IME. `F1`–`F9`, `F11` and
/// `F12` are unbound.
pub const F10: u16 = 68;
pub const ENTER: u16 = 28;
/// The keypad's own Enter, answered wherever [`ENTER`] is.
pub const KPENTER: u16 = 96;
pub const LEFTCTRL: u16 = 29;
pub const LEFTSHIFT: u16 = 42;
pub const RIGHTSHIFT: u16 = 54;
pub const LEFTALT: u16 = 56;
pub const SPACE: u16 = 57;
/// Latched by `Mods::track` on the press, unlatched by the next one.
pub const CAPSLOCK: u16 = 58;
pub const RIGHTCTRL: u16 = 97;
pub const RIGHTALT: u16 = 100;
/// The ⌘ / Super keys, accepted by `Mods::chord` alongside Ctrl.
pub const LEFTMETA: u16 = 125;
pub const RIGHTMETA: u16 = 126;
pub const HOME: u16 = 102;
pub const UP: u16 = 103;
pub const PAGEUP: u16 = 104;
pub const LEFT: u16 = 105;
pub const RIGHT: u16 = 106;
pub const END: u16 = 107;
pub const DOWN: u16 = 108;
pub const PAGEDOWN: u16 = 109;
pub const DELETE: u16 = 111;
/// `KEY_SEARCH`: the magnifier key.
pub const SEARCH: u16 = 217;
/// The two sun keys.
pub const BRIGHTNESSDOWN: u16 = 224;
pub const BRIGHTNESSUP: u16 = 225;
/// `Q` decides whether an input device is a keyboard.
pub const Q: u16 = 16;
/// The first code that is a button and not a key.
pub const BTN_MISC: u16 = 0x100;

} // verus!
