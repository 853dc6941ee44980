//! From a key code and the modifiers held to the character or the action that
//! the key stands for, on the two arrangements the editor is written on.

use vstd::prelude::*;

use crate::text::same_text;

pub mod code;

verus! {

/// Which modifiers are held, and whether Caps Lock is latched.
#[derive(Debug, Clone, Copy, PartialEq, Eq, Structural)]
pub struct Mods {
    pub shift: bool,
    pub ctrl: bool,
    pub alt: bool,
    /// The right Alt key: AltGr on the German arrangement.
    pub altgr: bool,
    /// The key with the clover on it.
    pub meta: bool,
    pub caps: bool,
}

impl Default for Mods {
    fn default() -> (r: Self)
        ensures
            r == (Mods { shift: false, ctrl: false, alt: false, altgr: false, meta: false, caps: false }),
    {
        Mods { shift: false, ctrl: false, alt: false, altgr: false, meta: false, caps: false }
    }
}

/// Whether a code is one of the modifier keys.
pub open spec fn is_modifier(code: u16) -> bool {
    ||| code == code::LEFTSHIFT
    ||| code == code::RIGHTSHIFT
    ||| code == code::LEFTCTRL
    ||| code == code::RIGHTCTRL
    ||| code == code::LEFTALT
    ||| code == code::RIGHTALT
    ||| code == code::LEFTMETA
    ||| code == code::RIGHTMETA
    ||| code == code::CAPSLOCK
}

impl Mods {
    /// The modifiers after `code` went down or came up. Caps Lock turns over on
    /// a press and stays through the release.
    pub open spec fn after(self, code: u16, pressed: bool) -> Mods {
        if code == code::LEFTSHIFT || code == code::RIGHTSHIFT {
            Mods { shift: pressed, ..self }
        } else if code == code::LEFTCTRL || code == code::RIGHTCTRL {
            Mods { ctrl: pressed, ..self }
        } else if code == code::LEFTALT {
            Mods { alt: pressed, ..self }
        } else if code == code::RIGHTALT {
            Mods { altgr: pressed, ..self }
        } else if code == code::LEFTMETA || code == code::RIGHTMETA {
            Mods { meta: pressed, ..self }
        } else if code == code::CAPSLOCK {
            Mods { caps: self.caps != pressed, ..self }
        } else {
            self
        }
    }

    pub open spec fn chorded(self) -> bool {
        self.ctrl || self.meta
    }

    /// Update on a press or release. `true` when `code` is a modifier.
    pub fn track(&mut self, code: u16, pressed: bool) -> (r: bool)
        ensures
            *final(self) == old(self).after(code, pressed),
            r == is_modifier(code),
    {
        if code == code::LEFTSHIFT || code == code::RIGHTSHIFT {
            self.shift = pressed;
        } else if code == code::LEFTCTRL || code == code::RIGHTCTRL {
            self.ctrl = pressed;
        } else if code == code::LEFTALT {
            self.alt = pressed;
        } else if code == code::RIGHTALT {
            self.altgr = pressed;
        } else if code == code::LEFTMETA || code == code::RIGHTMETA {
            self.meta = pressed;
        } else if code == code::CAPSLOCK {
            self.caps = self.caps != pressed;
        } else {
            return false;
        }
        true
    }

    /// Whether the modifiers make a shortcut of a key.
    pub fn chord(self) -> (r: bool)
        ensures
            r == self.chorded(),
    {
        self.ctrl || self.meta
    }
}

/// Which of the two keys beside the space bar a keyboard calls its command key.
#[derive(Debug, Clone, Copy, PartialEq, Eq, Structural)]
pub enum Convention {
    Mac,
    Pc,
}

impl Default for Convention {
    fn default() -> (r: Self)
        ensures
            r == Convention::Mac,
    {
        Convention::Mac
    }
}

impl Convention {
    pub open spec fn named(self) -> Seq<char> {
        match self {
            Convention::Mac => "Mac"@,
            Convention::Pc => "PC"@,
        }
    }

    pub open spec fn of_name(name: Seq<char>) -> Convention {
        if name == "PC"@ {
            Convention::Pc
        } else {
            Convention::Mac
        }
    }

    /// The modifiers as a keyboard with the command key against the space bar
    /// would have sent them.
    pub open spec fn resolved(self, mods: Mods) -> Mods {
        match self {
            Convention::Mac => mods,
            Convention::Pc => Mods { alt: mods.meta, meta: mods.alt, ..mods },
        }
    }

    pub fn name(self) -> (r: &'static str)
        ensures
            r@ == self.named(),
    {
        match self {
            Convention::Mac => "Mac",
            Convention::Pc => "PC",
        }
    }

    /// The convention of that name; `Mac` for any other text.
    pub fn from_name(name: &str) -> (r: Self)
        ensures
            r == Convention::of_name(name@),
    {
        if same_text(name, "PC") {
            Convention::Pc
        } else {
            Convention::Mac
        }
    }

    pub fn resolve(self, mods: Mods) -> (r: Mods)
        ensures
            r == self.resolved(mods),
    {
        match self {
            Convention::Mac => mods,
            Convention::Pc => Mods { alt: mods.meta, meta: mods.alt, ..mods },
        }
    }
}

/// What a key asks the editor to do.
#[derive(Debug, Clone, Copy, PartialEq, Eq)]
pub enum Action {
    Insert(char),
    Newline,
    /// A tab, inserted as spaces. Markdown nesting counts columns.
    Indent,
    Backspace,
    Delete,
    /// Delete the word behind the cursor, or the selection.
    DeleteWordBack,
    DeleteWordForward,
    /// ⌘⌫: back to the start of the line in one go.
    DeleteToLineStart,
    DeleteToLineEnd,
    Left,
    Right,
    Up,
    Down,
    PageUp,
    PageDown,
    LineStart,
    LineEnd,
    WordLeft,
    WordRight,
    /// Top and bottom of the document: `Ctrl+Home`/`End`, or ⌘↑/⌘↓.
    DocStart,
    DocEnd,
    /// The `Shift`-held forms of the movements above: same destination,
    /// dragging the selection along.
    ExtendLeft,
    ExtendRight,
    ExtendUp,
    ExtendDown,
    ExtendLineStart,
    ExtendLineEnd,
    ExtendWordLeft,
    ExtendWordRight,
    ExtendDocStart,
    ExtendDocEnd,
    SelectAll,
    Cut,
    Copy,
    Paste,
    Undo,
    Redo,
    Save,
    Quit,
    /// Switch Chinese input on or off. `Ctrl` + `Space`.
    CycleLanguage,
    /// Set the page back around the sentence being written. `Ctrl`/`⌘` + `D`.
    ToggleFocus,
    /// Open the find bar, seeded by the selection. `Ctrl`/`⌘` + `F`.
    Find,
    /// Open the find bar with its second field: what to put in place of each
    /// match. `Ctrl`/`⌘` + `Shift` + `F`.
    Replace,
    /// Change the match on screen and step to the next. `Ctrl`/`⌘` + `Enter`.
    /// Inert outside the replace bar.
    Change,
    /// Change every match. `Ctrl`/`⌘` + `Shift` + `Enter`.
    ChangeAll,
    /// The headings of the open document, to jump between.
    /// `Ctrl`/`⌘` + `Shift` + `O`.
    Outline,
    /// Show what the keys and the glass do. `Ctrl`/`⌘` + `H`.
    Help,
    /// Clear the panel: a black frame and then the page again. `Ctrl`/`⌘` + `R`.
    Refresh,
    /// Set the page a size larger or smaller. `Ctrl`/`⌘` + `+` and `-`.
    Resize(bool),
    /// Set the page back to the size it opens at. `Ctrl`/`⌘` + `0`.
    ResetSize,
    /// Take the frontlight one step up or down. The two sun keys.
    Brightness(bool),
    /// Take the next margin along. `Ctrl`/`⌘` + `M`.
    CycleMargins,
    /// The document list. `Ctrl`/`⌘` + `O`.
    Files,
    /// Start a document, skipping the list. `Ctrl`/`⌘` + `N`.
    NewDocument,
    /// Settings. `Ctrl`/`⌘` + `,`.
    Config,
    /// Wrap the selection — or the word under the cursor — in `**` or `*`.
    /// `Ctrl`/`⌘` + `B` and `I`.
    Emphasis(&'static str),
    /// Set the current line to this heading level, or back to prose.
    /// `Ctrl`/`⌘` + `1`…`6`.
    Heading(u8),
    /// Commit what was typed as Latin. `F10`. Inert while CJK input is off.
    CommitTyped,
    /// Abandon the syllable being composed. Inert while writing.
    Escape,
    /// Caps Lock was pressed, and this is how the latch stands now.
    CapsLock(bool),
}

/// A keyboard arrangement.
#[derive(Debug, Clone, Copy, PartialEq, Eq, Structural)]
pub enum Layout {
    Us,
    German,
}

impl Default for Layout {
    fn default() -> (r: Self)
        ensures
            r == Layout::Us,
    {
        Layout::Us
    }
}

/// One key of an arrangement: its code, and what it types plain, with Shift and
/// with AltGr.
pub type Key = (u16, char, char, Option<char>);

/// No arrangement names a code past this one.
pub const LAST_CODE: u16 = 127;

/// What the keys of the US arrangement type: plain, with Shift, with AltGr.
pub open spec fn us_key(code: u16) -> Option<(char, char, Option<char>)> {
    match code {
        2 => Some(('1', '!', None)),
        3 => Some(('2', '@', None)),
        4 => Some(('3', '#', None)),
        5 => Some(('4', '$', None)),
        6 => Some(('5', '%', None)),
        7 => Some(('6', '^', None)),
        8 => Some(('7', '&', None)),
        9 => Some(('8', '*', None)),
        10 => Some(('9', '(', None)),
        11 => Some(('0', ')', None)),
        12 => Some(('-', '_', None)),
        13 => Some(('=', '+', None)),
        16 => Some(('q', 'Q', None)),
        17 => Some(('w', 'W', None)),
        18 => Some(('e', 'E', None)),
        19 => Some(('r', 'R', None)),
        20 => Some(('t', 'T', None)),
        21 => Some(('y', 'Y', None)),
        22 => Some(('u', 'U', None)),
        23 => Some(('i', 'I', None)),
        24 => Some(('o', 'O', None)),
        25 => Some(('p', 'P', None)),
        26 => Some(('[', '{', None)),
        27 => Some((']', '}', None)),
        30 => Some(('a', 'A', None)),
        31 => Some(('s', 'S', None)),
        32 => Some(('d', 'D', None)),
        33 => Some(('f', 'F', None)),
        34 => Some(('g', 'G', None)),
        35 => Some(('h', 'H', None)),
        36 => Some(('j', 'J', None)),
        37 => Some(('k', 'K', None)),
        38 => Some(('l', 'L', None)),
        39 => Some((';', ':', None)),
        40 => Some(('\'', '"', None)),
        41 => Some(('`', '~', None)),
        43 => Some(('\\', '|', None)),
        44 => Some(('z', 'Z', None)),
        45 => Some(('x', 'X', None)),
        46 => Some(('c', 'C', None)),
        47 => Some(('v', 'V', None)),
        48 => Some(('b', 'B', None)),
        49 => Some(('n', 'N', None)),
        50 => Some(('m', 'M', None)),
        51 => Some((',', '<', None)),
        52 => Some(('.', '>', None)),
        53 => Some(('/', '?', None)),
        86 => Some(('\\', '|', None)),
        _ => None,
    }
}

/// What the keys of the German arrangement type: plain, with Shift, with AltGr.
pub open spec fn german_key(code: u16) -> Option<(char, char, Option<char>)> {
    match code {
        2 => Some(('1', '!', None)),
        3 => Some(('2', '"', Some('²'))),
        4 => Some(('3', '§', Some('³'))),
        5 => Some(('4', '$', None)),
        6 => Some(('5', '%', None)),
        7 => Some(('6', '&', None)),
        8 => Some(('7', '/', Some('{'))),
        9 => Some(('8', '(', Some('['))),
        10 => Some(('9', ')', Some(']'))),
        11 => Some(('0', '=', Some('}'))),
        12 => Some(('ß', '?', Some('\\'))),
        13 => Some(('´', '`', None)),
        16 => Some(('q', 'Q', Some('@'))),
        17 => Some(('w', 'W', None)),
        18 => Some(('e', 'E', Some('€'))),
        19 => Some(('r', 'R', None)),
        20 => Some(('t', 'T', None)),
        21 => Some(('z', 'Z', None)),
        22 => Some(('u', 'U', None)),
        23 => Some(('i', 'I', None)),
        24 => Some(('o', 'O', None)),
        25 => Some(('p', 'P', None)),
        26 => Some(('ü', 'Ü', None)),
        27 => Some(('+', '*', Some('~'))),
        30 => Some(('a', 'A', None)),
        31 => Some(('s', 'S', None)),
        32 => Some(('d', 'D', None)),
        33 => Some(('f', 'F', None)),
        34 => Some(('g', 'G', None)),
        35 => Some(('h', 'H', None)),
        36 => Some(('j', 'J', None)),
        37 => Some(('k', 'K', None)),
        38 => Some(('l', 'L', None)),
        39 => Some(('ö', 'Ö', None)),
        40 => Some(('ä', 'Ä', None)),
        41 => Some(('^', '°', None)),
        43 => Some(('#', '\'', None)),
        44 => Some(('y', 'Y', None)),
        45 => Some(('x', 'X', None)),
        46 => Some(('c', 'C', None)),
        47 => Some(('v', 'V', None)),
        48 => Some(('b', 'B', None)),
        49 => Some(('n', 'N', None)),
        50 => Some(('m', 'M', Some('µ'))),
        51 => Some((',', ';', None)),
        52 => Some(('.', ':', None)),
        53 => Some(('-', '_', None)),
        86 => Some(('<', '>', Some('|'))),
        _ => None,
    }
}

/// What the number pad types, on either arrangement and under any modifier.
pub open spec fn pad_key(code: u16) -> Option<char> {
    match code {
        55 => Some('*'),
        71 => Some('7'),
        72 => Some('8'),
        73 => Some('9'),
        74 => Some('-'),
        75 => Some('4'),
        76 => Some('5'),
        77 => Some('6'),
        78 => Some('+'),
        79 => Some('1'),
        80 => Some('2'),
        81 => Some('3'),
        82 => Some('0'),
        83 => Some('.'),
        98 => Some('/'),
        _ => None,
    }
}

fn us(code: u16) -> (r: Option<(char, char, Option<char>)>)
    ensures
        r == us_key(code),
{
    match code {
        2 => Some(('1', '!', None)),
        3 => Some(('2', '@', None)),
        4 => Some(('3', '#', None)),
        5 => Some(('4', '$', None)),
        6 => Some(('5', '%', None)),
        7 => Some(('6', '^', None)),
        8 => Some(('7', '&', None)),
        9 => Some(('8', '*', None)),
        10 => Some(('9', '(', None)),
        11 => Some(('0', ')', None)),
        12 => Some(('-', '_', None)),
        13 => Some(('=', '+', None)),
        16 => Some(('q', 'Q', None)),
        17 => Some(('w', 'W', None)),
        18 => Some(('e', 'E', None)),
        19 => Some(('r', 'R', None)),
        20 => Some(('t', 'T', None)),
        21 => Some(('y', 'Y', None)),
        22 => Some(('u', 'U', None)),
        23 => Some(('i', 'I', None)),
        24 => Some(('o', 'O', None)),
        25 => Some(('p', 'P', None)),
        26 => Some(('[', '{', None)),
        27 => Some((']', '}', None)),
        30 => Some(('a', 'A', None)),
        31 => Some(('s', 'S', None)),
        32 => Some(('d', 'D', None)),
        33 => Some(('f', 'F', None)),
        34 => Some(('g', 'G', None)),
        35 => Some(('h', 'H', None)),
        36 => Some(('j', 'J', None)),
        37 => Some(('k', 'K', None)),
        38 => Some(('l', 'L', None)),
        39 => Some((';', ':', None)),
        40 => Some(('\'', '"', None)),
        41 => Some(('`', '~', None)),
        43 => Some(('\\', '|', None)),
        44 => Some(('z', 'Z', None)),
        45 => Some(('x', 'X', None)),
        46 => Some(('c', 'C', None)),
        47 => Some(('v', 'V', None)),
        48 => Some(('b', 'B', None)),
        49 => Some(('n', 'N', None)),
        50 => Some(('m', 'M', None)),
        51 => Some((',', '<', None)),
        52 => Some(('.', '>', None)),
        53 => Some(('/', '?', None)),
        86 => Some(('\\', '|', None)),
        _ => None,
    }
}

fn german(code: u16) -> (r: Option<(char, char, Option<char>)>)
    ensures
        r == german_key(code),
{
    match code {
        2 => Some(('1', '!', None)),
        3 => Some(('2', '"', Some('²'))),
        4 => Some(('3', '§', Some('³'))),
        5 => Some(('4', '$', None)),
        6 => Some(('5', '%', None)),
        7 => Some(('6', '&', None)),
        8 => Some(('7', '/', Some('{'))),
        9 => Some(('8', '(', Some('['))),
        10 => Some(('9', ')', Some(']'))),
        11 => Some(('0', '=', Some('}'))),
        12 => Some(('ß', '?', Some('\\'))),
        13 => Some(('´', '`', None)),
        16 => Some(('q', 'Q', Some('@'))),
        17 => Some(('w', 'W', None)),
        18 => Some(('e', 'E', Some('€'))),
        19 => Some(('r', 'R', None)),
        20 => Some(('t', 'T', None)),
        21 => Some(('z', 'Z', None)),
        22 => Some(('u', 'U', None)),
        23 => Some(('i', 'I', None)),
        24 => Some(('o', 'O', None)),
        25 => Some(('p', 'P', None)),
        26 => Some(('ü', 'Ü', None)),
        27 => Some(('+', '*', Some('~'))),
        30 => Some(('a', 'A', None)),
        31 => Some(('s', 'S', None)),
        32 => Some(('d', 'D', None)),
        33 => Some(('f', 'F', None)),
        34 => Some(('g', 'G', None)),
        35 => Some(('h', 'H', None)),
        36 => Some(('j', 'J', None)),
        37 => Some(('k', 'K', None)),
        38 => Some(('l', 'L', None)),
        39 => Some(('ö', 'Ö', None)),
        40 => Some(('ä', 'Ä', None)),
        41 => Some(('^', '°', None)),
        43 => Some(('#', '\'', None)),
        44 => Some(('y', 'Y', None)),
        45 => Some(('x', 'X', None)),
        46 => Some(('c', 'C', None)),
        47 => Some(('v', 'V', None)),
        48 => Some(('b', 'B', None)),
        49 => Some(('n', 'N', None)),
        50 => Some(('m', 'M', Some('µ'))),
        51 => Some((',', ';', None)),
        52 => Some(('.', ':', None)),
        53 => Some(('-', '_', None)),
        86 => Some(('<', '>', Some('|'))),
        _ => None,
    }
}

fn keypad(code: u16) -> (r: Option<char>)
    ensures
        r == pad_key(code),
{
    match code {
        55 => Some('*'),
        71 => Some('7'),
        72 => Some('8'),
        73 => Some('9'),
        74 => Some('-'),
        75 => Some('4'),
        76 => Some('5'),
        77 => Some('6'),
        78 => Some('+'),
        79 => Some('1'),
        80 => Some('2'),
        81 => Some('3'),
        82 => Some('0'),
        83 => Some('.'),
        98 => Some('/'),
        _ => None,
    }
}

impl Layout {
    pub open spec fn named(self) -> Seq<char> {
        match self {
            Layout::Us => "US"@,
            Layout::German => "German"@,
        }
    }

    /// What a key of this arrangement types: plain, with Shift, with AltGr.
    pub open spec fn key(self, code: u16) -> Option<(char, char, Option<char>)> {
        match self {
            Layout::Us => us_key(code),
            Layout::German => german_key(code),
        }
    }

    pub fn name(self) -> (r: &'static str)
        ensures
            r@ == self.named(),
    {
        match self {
            Layout::Us => "US",
            Layout::German => "German",
        }
    }

    fn at(self, code: u16) -> (r: Option<(char, char, Option<char>)>)
        ensures
            r == self.key(code),
    {
        match self {
            Layout::Us => us(code),
            Layout::German => german(code),
        }
    }

    /// Every key of this arrangement, by rising code, each code once.
    pub fn table(self) -> (r: Vec<Key>)
        ensures
            forall|i: int|
                0 <= i < r.len() ==> self.key((#[trigger] r[i]).0) == Some((r[i].1, r[i].2, r[i].3)),
            forall|i: int, j: int| 0 <= i < j < r.len() ==> (#[trigger] r[i]).0 < (#[trigger] r[j]).0,
            forall|code: u16|
                (#[trigger] self.key(code)) is Some ==> exists|i: int|
                    0 <= i < r.len() && (#[trigger] r[i]).0 == code,
    {
        let mut keys: Vec<Key> = Vec::new();
        let mut code: u16 = 0;
        while code <= LAST_CODE
            invariant
                code <= LAST_CODE + 1,
                forall|i: int|
                    0 <= i < keys.len() ==> self.key((#[trigger] keys[i]).0) == Some(
                        (keys[i].1, keys[i].2, keys[i].3),
                    ) && keys[i].0 < code,
                forall|i: int, j: int|
                    0 <= i < j < keys.len() ==> (#[trigger] keys[i]).0 < (#[trigger] keys[j]).0,
                forall|c: u16|
                    c < code && (#[trigger] self.key(c)) is Some ==> exists|i: int|
                        0 <= i < keys.len() && (#[trigger] keys[i]).0 == c,
            decreases LAST_CODE + 1 - code,
        {
            let ghost before = keys@;
            if let Some((plain, shifted, altgr)) = self.at(code) {
                keys.push((code, plain, shifted, altgr));
                assert(keys[keys.len() - 1].0 == code);
            }
            proof {
                assert forall|c: u16|
                    c < code + 1 && (#[trigger] self.key(c)) is Some implies exists|i: int|
                    0 <= i < keys.len() && (#[trigger] keys[i]).0 == c by {
                    if c < code {
                        let i = choose|i: int| 0 <= i < before.len() && (#[trigger] before[i]).0 == c;
                        assert(keys[i].0 == c);
                    }
                }
            }
            code = code + 1;
        }
        keys
    }
}

/// Whether `upper` alone is the capital of `lower`, among the letters of Latin-1
/// that the arrangements carry.
pub open spec fn is_capital(lower: char, upper: char) -> bool {
    let n = lower as int;
    (97 <= n <= 122 || (0xe0 <= n <= 0xfe && n != 0xf7)) && upper as int == n - 32
}

fn capital_of(lower: char, upper: char) -> (r: bool)
    ensures
        r == is_capital(lower, upper),
{
    let n: u32 = lower as u32;
    ((97 <= n && n <= 122) || (0xe0 <= n && n <= 0xfe && n != 0xf7)) && upper as u32 == n - 32
}

/// The character a key types. AltGr, which is the right-hand Alt key of the German
/// arrangement alone, outranks Shift; Caps Lock is Shift for the keys whose upper
/// character is the capital of the lower, and nothing for the rest.
pub open spec fn typed(code: u16, mods: Mods, layout: Layout) -> Option<char> {
    if code == code::SPACE {
        Some(' ')
    } else if pad_key(code) is Some {
        pad_key(code)
    } else {
        match layout.key(code) {
            None => None,
            Some((plain, shifted, altgr)) => if mods.altgr && layout == Layout::German {
                altgr
            } else if mods.shift != (mods.caps && is_capital(plain, shifted)) {
                Some(shifted)
            } else {
                Some(plain)
            },
        }
    }
}

pub fn character(code: u16, mods: Mods, layout: Layout) -> (r: Option<char>)
    ensures
        r == typed(code, mods, layout),
{
    if code == code::SPACE {
        return Some(' ');
    }
    if let Some(key) = keypad(code) {
        return Some(key);
    }
    match layout.at(code) {
        None => None,
        Some((plain, shifted, altgr)) => {
            if mods.altgr && layout == Layout::German {
                return altgr;
            }
            let caps = mods.caps && capital_of(plain, shifted);
            Some(
                if mods.shift != caps {
                    shifted
                } else {
                    plain
                },
            )
        },
    }
}

/// How far one press of a movement or deletion key reaches.
#[derive(Debug, Clone, Copy, PartialEq, Eq, Structural)]
pub enum Grain {
    Char,
    Word,
    Line,
}

/// The command key reaches to the line's end, and outranks the modifiers that
/// reach a word.
pub open spec fn grain_of(mods: Mods) -> Grain {
    if mods.meta {
        Grain::Line
    } else if mods.ctrl || mods.alt || mods.altgr {
        Grain::Word
    } else {
        Grain::Char
    }
}

/// What the movement and deletion keys do at each reach, with Shift and
/// without; nothing for any other key.
pub open spec fn moved(code: u16, grain: Grain, shift: bool) -> Option<Action> {
    match (code, grain, shift) {
        (code::LEFT, Grain::Char, false) => Some(Action::Left),
        (code::LEFT, Grain::Char, true) => Some(Action::ExtendLeft),
        (code::LEFT, Grain::Word, false) => Some(Action::WordLeft),
        (code::LEFT, Grain::Word, true) => Some(Action::ExtendWordLeft),
        (code::LEFT, Grain::Line, false) => Some(Action::LineStart),
        (code::LEFT, Grain::Line, true) => Some(Action::ExtendLineStart),
        (code::RIGHT, Grain::Char, false) => Some(Action::Right),
        (code::RIGHT, Grain::Char, true) => Some(Action::ExtendRight),
        (code::RIGHT, Grain::Word, false) => Some(Action::WordRight),
        (code::RIGHT, Grain::Word, true) => Some(Action::ExtendWordRight),
        (code::RIGHT, Grain::Line, false) => Some(Action::LineEnd),
        (code::RIGHT, Grain::Line, true) => Some(Action::ExtendLineEnd),
        (code::UP, Grain::Line, false) => Some(Action::DocStart),
        (code::UP, Grain::Line, true) => Some(Action::ExtendDocStart),
        (code::DOWN, Grain::Line, false) => Some(Action::DocEnd),
        (code::DOWN, Grain::Line, true) => Some(Action::ExtendDocEnd),
        (code::UP, _, false) => Some(Action::Up),
        (code::UP, _, true) => Some(Action::ExtendUp),
        (code::DOWN, _, false) => Some(Action::Down),
        (code::DOWN, _, true) => Some(Action::ExtendDown),
        (code::HOME, Grain::Char, false) => Some(Action::LineStart),
        (code::HOME, Grain::Char, true) => Some(Action::ExtendLineStart),
        (code::HOME, _, false) => Some(Action::DocStart),
        (code::HOME, _, true) => Some(Action::ExtendDocStart),
        (code::END, Grain::Char, false) => Some(Action::LineEnd),
        (code::END, Grain::Char, true) => Some(Action::ExtendLineEnd),
        (code::END, _, false) => Some(Action::DocEnd),
        (code::END, _, true) => Some(Action::ExtendDocEnd),
        (code::BACKSPACE, Grain::Char, _) => Some(Action::Backspace),
        (code::BACKSPACE, Grain::Word, _) => Some(Action::DeleteWordBack),
        (code::BACKSPACE, Grain::Line, _) => Some(Action::DeleteToLineStart),
        (code::DELETE, Grain::Char, _) => Some(Action::Delete),
        (code::DELETE, Grain::Word, _) => Some(Action::DeleteWordForward),
        (code::DELETE, Grain::Line, _) => Some(Action::DeleteToLineEnd),
        _ => None,
    }
}

pub fn movement(code: u16, mods: Mods) -> (r: Option<Action>)
    ensures
        r == moved(code, grain_of(mods), mods.shift),
{
    let grain = if mods.meta {
        Grain::Line
    } else if mods.ctrl || mods.alt || mods.altgr {
        Grain::Word
    } else {
        Grain::Char
    };
    let shift = mods.shift;
    match (code, grain, shift) {
        (code::LEFT, Grain::Char, false) => Some(Action::Left),
        (code::LEFT, Grain::Char, true) => Some(Action::ExtendLeft),
        (code::LEFT, Grain::Word, false) => Some(Action::WordLeft),
        (code::LEFT, Grain::Word, true) => Some(Action::ExtendWordLeft),
        (code::LEFT, Grain::Line, false) => Some(Action::LineStart),
        (code::LEFT, Grain::Line, true) => Some(Action::ExtendLineStart),
        (code::RIGHT, Grain::Char, false) => Some(Action::Right),
        (code::RIGHT, Grain::Char, true) => Some(Action::ExtendRight),
        (code::RIGHT, Grain::Word, false) => Some(Action::WordRight),
        (code::RIGHT, Grain::Word, true) => Some(Action::ExtendWordRight),
        (code::RIGHT, Grain::Line, false) => Some(Action::LineEnd),
        (code::RIGHT, Grain::Line, true) => Some(Action::ExtendLineEnd),
        (code::UP, Grain::Line, false) => Some(Action::DocStart),
        (code::UP, Grain::Line, true) => Some(Action::ExtendDocStart),
        (code::DOWN, Grain::Line, false) => Some(Action::DocEnd),
        (code::DOWN, Grain::Line, true) => Some(Action::ExtendDocEnd),
        (code::UP, _, false) => Some(Action::Up),
        (code::UP, _, true) => Some(Action::ExtendUp),
        (code::DOWN, _, false) => Some(Action::Down),
        (code::DOWN, _, true) => Some(Action::ExtendDown),
        (code::HOME, Grain::Char, false) => Some(Action::LineStart),
        (code::HOME, Grain::Char, true) => Some(Action::ExtendLineStart),
        (code::HOME, _, false) => Some(Action::DocStart),
        (code::HOME, _, true) => Some(Action::ExtendDocStart),
        (code::END, Grain::Char, false) => Some(Action::LineEnd),
        (code::END, Grain::Char, true) => Some(Action::ExtendLineEnd),
        (code::END, _, false) => Some(Action::DocEnd),
        (code::END, _, true) => Some(Action::ExtendDocEnd),
        (code::BACKSPACE, Grain::Char, _) => Some(Action::Backspace),
        (code::BACKSPACE, Grain::Word, _) => Some(Action::DeleteWordBack),
        (code::BACKSPACE, Grain::Line, _) => Some(Action::DeleteToLineStart),
        (code::DELETE, Grain::Char, _) => Some(Action::Delete),
        (code::DELETE, Grain::Word, _) => Some(Action::DeleteWordForward),
        (code::DELETE, Grain::Line, _) => Some(Action::DeleteToLineEnd),
        _ => None,
    }
}

/// What a shortcut on a key with this letter asks for.
pub open spec fn shortcut(letter: char, shift: bool) -> Option<Action> {
    if '1' as int <= letter as int <= '6' as int {
        Some(Action::Heading((letter as int - '0' as int) as u8))
    } else {
        match (letter, shift) {
            ('s', _) => Some(Action::Save),
            ('z', true) => Some(Action::Redo),
            ('z', false) => Some(Action::Undo),
            ('y', _) => Some(Action::Redo),
            ('q', _) => Some(Action::Quit),
            ('a', _) => Some(Action::SelectAll),
            ('x', _) => Some(Action::Cut),
            ('c', _) => Some(Action::Copy),
            ('v', _) => Some(Action::Paste),
            ('d', _) => Some(Action::ToggleFocus),
            ('f', true) => Some(Action::Replace),
            ('f', false) => Some(Action::Find),
            ('h', true) => Some(Action::Emphasis("==")),
            ('h', false) => Some(Action::Help),
            ('r', _) => Some(Action::Refresh),
            ('-', _) => Some(Action::Resize(false)),
            ('=', _) => Some(Action::Resize(true)),
            ('+', _) => Some(Action::Resize(true)),
            ('0', _) => Some(Action::ResetSize),
            ('m', _) => Some(Action::CycleMargins),
            ('o', true) => Some(Action::Outline),
            ('o', false) => Some(Action::Files),
            ('n', _) => Some(Action::NewDocument),
            (',', _) => Some(Action::Config),
            ('b', _) => Some(Action::Emphasis("**")),
            ('i', _) => Some(Action::Emphasis("*")),
            _ => None,
        }
    }
}

/// What a key with Ctrl or the command key held asks for. The letter is the one
/// the key types unshifted and unlatched; Shift picks between two shortcuts on
/// one letter.
pub open spec fn chord_action(code: u16, mods: Mods, layout: Layout) -> Option<Action> {
    if code == code::SPACE {
        if mods.ctrl {
            Some(Action::CycleLanguage)
        } else {
            None
        }
    } else if code == code::ENTER || code == code::KPENTER {
        Some(
            if mods.shift {
                Action::ChangeAll
            } else {
                Action::Change
            },
        )
    } else {
        match typed(code, Mods { shift: false, caps: false, ..mods }, layout) {
            Some(letter) => shortcut(letter, mods.shift),
            None => None,
        }
    }
}

/// What a key with neither Ctrl nor the command key held asks for, where it is
/// not a movement key.
pub open spec fn plain_action(code: u16, mods: Mods, layout: Layout) -> Option<Action> {
    if code == code::ESC {
        Some(Action::Escape)
    } else if code == code::F10 {
        Some(Action::CommitTyped)
    } else if code == code::SEARCH {
        Some(Action::Find)
    } else if code == code::BRIGHTNESSDOWN {
        Some(Action::Brightness(false))
    } else if code == code::BRIGHTNESSUP {
        Some(Action::Brightness(true))
    } else if code == code::ENTER || code == code::KPENTER {
        Some(
            if mods.shift {
                Action::CommitTyped
            } else {
                Action::Newline
            },
        )
    } else if code == code::PAGEUP {
        Some(Action::PageUp)
    } else if code == code::PAGEDOWN {
        Some(Action::PageDown)
    } else if code == code::TAB {
        Some(Action::Indent)
    } else {
        match typed(code, mods, layout) {
            Some(c) => Some(Action::Insert(c)),
            None => None,
        }
    }
}

/// What a key asks for: a movement first, then a shortcut, then what the key
/// does by itself.
pub open spec fn action_of(code: u16, mods: Mods, layout: Layout) -> Option<Action> {
    let moves = moved(code, grain_of(mods), mods.shift);
    if moves is Some {
        moves
    } else if mods.chorded() {
        chord_action(code, mods, layout)
    } else {
        plain_action(code, mods, layout)
    }
}

fn shortcut_for(letter: char, shift: bool) -> (r: Option<Action>)
    ensures
        r == shortcut(letter, shift),
{
    let n: u32 = letter as u32;
    if 49 <= n && n <= 54 {
        return Some(Action::Heading((n - 48) as u8));
    }
    match (letter, shift) {
        ('s', _) => Some(Action::Save),
        ('z', true) => Some(Action::Redo),
        ('z', false) => Some(Action::Undo),
        ('y', _) => Some(Action::Redo),
        ('q', _) => Some(Action::Quit),
        ('a', _) => Some(Action::SelectAll),
        ('x', _) => Some(Action::Cut),
        ('c', _) => Some(Action::Copy),
        ('v', _) => Some(Action::Paste),
        ('d', _) => Some(Action::ToggleFocus),
        ('f', true) => Some(Action::Replace),
        ('f', false) => Some(Action::Find),
        ('h', true) => Some(Action::Emphasis("==")),
        ('h', false) => Some(Action::Help),
        ('r', _) => Some(Action::Refresh),
        ('-', _) => Some(Action::Resize(false)),
        ('=', _) => Some(Action::Resize(true)),
        ('+', _) => Some(Action::Resize(true)),
        ('0', _) => Some(Action::ResetSize),
        ('m', _) => Some(Action::CycleMargins),
        ('o', true) => Some(Action::Outline),
        ('o', false) => Some(Action::Files),
        ('n', _) => Some(Action::NewDocument),
        (',', _) => Some(Action::Config),
        ('b', _) => Some(Action::Emphasis("**")),
        ('i', _) => Some(Action::Emphasis("*")),
        _ => None,
    }
}

pub fn action(code: u16, mods: Mods, layout: Layout) -> (r: Option<Action>)
    ensures
        r == action_of(code, mods, layout),
{
    if let Some(action) = movement(code, mods) {
        return Some(action);
    }
    if mods.chord() {
        if code == code::SPACE {
            return if mods.ctrl {
                Some(Action::CycleLanguage)
            } else {
                None
            };
        }
        if code == code::ENTER || code == code::KPENTER {
            return Some(
                if mods.shift {
                    Action::ChangeAll
                } else {
                    Action::Change
                },
            );
        }
        return match character(code, Mods { shift: false, caps: false, ..mods }, layout) {
            Some(letter) => shortcut_for(letter, mods.shift),
            None => None,
        };
    }
    if code == code::ESC {
        Some(Action::Escape)
    } else if code == code::F10 {
        Some(Action::CommitTyped)
    } else if code == code::SEARCH {
        Some(Action::Find)
    } else if code == code::BRIGHTNESSDOWN {
        Some(Action::Brightness(false))
    } else if code == code::BRIGHTNESSUP {
        Some(Action::Brightness(true))
    } else if code == code::ENTER || code == code::KPENTER {
        Some(
            if mods.shift {
                Action::CommitTyped
            } else {
                Action::Newline
            },
        )
    } else if code == code::PAGEUP {
        Some(Action::PageUp)
    } else if code == code::PAGEDOWN {
        Some(Action::PageDown)
    } else if code == code::TAB {
        Some(Action::Indent)
    } else {
        match character(code, mods, layout) {
            Some(c) => Some(Action::Insert(c)),
            None => None,
        }
    }
}

// ---------------------------------------------------------------------------
// What holds of every key
// ---------------------------------------------------------------------------

/// Ctrl and the command key are one key to every shortcut but the one on the
/// space bar: away from it and from the movement keys, holding either gives what
/// holding the other gives.
pub proof fn a_shortcut_takes_ctrl_or_command(code: u16, mods: Mods, layout: Layout)
    requires
        code != code::SPACE,
        forall|g: Grain, s: bool| (#[trigger] moved(code, g, s)) is None,
    ensures
        action_of(code, Mods { ctrl: true, meta: false, ..mods }, layout) == action_of(
            code,
            Mods { ctrl: false, meta: true, ..mods },
            layout,
        ),
        action_of(code, Mods { ctrl: true, meta: true, ..mods }, layout) == action_of(
            code,
            Mods { ctrl: true, meta: false, ..mods },
            layout,
        ),
{
    let a = Mods { ctrl: true, meta: false, ..mods };
    let b = Mods { ctrl: false, meta: true, ..mods };
    let c = Mods { ctrl: true, meta: true, ..mods };
    assert(moved(code, grain_of(a), a.shift) is None);
    assert(moved(code, grain_of(b), b.shift) is None);
    assert(moved(code, grain_of(c), c.shift) is None);
}

/// Caps Lock changes no shortcut and no movement.
pub proof fn caps_lock_leaves_shortcuts_alone(code: u16, mods: Mods, layout: Layout)
    requires
        mods.chorded() || moved(code, grain_of(mods), mods.shift) is Some,
    ensures
        action_of(code, Mods { caps: true, ..mods }, layout) == action_of(
            code,
            Mods { caps: false, ..mods },
            layout,
        ),
{
    assert(Mods { shift: false, caps: false, ..Mods { caps: true, ..mods } } == Mods {
        shift: false,
        caps: false,
        ..Mods { caps: false, ..mods }
    });
    assert(grain_of(Mods { caps: true, ..mods }) == grain_of(mods));
    assert(grain_of(Mods { caps: false, ..mods }) == grain_of(mods));
}

/// Two presses of Caps Lock leave it as it was, and a release leaves it alone.
pub proof fn caps_lock_latches(mods: Mods)
    ensures
        mods.after(code::CAPSLOCK, true).after(code::CAPSLOCK, false).after(code::CAPSLOCK, true)
            == mods,
        mods.after(code::CAPSLOCK, true).caps == !mods.caps,
        mods.after(code::CAPSLOCK, false) == mods,
{
}

/// A modifier but Caps Lock is held from its press to its release.
pub proof fn a_modifier_is_held_until_it_is_released(mods: Mods, code: u16)
    requires
        is_modifier(code),
        code != code::CAPSLOCK,
    ensures
        mods.after(code, true).after(code, false) == mods.after(code, false),
        mods.after(code, false).after(code, true) == mods.after(code, true),
{
}

/// A convention's name reads back as that convention.
pub proof fn a_convention_survives_being_written_down(convention: Convention)
    ensures
        Convention::of_name(convention.named()) == convention,
{
    reveal_strlit("Mac");
    reveal_strlit("PC");
    assert("Mac"@.len() != "PC"@.len());
}

/// Reading the pair by the other convention twice is reading it as it was sent.
pub proof fn a_convention_swaps_the_pair_and_nothing_else(convention: Convention, mods: Mods)
    ensures
        convention.resolved(convention.resolved(mods)) == mods,
        convention.resolved(mods).shift == mods.shift,
        convention.resolved(mods).ctrl == mods.ctrl,
        convention.resolved(mods).altgr == mods.altgr,
        convention.resolved(mods).caps == mods.caps,
{
}

/// Under Caps Lock a key types what it types with Shift and without, the other
/// way round, where its two characters are the two cases of a letter; and what
/// it typed before where they are not.
pub proof fn caps_lock_reaches_letters_alone(code: u16, mods: Mods, layout: Layout)
    requires
        layout == Layout::German ==> !mods.altgr,
        code != code::SPACE,
        pad_key(code) is None,
        layout.key(code) is Some,
    ensures
        ({
            let (plain, shifted, _) = layout.key(code)->0;
            typed(code, Mods { caps: true, ..mods }, layout) == typed(
                code,
                Mods {
                    caps: false,
                    shift: if is_capital(plain, shifted) {
                        !mods.shift
                    } else {
                        mods.shift
                    },
                    ..mods
                },
                layout,
            )
        }),
{
}

/// On the US arrangement the two Alt keys are one: whatever else is held, a key does
/// with the right-hand one what it does with the left-hand one.
pub proof fn on_us_both_alt_keys_are_one(code: u16, mods: Mods)
    ensures
        action_of(code, Mods { alt: false, altgr: true, ..mods }, Layout::Us) == action_of(
            code,
            Mods { alt: true, altgr: false, ..mods },
            Layout::Us,
        ),
        typed(code, Mods { alt: false, altgr: true, ..mods }, Layout::Us) == typed(
            code,
            Mods { alt: true, altgr: false, ..mods },
            Layout::Us,
        ),
{
}

// ---------------------------------------------------------------------------
// What each key is for
// ---------------------------------------------------------------------------

/// How far a movement or a deletion reaches.
pub enum Reach {
    Char,
    Word,
    Line,
    Document,
}

/// What an action does to the cursor: which way it goes, by lines or along the text, how
/// far, and whether it drags the selection along or deletes what it passes.
pub struct Motion {
    pub back: bool,
    pub by_lines: bool,
    pub reach: Reach,
    pub extends: bool,
    pub deletes: bool,
}

pub open spec fn motion(back: bool, reach: Reach, extends: bool) -> Option<Motion> {
    Some(Motion { back, by_lines: false, reach, extends, deletes: false })
}

pub open spec fn by_lines(back: bool, extends: bool) -> Option<Motion> {
    Some(Motion { back, by_lines: true, reach: Reach::Char, extends, deletes: false })
}

pub open spec fn deletion(back: bool, reach: Reach) -> Option<Motion> {
    Some(Motion { back, by_lines: false, reach, extends: false, deletes: true })
}

/// What the actions that move or delete do, by what they are called.
pub open spec fn motion_of(action: Action) -> Option<Motion> {
    match action {
        Action::Left => motion(true, Reach::Char, false),
        Action::Right => motion(false, Reach::Char, false),
        Action::WordLeft => motion(true, Reach::Word, false),
        Action::WordRight => motion(false, Reach::Word, false),
        Action::LineStart => motion(true, Reach::Line, false),
        Action::LineEnd => motion(false, Reach::Line, false),
        Action::DocStart => motion(true, Reach::Document, false),
        Action::DocEnd => motion(false, Reach::Document, false),
        Action::ExtendLeft => motion(true, Reach::Char, true),
        Action::ExtendRight => motion(false, Reach::Char, true),
        Action::ExtendWordLeft => motion(true, Reach::Word, true),
        Action::ExtendWordRight => motion(false, Reach::Word, true),
        Action::ExtendLineStart => motion(true, Reach::Line, true),
        Action::ExtendLineEnd => motion(false, Reach::Line, true),
        Action::ExtendDocStart => motion(true, Reach::Document, true),
        Action::ExtendDocEnd => motion(false, Reach::Document, true),
        Action::Up => by_lines(true, false),
        Action::Down => by_lines(false, false),
        Action::ExtendUp => by_lines(true, true),
        Action::ExtendDown => by_lines(false, true),
        Action::Backspace => deletion(true, Reach::Char),
        Action::Delete => deletion(false, Reach::Char),
        Action::DeleteWordBack => deletion(true, Reach::Word),
        Action::DeleteWordForward => deletion(false, Reach::Word),
        Action::DeleteToLineStart => deletion(true, Reach::Line),
        Action::DeleteToLineEnd => deletion(false, Reach::Line),
        _ => None,
    }
}

/// No two actions do the same to the cursor.
pub proof fn each_motion_is_one_action(a: Action, b: Action)
    requires
        motion_of(a) is Some,
        motion_of(a) == motion_of(b),
    ensures
        a == b,
{
}

/// Each movement key goes its own way under every modifier, by the number that the
/// kernel gives it: Left, Up, Home and Backspace back, Right, Down, End and Delete
/// forward. Shift drags the selection along and nothing else; Backspace and Delete do
/// not heed it. Bare, an arrow goes by a character or a line and Home and End by the
/// line; the word modifiers take Left and Right to the word, and the command key to the
/// line and Up and Down, like Home and End, to the document.
pub proof fn each_key_goes_its_own_way(code: u16, mods: Mods, layout: Layout)
    requires
        code == 105 || code == 106 || code == 103 || code == 108 || code == 102 || code == 107
            || code == 14 || code == 111,
    ensures
        action_of(code, mods, layout) is Some,
        motion_of(action_of(code, mods, layout)->0) is Some,
        ({
            let m = motion_of(action_of(code, mods, layout)->0)->0;
            let word = mods.ctrl || mods.alt || mods.altgr;
            &&& m.back == (code == 105 || code == 103 || code == 102 || code == 14)
            &&& m.deletes == (code == 14 || code == 111)
            &&& m.extends == (mods.shift && !m.deletes)
            &&& m.by_lines == ((code == 103 || code == 108) && !mods.meta)
            &&& !m.by_lines ==> m.reach == (if code == 103 || code == 108 {
                Reach::Document
            } else if code == 102 || code == 107 {
                if mods.meta || word {
                    Reach::Document
                } else {
                    Reach::Line
                }
            } else if mods.meta {
                Reach::Line
            } else if word {
                Reach::Word
            } else {
                Reach::Char
            })
        }),
{
}

/// No other key moves or deletes.
pub proof fn no_other_key_moves(code: u16, mods: Mods, layout: Layout)
    requires
        code != 105,
        code != 106,
        code != 103,
        code != 108,
        code != 102,
        code != 107,
        code != 14,
        code != 111,
    ensures
        action_of(code, mods, layout) is Some ==> motion_of(action_of(code, mods, layout)->0) is None,
{
}

/// Whether a row of keys, from a code on, types these characters, and those with Shift,
/// whatever else is held that types nothing by itself.
pub open spec fn row_types(layout: Layout, first: int, plain: Seq<char>, shifted: Seq<char>) -> bool {
    &&& plain.len() == shifted.len()
    &&& forall|code: u16, mods: Mods|
        first <= code < first + plain.len() && !mods.caps && !mods.altgr ==> #[trigger] typed(
            code,
            mods,
            layout,
        ) == Some(
            if mods.shift {
                shifted[code - first]
            } else {
                plain[code - first]
            },
        )
}

/// The US arrangement, row by row, and no key besides but the space bar and the pad.
pub proof fn the_us_arrangement(code: u16, mods: Mods)
    ensures
        row_types(Layout::Us, 2, "1234567890-="@, "!@#$%^&*()_+"@),
        row_types(Layout::Us, 16, "qwertyuiop[]"@, "QWERTYUIOP{}"@),
        row_types(Layout::Us, 30, "asdfghjkl;'`"@, "ASDFGHJKL:\"~"@),
        row_types(Layout::Us, 43, "\\zxcvbnm,./"@, "|ZXCVBNM<>?"@),
        row_types(Layout::Us, 86, "\\"@, "|"@),
        !(2 <= code < 14 || 16 <= code < 28 || 30 <= code < 42 || 43 <= code < 54 || 86 <= code < 87) && code != 57 && pad_key(
            code,
        ) is None ==> typed(code, mods, Layout::Us) is None,
{
    reveal_strlit("1234567890-=");
    reveal_strlit("!@#$%^&*()_+");
    reveal_strlit("qwertyuiop[]");
    reveal_strlit("QWERTYUIOP{}");
    reveal_strlit("asdfghjkl;'`");
    reveal_strlit("ASDFGHJKL:\"~");
    reveal_strlit("\\zxcvbnm,./");
    reveal_strlit("|ZXCVBNM<>?");
    reveal_strlit("\\");
    reveal_strlit("|");
}

/// The German arrangement, row by row, with its third legends, and no key besides but
/// the space bar and the pad.
pub proof fn the_german_arrangement(code: u16, mods: Mods)
    ensures
        row_types(Layout::German, 2, "1234567890ß´"@, "!\"§$%&/()=?`"@),
        row_types(Layout::German, 16, "qwertzuiopü+"@, "QWERTZUIOPÜ*"@),
        row_types(Layout::German, 30, "asdfghjklöä^"@, "ASDFGHJKLÖÄ°"@),
        row_types(Layout::German, 43, "#yxcvbnm,.-"@, "'YXCVBNM;:_"@),
        row_types(Layout::German, 86, "<"@, ">"@),
        !(2 <= code < 14 || 16 <= code < 28 || 30 <= code < 42 || 43 <= code < 54 || 86 <= code < 87) && code != 57 && pad_key(
            code,
        ) is None ==> typed(code, mods, Layout::German) is None,
        mods.altgr && code != 57 && pad_key(code) is None ==> typed(code, mods, Layout::German) == (
        if code == 3 {
            Some('²')
        } else if code == 4 {
            Some('³')
        } else if code == 8 {
            Some('{')
        } else if code == 9 {
            Some('[')
        } else if code == 10 {
            Some(']')
        } else if code == 11 {
            Some('}')
        } else if code == 12 {
            Some('\\')
        } else if code == 16 {
            Some('@')
        } else if code == 18 {
            Some('€')
        } else if code == 27 {
            Some('~')
        } else if code == 50 {
            Some('µ')
        } else if code == 86 {
            Some('|')
        } else {
            None
        }),
{
    reveal_strlit("1234567890ß´");
    reveal_strlit("!\"§$%&/()=?`");
    reveal_strlit("qwertzuiopü+");
    reveal_strlit("QWERTZUIOPÜ*");
    reveal_strlit("asdfghjklöä^");
    reveal_strlit("ASDFGHJKLÖÄ°");
    reveal_strlit("#yxcvbnm,.-");
    reveal_strlit("'YXCVBNM;:_");
    reveal_strlit("<");
    reveal_strlit(">");
}

/// The number pad and the space bar type the same on every arrangement, whatever is
/// held.
pub proof fn the_pad_and_the_space_bar(code: u16, mods: Mods, layout: Layout)
    ensures
        71 <= code <= 83 ==> typed(code, mods, layout) == Some("789-456+1230."@[code - 71]),
        code == 55 ==> typed(code, mods, layout) == Some('*'),
        code == 98 ==> typed(code, mods, layout) == Some('/'),
        code == 57 ==> typed(code, mods, layout) == Some(' '),
        pad_key(code) is Some <==> 71 <= code <= 83 || code == 55 || code == 98,
{
    reveal_strlit("789-456+1230.");
}

/// Caps Lock types the capital of a letter, and Shift with it the small one; on every
/// other key it changes nothing.
pub proof fn caps_lock_is_for_letters(code: u16, mods: Mods, layout: Layout)
    requires
        !mods.altgr,
        typed(code, Mods { shift: false, caps: false, ..mods }, layout) is Some,
    ensures
        ({
            let small = typed(code, Mods { shift: false, caps: false, ..mods }, layout)->0;
            let large = typed(code, Mods { shift: true, caps: false, ..mods }, layout)->0;
            let letter = 'a' <= small <= 'z' || small == 'ä' || small == 'ö' || small == 'ü';
            &&& letter ==> large as int == small as int - 32 && typed(
                code,
                Mods { shift: false, caps: true, ..mods },
                layout,
            ) == Some(large) && typed(code, Mods { shift: true, caps: true, ..mods }, layout) == Some(
                small,
            )
            &&& !letter ==> typed(code, Mods { caps: true, ..mods }, layout) == typed(
                code,
                Mods { caps: false, ..mods },
                layout,
            )
        }),
{
}

/// What each letter asks for with Ctrl or the command key held, and that no other does.
pub proof fn the_shortcuts(shift: bool, letter: char)
    ensures
        shortcut('s', shift) == Some(Action::Save),
        shortcut('y', shift) == Some(Action::Redo),
        shortcut('q', shift) == Some(Action::Quit),
        shortcut('a', shift) == Some(Action::SelectAll),
        shortcut('x', shift) == Some(Action::Cut),
        shortcut('c', shift) == Some(Action::Copy),
        shortcut('v', shift) == Some(Action::Paste),
        shortcut('d', shift) == Some(Action::ToggleFocus),
        shortcut('r', shift) == Some(Action::Refresh),
        shortcut('-', shift) == Some(Action::Resize(false)),
        shortcut('=', shift) == Some(Action::Resize(true)),
        shortcut('+', shift) == Some(Action::Resize(true)),
        shortcut('0', shift) == Some(Action::ResetSize),
        shortcut('m', shift) == Some(Action::CycleMargins),
        shortcut('n', shift) == Some(Action::NewDocument),
        shortcut(',', shift) == Some(Action::Config),
        shortcut('b', shift) == Some(Action::Emphasis("**")),
        shortcut('i', shift) == Some(Action::Emphasis("*")),
        shortcut('z', false) == Some(Action::Undo),
        shortcut('z', true) == Some(Action::Redo),
        shortcut('f', false) == Some(Action::Find),
        shortcut('f', true) == Some(Action::Replace),
        shortcut('h', false) == Some(Action::Help),
        shortcut('h', true) == Some(Action::Emphasis("==")),
        shortcut('o', false) == Some(Action::Files),
        shortcut('o', true) == Some(Action::Outline),
        '1' <= letter <= '6' ==> shortcut(letter, shift) == Some(
            Action::Heading((letter as int - 48) as u8),
        ),
        shortcut(letter, shift) is Some ==> "syqaxcvdr-=+0mn,bizfho123456"@.contains(letter),
{
    reveal_strlit("syqaxcvdr-=+0mn,bizfho123456");
    if shortcut(letter, shift) is Some {
        if letter == 's' {
            assert("syqaxcvdr-=+0mn,bizfho123456"@[0] == letter);
        }
        if letter == 'y' {
            assert("syqaxcvdr-=+0mn,bizfho123456"@[1] == letter);
        }
        if letter == 'q' {
            assert("syqaxcvdr-=+0mn,bizfho123456"@[2] == letter);
        }
        if letter == 'a' {
            assert("syqaxcvdr-=+0mn,bizfho123456"@[3] == letter);
        }
        if letter == 'x' {
            assert("syqaxcvdr-=+0mn,bizfho123456"@[4] == letter);
        }
        if letter == 'c' {
            assert("syqaxcvdr-=+0mn,bizfho123456"@[5] == letter);
        }
        if letter == 'v' {
            assert("syqaxcvdr-=+0mn,bizfho123456"@[6] == letter);
        }
        if letter == 'd' {
            assert("syqaxcvdr-=+0mn,bizfho123456"@[7] == letter);
        }
        if letter == 'r' {
            assert("syqaxcvdr-=+0mn,bizfho123456"@[8] == letter);
        }
        if letter == '-' {
            assert("syqaxcvdr-=+0mn,bizfho123456"@[9] == letter);
        }
        if letter == '=' {
            assert("syqaxcvdr-=+0mn,bizfho123456"@[10] == letter);
        }
        if letter == '+' {
            assert("syqaxcvdr-=+0mn,bizfho123456"@[11] == letter);
        }
        if letter == '0' {
            assert("syqaxcvdr-=+0mn,bizfho123456"@[12] == letter);
        }
        if letter == 'm' {
            assert("syqaxcvdr-=+0mn,bizfho123456"@[13] == letter);
        }
        if letter == 'n' {
            assert("syqaxcvdr-=+0mn,bizfho123456"@[14] == letter);
        }
        if letter == ',' {
            assert("syqaxcvdr-=+0mn,bizfho123456"@[15] == letter);
        }
        if letter == 'b' {
            assert("syqaxcvdr-=+0mn,bizfho123456"@[16] == letter);
        }
        if letter == 'i' {
            assert("syqaxcvdr-=+0mn,bizfho123456"@[17] == letter);
        }
        if letter == 'z' {
            assert("syqaxcvdr-=+0mn,bizfho123456"@[18] == letter);
        }
        if letter == 'f' {
            assert("syqaxcvdr-=+0mn,bizfho123456"@[19] == letter);
        }
        if letter == 'h' {
            assert("syqaxcvdr-=+0mn,bizfho123456"@[20] == letter);
        }
        if letter == 'o' {
            assert("syqaxcvdr-=+0mn,bizfho123456"@[21] == letter);
        }
        if letter == '1' {
            assert("syqaxcvdr-=+0mn,bizfho123456"@[22] == letter);
        }
        if letter == '2' {
            assert("syqaxcvdr-=+0mn,bizfho123456"@[23] == letter);
        }
        if letter == '3' {
            assert("syqaxcvdr-=+0mn,bizfho123456"@[24] == letter);
        }
        if letter == '4' {
            assert("syqaxcvdr-=+0mn,bizfho123456"@[25] == letter);
        }
        if letter == '5' {
            assert("syqaxcvdr-=+0mn,bizfho123456"@[26] == letter);
        }
        if letter == '6' {
            assert("syqaxcvdr-=+0mn,bizfho123456"@[27] == letter);
        }
    }
}

/// A shortcut goes by the character that its key types bare, on whichever arrangement.
pub proof fn a_shortcut_goes_by_its_letter(code: u16, mods: Mods, layout: Layout)
    requires
        mods.ctrl || mods.meta,
        !mods.altgr,
        code != 57,
        code != 28,
        code != 96,
        forall|g: Grain, s: bool| (#[trigger] moved(code, g, s)) is None,
    ensures
        action_of(code, mods, layout) == (match typed(
            code,
            Mods {
                shift: false,
                ctrl: false,
                alt: false,
                altgr: false,
                meta: false,
                caps: false,
            },
            layout,
        ) {
            Some(letter) => shortcut(letter, mods.shift),
            None => None,
        }),
{
}

/// The keys that type nothing: Escape, F10, the magnifier, the two sun keys, the two
/// Enter keys, the page keys and Tab, by the numbers that the kernel gives them; and
/// with Ctrl or the command key Enter changes a match, and with Shift every match.
pub proof fn the_keys_that_type_nothing(mods: Mods, layout: Layout)
    ensures
        !mods.ctrl && !mods.meta ==> {
            &&& action_of(1, mods, layout) == Some(Action::Escape)
            &&& action_of(68, mods, layout) == Some(Action::CommitTyped)
            &&& action_of(217, mods, layout) == Some(Action::Find)
            &&& action_of(224, mods, layout) == Some(Action::Brightness(false))
            &&& action_of(225, mods, layout) == Some(Action::Brightness(true))
            &&& action_of(104, mods, layout) == Some(Action::PageUp)
            &&& action_of(109, mods, layout) == Some(Action::PageDown)
            &&& action_of(15, mods, layout) == Some(Action::Indent)
            &&& action_of(28, mods, layout) == Some(
                if mods.shift {
                    Action::CommitTyped
                } else {
                    Action::Newline
                },
            )
            &&& action_of(96, mods, layout) == action_of(28, mods, layout)
        },
        mods.ctrl || mods.meta ==> action_of(28, mods, layout) == Some(
            if mods.shift {
                Action::ChangeAll
            } else {
                Action::Change
            },
        ) && action_of(96, mods, layout) == action_of(28, mods, layout),
        mods.ctrl ==> action_of(57, mods, layout) == Some(Action::CycleLanguage),
        mods.meta && !mods.ctrl ==> action_of(57, mods, layout) is None,
{
}

/// A key that types is typed, unless Ctrl or the command key is held.
pub proof fn what_is_typed_is_inserted(code: u16, mods: Mods, layout: Layout)
    requires
        !mods.ctrl,
        !mods.meta,
        typed(code, mods, layout) is Some,
    ensures
        action_of(code, mods, layout) == Some(Action::Insert(typed(code, mods, layout)->0)),
{
}

/// Each modifier key is its own modifier, by the numbers that the kernel gives them, and
/// leaves the others as they were.
pub proof fn each_modifier_is_its_own(mods: Mods, pressed: bool, code: u16)
    ensures
        mods.after(42, pressed) == (Mods { shift: pressed, ..mods }),
        mods.after(54, pressed) == (Mods { shift: pressed, ..mods }),
        mods.after(29, pressed) == (Mods { ctrl: pressed, ..mods }),
        mods.after(97, pressed) == (Mods { ctrl: pressed, ..mods }),
        mods.after(56, pressed) == (Mods { alt: pressed, ..mods }),
        mods.after(100, pressed) == (Mods { altgr: pressed, ..mods }),
        mods.after(125, pressed) == (Mods { meta: pressed, ..mods }),
        mods.after(126, pressed) == (Mods { meta: pressed, ..mods }),
        mods.after(58, true) == (Mods { caps: !mods.caps, ..mods }),
        mods.after(58, false) == mods,
        is_modifier(code) <==> code == 42 || code == 54 || code == 29 || code == 97 || code == 56
            || code == 100 || code == 125 || code == 126 || code == 58,
        !is_modifier(code) ==> mods.after(code, pressed) == mods,
{
}

/// Under the PC convention the two keys beside the space bar change places, and under
/// the Mac one they stand as they are.
pub proof fn the_pc_convention_exchanges_alt_and_the_command_key(mods: Mods)
    ensures
        Convention::Mac.resolved(mods) == mods,
        Convention::Pc.resolved(mods).alt == mods.meta,
        Convention::Pc.resolved(mods).meta == mods.alt,
{
}

/// An arrangement goes by its own name.
pub proof fn an_arrangement_goes_by_its_name(layout: Layout)
    ensures
        layout.named() == seq!['G', 'e', 'r', 'm', 'a', 'n'] <==> layout == Layout::German,
        layout.named() == seq!['U', 'S'] <==> layout == Layout::Us,
{
    reveal_strlit("US");
    reveal_strlit("German");
    assert("US"@ =~= seq!['U', 'S']);
    assert("German"@ =~= seq!['G', 'e', 'r', 'm', 'a', 'n']);
    assert(seq!['U', 'S'].len() != seq!['G', 'e', 'r', 'm', 'a', 'n'].len());
}

} // verus!
