//! What is remembered between sessions, and in which file.

use vstd::prelude::*;

use crate::keymap::Convention;
use crate::orientation::Orientation;
use crate::text::{chars_of, is_text, number, number_of, string_of, trim, trimmed};

verus! {

/// The way up that a device with no sensor was last set to.
pub fn orientation_file() -> (r: &'static str)
    ensures
        r@ == "/mnt/us/extensions/karyll/var/orientation"@,
{
    "/mnt/us/extensions/karyll/var/orientation"
}

/// The input source in use.
pub fn language_file() -> (r: &'static str)
    ensures
        r@ == "/mnt/us/extensions/karyll/var/language"@,
{
    "/mnt/us/extensions/karyll/var/language"
}

/// The enabled input sources.
pub fn languages_file() -> (r: &'static str)
    ensures
        r@ == "/mnt/us/extensions/karyll/var/languages"@,
{
    "/mnt/us/extensions/karyll/var/languages"
}

/// The face of each writing system.
pub fn fonts_file() -> (r: &'static str)
    ensures
        r@ == "/mnt/us/extensions/karyll/var/fonts"@,
{
    "/mnt/us/extensions/karyll/var/fonts"
}

/// Whether the page is set back around the sentence.
pub fn focus_file() -> (r: &'static str)
    ensures
        r@ == "/mnt/us/extensions/karyll/var/focus"@,
{
    "/mnt/us/extensions/karyll/var/focus"
}

/// Whether a stop hangs past the measure.
pub fn hanging_file() -> (r: &'static str)
    ensures
        r@ == "/mnt/us/extensions/karyll/var/hanging"@,
{
    "/mnt/us/extensions/karyll/var/hanging"
}

/// Whether words are divided.
pub fn hyphenate_file() -> (r: &'static str)
    ensures
        r@ == "/mnt/us/extensions/karyll/var/hyphenate"@,
{
    "/mnt/us/extensions/karyll/var/hyphenate"
}

/// Which key beside the space bar is the command key.
pub fn modifiers_file() -> (r: &'static str)
    ensures
        r@ == "/mnt/us/extensions/karyll/var/modifiers"@,
{
    "/mnt/us/extensions/karyll/var/modifiers"
}

/// Whether the radio outlives the editor.
pub fn bluetooth_file() -> (r: &'static str)
    ensures
        r@ == "/mnt/us/extensions/karyll/var/bluetooth"@,
{
    "/mnt/us/extensions/karyll/var/bluetooth"
}

/// Whether a colour panel is used as one.
pub fn colour_file() -> (r: &'static str)
    ensures
        r@ == "/mnt/us/extensions/karyll/var/colour"@,
{
    "/mnt/us/extensions/karyll/var/colour"
}

/// The colours of the caret and the highlighter.
pub fn colours_file() -> (r: &'static str)
    ensures
        r@ == "/mnt/us/extensions/karyll/var/colours"@,
{
    "/mnt/us/extensions/karyll/var/colours"
}

/// The size of the text.
pub fn size_file() -> (r: &'static str)
    ensures
        r@ == "/mnt/us/extensions/karyll/var/size"@,
{
    "/mnt/us/extensions/karyll/var/size"
}

/// The width of the margins.
pub fn margin_file() -> (r: &'static str)
    ensures
        r@ == "/mnt/us/extensions/karyll/var/margins"@,
{
    "/mnt/us/extensions/karyll/var/margins"
}

/// Where each document was left.
pub fn positions_file() -> (r: &'static str)
    ensures
        r@ == "/mnt/us/extensions/karyll/var/positions"@,
{
    "/mnt/us/extensions/karyll/var/positions"
}

/// A switch that is off unless the file says it is on.
pub open spec fn says_on(text: Option<Seq<char>>) -> bool {
    match text {
        Some(s) => trim(s) == "1"@,
        None => false,
    }
}

/// A switch that is on unless the file says it is off.
pub open spec fn says_not_off(text: Option<Seq<char>>) -> bool {
    match text {
        Some(s) => trim(s) != "0"@,
        None => true,
    }
}

/// The text of a file that could be read.
pub open spec fn read_text(text: Option<&str>) -> Option<Seq<char>> {
    match text {
        Some(s) => Some(s@),
        None => None,
    }
}

/// Reads a switch that is off by default: focus, hanging, hyphenation and keeping
/// the radio on.
pub fn read_switch(text: Option<&str>) -> (r: bool)
    ensures
        r == says_on(read_text(text)),
{
    match text {
        Some(s) => {
            let s = chars_of(s);
            let s = trimmed(&s);
            is_text(&s, "1")
        },
        None => false,
    }
}

/// Reads the colour switch, which is on by default.
pub fn read_colour(text: Option<&str>) -> (r: bool)
    ensures
        r == says_not_off(read_text(text)),
{
    match text {
        Some(s) => {
            let s = chars_of(s);
            let s = trimmed(&s);
            !is_text(&s, "0")
        },
        None => true,
    }
}

/// What a switch is written as.
pub fn write_switch(on: bool) -> (r: &'static str)
    ensures
        r@ == (if on {
            "1"@
        } else {
            "0"@
        }),
{
    if on {
        "1"
    } else {
        "0"
    }
}

/// A switch that was written reads as it stood, by either rule.
pub proof fn a_switch_survives_being_written_down(on: bool)
    ensures
        ({
            let written = if on {
                "1"@
            } else {
                "0"@
            };
            says_on(Some(written)) == on && says_not_off(Some(written)) == on
        }),
{
    reveal_strlit("1");
    reveal_strlit("0");
    crate::text::lemma_trim_nothing("1"@);
    crate::text::lemma_trim_nothing("0"@);
    assert("1"@[0] != "0"@[0]);
}

/// Reads the convention of the keys beside the space bar.
pub fn read_convention(text: Option<&str>) -> (r: Convention)
    ensures
        r == (match read_text(text) {
            Some(s) => Convention::of_name(trim(s)),
            None => Convention::Mac,
        }),
{
    match text {
        Some(s) => {
            let s = chars_of(s);
            let s = trimmed(&s);
            let s = string_of(&s);
            Convention::from_name(s.as_str())
        },
        None => Convention::Mac,
    }
}

/// Reads a margin, as a percentage; nothing where it is not a number.
pub fn read_margin(text: Option<&str>) -> (r: Option<u16>)
    ensures
        match r {
            Some(n) => read_text(text) is Some && number(
                trim(read_text(text)->0),
                10,
                u16::MAX as int,
            ) == Some(n as int),
            None => read_text(text) is Some ==> number(
                trim(read_text(text)->0),
                10,
                u16::MAX as int,
            ) is None,
        },
{
    match text {
        Some(s) => {
            let s = chars_of(s);
            let s = trimmed(&s);
            match number_of(&s, 10, u16::MAX as u64) {
                Some(n) => Some(n as u16),
                None => None,
            }
        },
        None => None,
    }
}

/// Which way up to open. A sensor that knows outranks everything; one that does
/// not, and a device without one that remembers nothing, leave it to the window
/// manager.
pub open spec fn opening_way(
    sensor: bool,
    position: Option<i32>,
    stored: Option<Seq<char>>,
    asked: Orientation,
) -> Orientation {
    if sensor {
        match position {
            Some(code) => match Orientation::of_tilt(code) {
                Some(held) => held,
                None => asked,
            },
            None => asked,
        }
    } else {
        match stored {
            Some(letter) => Orientation::of_letter(trim(letter)),
            None => asked,
        }
    }
}

pub fn read_orientation(
    sensor: bool,
    position: Option<i32>,
    stored: Option<&str>,
    asked: Orientation,
) -> (r: Orientation)
    ensures
        r == opening_way(sensor, position, read_text(stored), asked),
{
    if sensor {
        match position {
            Some(code) => match Orientation::from_tilt(code) {
                Some(held) => held,
                None => asked,
            },
            None => asked,
        }
    } else {
        match stored {
            Some(letter) => {
                let s = chars_of(letter);
                let s = trimmed(&s);
                let s = string_of(&s);
                Orientation::from_letter(s.as_str())
            },
            None => asked,
        }
    }
}

// ---------------------------------------------------------------------------
// Saving by itself
// ---------------------------------------------------------------------------

/// How long a pause before the document is written by itself, in milliseconds.
pub const AUTOSAVE_IDLE: u64 = 3_000;

/// The longest a change is left unwritten, in milliseconds.
pub const AUTOSAVE_MAX: u64 = 60_000;

/// Whether an autosave is due: a pause was long enough, nothing has been typed at
/// all, or the document has been unsaved too long.
pub open spec fn due(idle_for: Option<u64>, dirty_for: u64) -> bool {
    (match idle_for {
        Some(idle) => idle >= AUTOSAVE_IDLE,
        None => true,
    }) || dirty_for >= AUTOSAVE_MAX
}

pub fn autosave_due(idle_for: Option<u64>, dirty_for: u64) -> (r: bool)
    ensures
        r == due(idle_for, dirty_for),
{
    let paused = match idle_for {
        Some(idle) => idle >= AUTOSAVE_IDLE,
        None => true,
    };
    paused || dirty_for >= AUTOSAVE_MAX
}

/// When the document was last touched, and since when it has been unsaved.
#[derive(Debug, Clone, Copy, PartialEq, Eq, Structural)]
pub struct Autosave {
    pub last_edit: Option<u64>,
    pub dirty_since: Option<u64>,
}

/// How long ago a moment was; none before it.
pub open spec fn since(now: u64, then_at: u64) -> u64 {
    if now >= then_at {
        (now - then_at) as u64
    } else {
        0
    }
}

impl Autosave {
    /// Whether to write the document now.
    pub fn poll(&mut self, dirty: bool, now: u64) -> (r: bool)
        ensures
            !dirty ==> !r && *final(self) == (Autosave { dirty_since: None, ..*old(self) }),
            dirty ==> ({
                let from = match old(self).dirty_since {
                    Some(at) => at,
                    None => now,
                };
                &&& *final(self) == (Autosave { dirty_since: Some(from), ..*old(self) })
                &&& r == due(
                    match old(self).last_edit {
                        Some(last) => Some(since(now, last)),
                        None => None,
                    },
                    since(now, from),
                )
            }),
    {
        if !dirty {
            self.dirty_since = None;
            return false;
        }
        let from: u64 = match self.dirty_since {
            Some(at) => at,
            None => now,
        };
        self.dirty_since = Some(from);
        let idle_for = match self.last_edit {
            Some(last) => Some(
                if now >= last {
                    now - last
                } else {
                    0
                },
            ),
            None => None,
        };
        let dirty_for: u64 = if now >= from {
            now - from
        } else {
            0
        };
        autosave_due(idle_for, dirty_for)
    }

    /// The document was touched.
    pub fn touched(&mut self, now: u64)
        ensures
            *final(self) == (Autosave { last_edit: Some(now), ..*old(self) }),
    {
        self.last_edit = Some(now);
    }

    /// The document was written.
    pub fn saved(&mut self)
        ensures
            *final(self) == (Autosave { dirty_since: None, ..*old(self) }),
    {
        self.dirty_since = None;
    }

    /// The document could not be written: wait a whole interval.
    pub fn failed(&mut self, now: u64)
        ensures
            *final(self) == (Autosave { last_edit: Some(now), dirty_since: Some(now) }),
    {
        self.dirty_since = Some(now);
        self.last_edit = Some(now);
    }
}

/// A document left unsaved is written within the longest wait, however its
/// writer types.
pub proof fn no_change_waits_longer_than_the_limit(a: Autosave, now: u64)
    requires
        a.dirty_since is Some,
        now >= a.dirty_since->0 + AUTOSAVE_MAX,
    ensures
        forall|idle: Option<u64>| #[trigger] due(idle, since(now, a.dirty_since->0)),
{
}

/// After a failure nothing is tried again before a pause or the limit.
pub proof fn a_failed_save_is_not_tried_at_once(at: u64, now: u64)
    requires
        at <= now,
        now < at + AUTOSAVE_IDLE,
    ensures
        !due(Some(since(now, at)), since(now, at)),
{
}

/// A document is saved three seconds after the last key, or a minute after the first change
/// however much is typed; never before, and at once where no key is remembered.
pub proof fn when_a_document_is_saved(idle: u64, dirty: u64)
    ensures
        idle < 3000 && dirty < 60000 ==> !due(Some(idle), dirty),
        idle >= 3000 ==> due(Some(idle), dirty),
        dirty >= 60000 ==> due(Some(idle), dirty),
        due(None, dirty),
{
}

/// A clock that went back counts as no time having passed.
pub proof fn time_that_passed_is_never_negative(now: u64, then_at: u64, more: u64)
    requires
        now + more <= u64::MAX,
    ensures
        now <= then_at ==> since(now, then_at) == 0,
        now >= then_at ==> since(now, then_at) + then_at == now,
        since((now + more) as u64, then_at) >= since(now, then_at),
{
}

/// A switch is on where its file says one and off where it says anything else; a switch that
/// is on from the start is off only where its file says nought.
pub proof fn what_a_switch_reads(s: Seq<char>)
    ensures
        says_on(Some(s)) <==> trim(s) == seq!['1'],
        says_not_off(Some(s)) <==> trim(s) != seq!['0'],
        !says_on(None),
        says_not_off(None),
{
    reveal_strlit("1");
    reveal_strlit("0");
    assert("1"@ =~= seq!['1']);
    assert("0"@ =~= seq!['0']);
}

/// A device with a sensor opens the way it is held, whatever was stored; one without opens
/// the way that was stored, whatever a sensor would say.
pub proof fn a_device_opens_the_way_it_is_held(
    position: Option<i32>,
    other: Option<i32>,
    stored: Option<Seq<char>>,
    else_stored: Option<Seq<char>>,
    asked: Orientation,
)
    ensures
        opening_way(true, position, stored, asked) == opening_way(true, position, else_stored, asked),
        opening_way(false, position, stored, asked) == opening_way(false, other, stored, asked),
        opening_way(true, None, stored, asked) == asked,
        opening_way(false, position, None, asked) == asked,
        forall|code: i32|
            (#[trigger] Orientation::of_tilt(code)) is Some ==> opening_way(
                true,
                Some(code),
                stored,
                asked,
            ) == Orientation::of_tilt(code)->0,
{
}

} // verus!
