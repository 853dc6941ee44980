//! The editor's decisions: what a key press means, which surface it opens or
//! closes, and what is left for the document to do.

use vstd::prelude::*;

use crate::composition::{sink_for, sink_of, Sink};
use crate::evdev::KeyEvent;
use crate::files::{
    at_path, in_filename, is_path, nameable, nameable_part, path_for, path_named,
};
use crate::find::{Find, Step};
use crate::ime::Script;
use crate::keymap::{action, action_of, code, is_modifier, Action, Convention, Mods};
use crate::language::{in_order, lists, switched, toggle, Language};
use crate::panel::{Listing, Mode, Paging, Section};
use crate::script::Region;
use crate::strip::{set_chrome_hidden, visible, Bar, Field};
use crate::text::{chars_of, string_of, texts, trim, trimmed};

verus! {

/// What floats beside the caret until the next key.
#[derive(Debug, Clone, Copy, PartialEq, Eq, Structural)]
pub enum Notice {
    /// The input source that was taken up.
    Language(Language),
    /// The case that Caps Lock gives.
    Caps(bool),
}

impl Notice {
    pub open spec fn worded(self) -> Seq<char> {
        match self {
            Notice::Language(language) => language.labelled(),
            Notice::Caps(true) => "AB"@,
            Notice::Caps(false) => "ab"@,
        }
    }

    pub fn text(self) -> (r: &'static str)
        ensures
            r@ == self.worded(),
    {
        match self {
            Notice::Language(language) => language.label(),
            Notice::Caps(true) => "AB",
            Notice::Caps(false) => "ab",
        }
    }
}

/// What the editor knows of the screen and the keyboard.
pub struct Editor {
    pub mode: Mode,
    pub find: Option<Find>,
    pub paging: Paging,
    /// The open document.
    pub path: Option<String>,
    /// The document whose Delete was taken once.
    pub arming: Option<String>,
    pub chrome_hidden: bool,
    pub keyboard_present: bool,
    /// The strip changed without being asked to.
    pub strip_changed: bool,
    /// The next paint lands somewhere chosen from the outline.
    pub landing: bool,
    pub notice: Option<Notice>,
    pub mods: Mods,
    pub convention: Convention,
    pub language: Language,
    /// The input sources that are cycled through, in order, never none.
    pub enabled: Vec<Language>,
    /// Keys go to an input method.
    pub cjk: bool,
    /// The page is set back around the sentence being written.
    pub focus: bool,
    /// What was drawn describes nothing that is to be drawn.
    pub stale: bool,
}

/// What a key event is.
#[derive(Debug, Clone, Copy, PartialEq, Eq)]
pub enum Pressed {
    /// A release, or a modifier.
    Ignored,
    /// A key bound to nothing.
    Unbound,
    Bound(Action),
}

/// What is left to do of an action.
#[derive(Debug, Clone, Copy, PartialEq, Eq)]
pub enum Deed {
    /// The surface it asked for was open, and has been closed.
    Closed,
    /// The document carries it out by itself.
    Document(Action),
    /// Break the line, with the marker of a list.
    Newline,
    Emphasise(&'static str),
    Heading(u8),
    /// Tick the task on the line.
    Task,
    Copy,
    Cut,
    Paste,
    Save,
    /// Another input source was chosen.
    Language,
    /// Move by lines, or by a page of them.
    Vertical { up: bool, page: bool, extend: bool },
    /// The focus of the page was turned on or off.
    Focus,
    Find,
    Replace,
    /// Read the list of documents and show it.
    Files,
    /// Ask which keyboards are known; the panel is up.
    Config,
    /// Read the headings and show them.
    Outline,
    /// A name is being asked for.
    Naming,
    /// The panel is up.
    Help,
    Refresh,
    Resize(bool),
    ResetSize,
    Brightness(bool),
    Margins,
    /// The notice says it.
    Noticed,
    Nothing,
}

/// Whether an action asks for the surface on screen. Every shortcut that opens
/// something closes it.
pub open spec fn asks_for_open(mode: Mode, finding: bool, replacing: bool, action: Action) -> bool {
    match action {
        Action::Files => mode is Files,
        Action::Config => mode is Config,
        Action::Help => mode is Help,
        Action::Outline => mode is Outline,
        Action::Find => finding,
        Action::Replace => replacing,
        _ => false,
    }
}

pub fn reopens(mode: &Mode, finding: bool, replacing: bool, action: &Action) -> (r: bool)
    ensures
        r == asks_for_open(*mode, finding, replacing, *action),
{
    match action {
        Action::Files => matches!(mode, Mode::Files(_)),
        Action::Config => matches!(mode, Mode::Config),
        Action::Help => matches!(mode, Mode::Help),
        Action::Outline => matches!(mode, Mode::Outline(_)),
        Action::Find => finding,
        Action::Replace => replacing,
        _ => false,
    }
}

/// What an action that closes nothing leaves to do.
pub open spec fn deed_of(action: Action) -> Deed {
    match action {
        Action::Newline => Deed::Newline,
        Action::CommitTyped => Deed::Newline,
        Action::Emphasis(marker) => Deed::Emphasise(marker),
        Action::Heading(level) => Deed::Heading(level),
        Action::Change => Deed::Task,
        Action::Copy => Deed::Copy,
        Action::Cut => Deed::Cut,
        Action::Paste => Deed::Paste,
        Action::Save => Deed::Save,
        Action::CycleLanguage => Deed::Language,
        Action::Up => Deed::Vertical { up: true, page: false, extend: false },
        Action::Down => Deed::Vertical { up: false, page: false, extend: false },
        Action::ExtendUp => Deed::Vertical { up: true, page: false, extend: true },
        Action::ExtendDown => Deed::Vertical { up: false, page: false, extend: true },
        Action::PageUp => Deed::Vertical { up: true, page: true, extend: false },
        Action::PageDown => Deed::Vertical { up: false, page: true, extend: false },
        Action::ToggleFocus => Deed::Focus,
        Action::Find => Deed::Find,
        Action::Replace => Deed::Replace,
        Action::Files => Deed::Files,
        Action::Config => Deed::Config,
        Action::Outline => Deed::Outline,
        Action::NewDocument => Deed::Naming,
        Action::Help => Deed::Help,
        Action::Refresh => Deed::Refresh,
        Action::Resize(larger) => Deed::Resize(larger),
        Action::ResetSize => Deed::ResetSize,
        Action::Brightness(up) => Deed::Brightness(up),
        Action::CycleMargins => Deed::Margins,
        Action::CapsLock(_) => Deed::Noticed,
        Action::Escape => Deed::Nothing,
        Action::ChangeAll => Deed::Nothing,
        Action::Quit => Deed::Nothing,
        _ => Deed::Document(action),
    }
}

fn deed_for(action: Action) -> (r: Deed)
    ensures
        r == deed_of(action),
{
    match action {
        Action::Newline => Deed::Newline,
        Action::CommitTyped => Deed::Newline,
        Action::Emphasis(marker) => Deed::Emphasise(marker),
        Action::Heading(level) => Deed::Heading(level),
        Action::Change => Deed::Task,
        Action::Copy => Deed::Copy,
        Action::Cut => Deed::Cut,
        Action::Paste => Deed::Paste,
        Action::Save => Deed::Save,
        Action::CycleLanguage => Deed::Language,
        Action::Up => Deed::Vertical { up: true, page: false, extend: false },
        Action::Down => Deed::Vertical { up: false, page: false, extend: false },
        Action::ExtendUp => Deed::Vertical { up: true, page: false, extend: true },
        Action::ExtendDown => Deed::Vertical { up: false, page: false, extend: true },
        Action::PageUp => Deed::Vertical { up: true, page: true, extend: false },
        Action::PageDown => Deed::Vertical { up: false, page: true, extend: false },
        Action::ToggleFocus => Deed::Focus,
        Action::Find => Deed::Find,
        Action::Replace => Deed::Replace,
        Action::Files => Deed::Files,
        Action::Config => Deed::Config,
        Action::Outline => Deed::Outline,
        Action::NewDocument => Deed::Naming,
        Action::Help => Deed::Help,
        Action::Refresh => Deed::Refresh,
        Action::Resize(larger) => Deed::Resize(larger),
        Action::ResetSize => Deed::ResetSize,
        Action::Brightness(up) => Deed::Brightness(up),
        Action::CycleMargins => Deed::Margins,
        Action::CapsLock(_) => Deed::Noticed,
        Action::Escape => Deed::Nothing,
        Action::ChangeAll => Deed::Nothing,
        Action::Quit => Deed::Nothing,
        _ => Deed::Document(action),
    }
}

/// Whether an action keeps the column that a run of vertical moves holds.
pub open spec fn vertical(action: Action) -> bool {
    match action {
        Action::Up => true,
        Action::Down => true,
        Action::ExtendUp => true,
        Action::ExtendDown => true,
        Action::PageUp => true,
        Action::PageDown => true,
        _ => false,
    }
}

pub fn keeps_column(action: &Action) -> (r: bool)
    ensures
        r == vertical(*action),
{
    matches!(
        action,
        Action::Up | Action::Down | Action::ExtendUp | Action::ExtendDown | Action::PageUp
            | Action::PageDown
    )
}

/// An action keeps the column exactly where it is left to do as a vertical move.
pub proof fn only_vertical_moves_keep_the_column(action: Action)
    ensures
        vertical(action) == (deed_of(action) is Vertical),
{
}

/// What a name that was settled comes to.
#[derive(Debug)]
pub enum Named {
    /// It is still being typed.
    Typing,
    /// It was given up: back to the page.
    Cancelled,
    /// Open a new numbered document.
    Draft,
    /// Open the document of this path, making it where there is none.
    Open(String),
    /// Move the open document to this path.
    Rename(String),
    /// Still being typed, with the next input source.
    Language,
}

/// What a line of a panel comes to.
#[derive(Debug)]
pub enum Taken {
    Nothing,
    /// Open a document.
    Open(String),
    /// Go to a place in the document.
    Jump(usize),
}

/// What a chip of a line comes to.
#[derive(Debug, Clone, Copy, PartialEq, Eq, Structural)]
pub enum Chip {
    Nothing,
    /// A setting.
    Config,
    /// A document's Delete.
    Delete,
}

/// Where finished text went.
#[derive(Debug, Clone, Copy, PartialEq, Eq, Structural)]
pub enum Put {
    /// There was none.
    Nothing,
    /// It is for the document.
    Page,
    /// The query has it: the search is to be run again.
    Query,
    /// The replacement has it.
    With,
    /// The name has it.
    Name,
}

/// Texts one after the other.
pub open spec fn end_to_end(list: Seq<Seq<char>>) -> Seq<char>
    decreases list.len(),
{
    if list.len() == 0 {
        seq![]
    } else {
        end_to_end(list.drop_last()) + list.last()
    }
}

/// Two texts received one after the other are received as one.
proof fn lemma_received(first: Editor, mid: Editor, last: Editor, a: Seq<char>, b: Seq<char>)
    requires
        first.receives(mid, a),
        mid.receives(last, b),
    ensures
        first.receives(last, a + b),
        first.put_of(a + b) == (if b.len() == 0 {
            first.put_of(a)
        } else {
            mid.put_of(b)
        }),
{
    if a.len() == 0 {
        assert(a + b =~= b);
    } else if b.len() == 0 {
        assert(a + b =~= a);
    } else if first.sinks() == Sink::Find {
        lemma_found(first, mid, last, a, b);
    } else if first.sinks() == Sink::Name {
        lemma_named(first, mid, last, a, b);
    }
}

proof fn lemma_found(first: Editor, mid: Editor, last: Editor, a: Seq<char>, b: Seq<char>)
    requires
        a.len() > 0,
        b.len() > 0,
        first.sinks() == Sink::Find,
        first.receives(mid, a),
        mid.receives(last, b),
    ensures
        first.receives(last, a + b),
        first.put_of(a + b) == mid.put_of(b),
{
    let f = first.find->0;
    let m = mid.find->0;
    let l = last.find->0;
    assert(mid.mode == first.mode);
    assert(mid.sinks() == Sink::Find);
    assert(m.field == f.field);
    assert(l.edited() =~= f.edited() + (a + b));
    assert(l.same_but_edited(&f)) by {
        match f.field {
            Field::Query => {},
            Field::With => {},
        }
    }
    assert(last == Editor { find: last.find, ..first });
}

proof fn lemma_named(first: Editor, mid: Editor, last: Editor, a: Seq<char>, b: Seq<char>)
    requires
        a.len() > 0,
        b.len() > 0,
        first.sinks() == Sink::Name,
        first.receives(mid, a),
        mid.receives(last, b),
    ensures
        first.receives(last, a + b),
        first.put_of(a + b) == mid.put_of(b),
{
    lemma_nameable_part_adds(a, b);
    let (for_new, name) = match first.mode {
        Mode::Naming { for_new, name } => (for_new, name@),
        _ => arbitrary(),
    };
    assert(typing(first, mid, for_new, name + nameable_part(a)));
    assert(name + nameable_part(a) + nameable_part(b) =~= name + nameable_part(a + b));
    assert(typing(mid, last, for_new, name + nameable_part(a + b)));
    assert(last == Editor { mode: last.mode, ..first });
}

proof fn lemma_nameable_part_adds(a: Seq<char>, b: Seq<char>)
    ensures
        nameable_part(a + b) == nameable_part(a) + nameable_part(b),
    decreases b.len(),
{
    if b.len() == 0 {
        assert(a + b =~= a);
        assert(nameable_part(a) + nameable_part(b) =~= nameable_part(a));
    } else {
        assert((a + b).drop_last() =~= a + b.drop_last());
        lemma_nameable_part_adds(a, b.drop_last());
        assert(nameable_part(a + b) =~= nameable_part(a) + nameable_part(b));
    }
}

/// What taking a document's Delete comes to.
#[derive(Debug)]
pub enum Delete {
    Nothing,
    /// The first time: it is armed.
    Armed,
    /// The second: remove the document of this path.
    Remove(String),
}

/// What a cell of the strip comes to.
#[derive(Debug, Clone, Copy, PartialEq, Eq, Structural)]
pub enum Pushed {
    /// Leave the editor.
    Exit,
    /// Put the keys in a field of the find bar.
    Focus(Field),
    Nothing,
    Replace,
    ChangeOne,
    ChangeAll,
    Step { back: bool },
    /// The find bar has been closed.
    ClosedFind,
    /// The panel has been left.
    Left,
    Files,
    Help,
    Outline,
    Naming { for_new: bool },
    Page { back: bool },
    Config,
}

/// What choosing an input source asks of the faces and the engines.
#[derive(Debug, Clone, Copy, PartialEq, Eq, Structural)]
pub struct Wanted {
    /// The convention to draw Han by, where it is to change.
    pub region: Option<Region>,
    /// The engine to load.
    pub script: Option<Script>,
    pub traditional: bool,
}

impl Editor {
    pub open spec fn wf(&self) -> bool {
        in_order(self.enabled@) && self.enabled@.len() > 0
    }

    pub open spec fn finding(&self) -> bool {
        self.find is Some
    }

    pub open spec fn replacing(&self) -> bool {
        self.find is Some && self.find->0.replacing
    }

    /// The editor with the panel left: nothing armed, nothing focused.
    pub open spec fn left(&self) -> Editor {
        Editor {
            mode: Mode::Writing,
            arming: None,
            paging: Paging { focus: None, ..self.paging },
            ..*self
        }
    }

    /// The editor with the find bar closed.
    pub open spec fn unfound(&self) -> Editor {
        if self.find is Some {
            Editor { find: None, stale: true, ..*self }
        } else {
            *self
        }
    }

    /// The editor with the find bar's arm off.
    pub open spec fn disarmed(&self) -> Editor {
        match self.find {
            Some(find) => Editor {
                find: Some(Find { arming_all: false, ..find }),
                ..*self
            },
            None => *self,
        }
    }

    /// Back to the page, from whichever panel is over it.
    pub fn leave_panel(&mut self)
        ensures
            *final(self) == old(self).left(),
    {
        self.arming = None;
        self.paging.focus = None;
        self.mode = Mode::Writing;
    }

    /// Close the find bar. `false` where it was not open.
    pub fn close_find(&mut self) -> (r: bool)
        ensures
            r == old(self).finding(),
            *final(self) == old(self).unfound(),
    {
        if self.find.is_none() {
            return false;
        }
        self.find = None;
        self.stale = true;
        true
    }

    /// What a key event means, and the editor with what is held once it came.
    pub open spec fn pressing(&self, event: KeyEvent) -> (Pressed, Editor) {
        let mods = self.mods.after(event.code, event.pressed);
        let latch = event.code == code::CAPSLOCK;
        let bound = action_of(
            event.code,
            self.convention.resolved(mods),
            self.language.written_on(),
        );
        let pressed = if (is_modifier(event.code) && !latch) || !event.pressed {
            Pressed::Ignored
        } else if latch {
            Pressed::Bound(Action::CapsLock(mods.caps))
        } else {
            match bound {
                Some(action) => Pressed::Bound(action),
                None => Pressed::Unbound,
            }
        };
        let notice = match pressed {
            Pressed::Bound(Action::CycleLanguage) => self.notice,
            Pressed::Bound(Action::CapsLock(_)) => self.notice,
            Pressed::Bound(_) => None,
            _ => self.notice,
        };
        (pressed, Editor { mods, notice, ..*self })
    }

    /// What a key event means. Caps Lock latches and goes on to its binding; every
    /// other modifier only changes what is held. A notice goes with the next key
    /// that raises none.
    pub fn pressed_action(&mut self, event: &KeyEvent) -> (r: Pressed)
        ensures
            (r, *final(self)) == old(self).pressing(*event),
    {
        let latch = event.code == code::CAPSLOCK;
        let modifier = self.mods.track(event.code, event.pressed);
        if (modifier && !latch) || !event.pressed {
            return Pressed::Ignored;
        }
        if latch {
            return Pressed::Bound(Action::CapsLock(self.mods.caps));
        }
        let mods = self.convention.resolve(self.mods);
        match action(event.code, mods, self.language.layout()) {
            None => Pressed::Unbound,
            Some(action) => {
                match action {
                    Action::CycleLanguage => {},
                    Action::CapsLock(_) => {},
                    _ => {
                        self.notice = None;
                    },
                }
                Pressed::Bound(action)
            },
        }
    }

    /// The input source after this one.
    pub open spec fn next_language(&self) -> Language {
        self.language.next_from(self.enabled@, 1)
    }

    /// Carry out what an action does to the screen, and say what is left of it. An
    /// action that asks for the surface on screen closes it, and does nothing
    /// else.
    pub fn apply(&mut self, action: Action) -> (r: Deed)
        ensures
            applied(*old(self), *final(self), r, action),
    {
        let finding = self.find.is_some();
        let replacing = match &self.find {
            Some(find) => find.replacing,
            None => false,
        };
        if reopens(&self.mode, finding, replacing, &action) {
            match action {
                Action::Find => {
                    let _ = self.close_find();
                },
                Action::Replace => {
                    let _ = self.close_find();
                },
                _ => self.leave_panel(),
            }
            return Deed::Closed;
        }
        self.change(action);
        deed_for(action)
    }

    /// What an action that closes nothing does to the screen.
    fn change(&mut self, action: Action)
        ensures
            changed(*old(self), *final(self), action),
    {
        match action {
            Action::ToggleFocus => {
                self.focus = !self.focus;
                self.stale = true;
            },
            Action::CapsLock(on) => {
                self.notice = Some(Notice::Caps(on));
            },
            Action::CycleLanguage => self.cycle_language(),
            Action::Help => self.open_help(),
            Action::Config => {
                self.disarm();
                self.open_config();
            },
            Action::Files => self.disarm(),
            Action::Outline => self.disarm(),
            Action::NewDocument => self.start_naming(true, ""),
            _ => {},
        }
    }

    /// Take the find bar's arm off.
    fn disarm(&mut self)
        ensures
            *final(self) == old(self).disarmed(),
    {
        let held = self.find.take();
        match held {
            Some(mut find) => {
                let _ = find.disarm_all();
                self.find = Some(find);
            },
            None => {},
        }
    }

    /// Take up the next input source, and say which beside the caret.
    pub fn cycle_language(&mut self)
        ensures
            *final(self) == (Editor {
                language: old(self).next_language(),
                notice: Some(Notice::Language(old(self).next_language())),
                ..*old(self)
            }),
    {
        self.language = self.language.next(self.enabled.as_slice());
        self.notice = Some(Notice::Language(self.language));
    }

    /// Take up an input source. What that asks of the faces and the engines: the
    /// convention only where it names one that differs, and then nothing that was
    /// drawn stands.
    pub fn set_language(&mut self, language: Language, region: Region) -> (r: Wanted)
        ensures
            r.region == (match language.convention() {
                Some(want) => if want != region {
                    Some(want)
                } else {
                    None
                },
                None => None,
            }),
            r.script == language.typed_through(),
            r.traditional == language.converts(),
            *final(self) == (Editor {
                language,
                cjk: false,
                stale: old(self).stale || r.region is Some,
                ..*old(self)
            }),
    {
        self.language = language;
        self.cjk = false;
        let change = match language.region() {
            Some(want) => if want != region {
                Some(want)
            } else {
                None
            },
            None => None,
        };
        if change.is_some() {
            self.stale = true;
        }
        Wanted { region: change, script: language.script(), traditional: language.traditional() }
    }

    /// Whether the engine that was wanted can be used. Hangul needs none.
    pub fn engine_loaded(&mut self, loaded: bool)
        ensures
            *final(self) == (Editor {
                cjk: match old(self).language.typed_through() {
                    None => false,
                    Some(Script::Korean) => true,
                    Some(_) => loaded,
                },
                ..*old(self)
            }),
            old(self).language.lettered() == 'k' ==> final(self).cjk,
            old(self).language.lettered() == 'e' ==> !final(self).cjk,
            old(self).language.lettered() == 'd' ==> !final(self).cjk,
            old(self).language.convention() is Some ==> final(self).cjk == loaded,
    {
        self.cjk = match self.language.script() {
            None => false,
            Some(Script::Korean) => true,
            Some(_) => loaded,
        };
    }

    /// Switch an input source on or off. The one in use, switched off, gives way
    /// to the next that is on, which is the answer.
    pub fn toggle_language(&mut self, language: Language) -> (r: Option<Language>)
        requires
            old(self).wf(),
        ensures
            final(self).wf(),
            final(self).enabled@ == switched(old(self).enabled@, language),
            r == (if final(self).enabled@.contains(old(self).language) {
                None
            } else {
                Some(old(self).language.next_from(final(self).enabled@, 1))
            }),
            r matches Some(next) ==> final(self).enabled@.contains(next),
            *final(self) == (Editor { enabled: final(self).enabled, ..*old(self) }),
    {
        proof {
            crate::language::switching_keeps_the_order(self.enabled@, language);
        }
        let mut enabled: Vec<Language> = Vec::new();
        enabled.append(&mut self.enabled);
        let _ = toggle(&mut enabled, language);
        self.enabled = enabled;
        if lists(self.enabled.as_slice(), self.language) {
            None
        } else {
            proof {
                crate::language::the_next_language_is_enabled(self.language, self.enabled@);
            }
            Some(self.language.next(self.enabled.as_slice()))
        }
    }

    pub fn open_help(&mut self)
        ensures
            *final(self) == (Editor {
                mode: Mode::Help,
                paging: Paging { page: 0, focus: None },
                ..*old(self)
            }),
    {
        self.mode = Mode::Help;
        self.paging = Paging::opened();
    }

    pub fn open_config(&mut self)
        ensures
            *final(self) == (Editor {
                mode: Mode::Config,
                paging: Paging { page: 0, focus: None },
                ..*old(self)
            }),
    {
        self.mode = Mode::Config;
        self.paging = Paging::opened();
    }

    /// Show a list of documents, nothing armed.
    pub fn open_files(&mut self, files: Vec<Listing>)
        ensures
            *final(self) == (Editor {
                mode: Mode::Files(files),
                paging: Paging { page: 0, focus: None },
                arming: None,
                ..*old(self)
            }),
    {
        self.mode = Mode::Files(files);
        self.paging = Paging::opened();
        self.arming = None;
    }

    /// Show the headings, on a page.
    pub fn open_outline(&mut self, sections: Vec<Section>, page: usize)
        ensures
            *final(self) == (Editor {
                mode: Mode::Outline(sections),
                paging: Paging { page, focus: None },
                ..*old(self)
            }),
    {
        self.mode = Mode::Outline(sections);
        self.paging = Paging { page, focus: None };
    }

    /// Ask for a name: an empty one for a new document, and the open one's for a
    /// rename.
    pub fn start_naming(&mut self, for_new: bool, stem: &str)
        ensures
            *final(self) == (Editor { mode: final(self).mode, ..*old(self) }),
            names(
                final(self).mode,
                for_new,
                if for_new {
                    seq![]
                } else {
                    stem@
                },
            ),
    {
        let name = if for_new {
            let s = String::new();
            assert(s@ =~= seq![]);
            s
        } else {
            stem.to_owned()
        };
        self.mode = Mode::Naming { for_new, name };
    }

    /// The find bar is shown, or its second field is. The bar is chrome, and brings
    /// the chrome back.
    pub fn open_find(&mut self, selected: Option<String>, replacing: bool)
        ensures
            !(old(self).finding() && replacing) ==> !final(self).chrome_hidden && final(self).find
                is Some && just_opened(final(self).find->0, selected, replacing),
            old(self).finding() && replacing ==> final(self).chrome_hidden == old(
                self,
            ).chrome_hidden && final(self).find == Some(
                Find {
                    replacing: true,
                    field: Field::With,
                    arming_all: false,
                    ..old(self).find->0
                },
            ),
            *final(self) == (Editor {
                find: final(self).find,
                chrome_hidden: final(self).chrome_hidden,
                stale: true,
                ..*old(self)
            }),
    {
        let held = self.find.take();
        match held {
            Some(mut find) => if replacing {
                find.show_second();
                self.find = Some(find);
                self.stale = true;
                return ;
            },
            None => {},
        }
        self.find = Some(Find::open(selected, replacing));
        self.chrome_hidden = false;
        self.stale = true;
    }

    /// A key that the input method did not take, while a name is being typed. Enter
    /// settles it: an empty name is a new draft, or no rename; any other is a
    /// document's path. Esc gives it up, and so does the shortcut that asked for a
    /// new one.
    pub fn typed_name(&mut self, action: &Action) -> (r: Named)
        ensures
            match old(self).mode {
                Mode::Naming { for_new, name } => name_key(
                    *old(self),
                    *final(self),
                    r,
                    for_new,
                    name@,
                    *action,
                ),
                _ => r is Typing && *final(self) == *old(self),
            },
    {
        let (for_new, mut name) = match &self.mode {
            Mode::Naming { for_new, name } => (*for_new, name.clone()),
            _ => return Named::Typing,
        };
        let key = NameKey::of(action, for_new);
        match key {
            NameKey::Settle => self.settle(for_new, name),
            NameKey::Cancel => {
                self.mode = Mode::Writing;
                Named::Cancelled
            },
            NameKey::Back => {
                let _ = name.pop();
                self.mode = Mode::Naming { for_new, name };
                Named::Typing
            },
            NameKey::Language => {
                self.mode = Mode::Naming { for_new, name };
                self.cycle_language();
                Named::Language
            },
            NameKey::Type(c) => {
                name.push(c);
                self.mode = Mode::Naming { for_new, name };
                Named::Typing
            },
            NameKey::Nothing => Named::Typing,
        }
    }

    fn settle(&mut self, for_new: bool, name: String) -> (r: Named)
        ensures
            named_by(*old(self), *final(self), r, for_new, trim(name@)),
    {
        let chars = chars_of(name.as_str());
        let settled = trimmed(&chars);
        self.mode = Mode::Writing;
        if settled.len() == 0 {
            return if for_new {
                Named::Draft
            } else {
                Named::Cancelled
            };
        }
        let settled = string_of(&settled);
        let path = path_for(settled.as_str());
        if for_new {
            Named::Open(path)
        } else {
            Named::Rename(path)
        }
    }

    /// Put finished text at the end of the name being typed.
    pub fn name_extend(&mut self, text: &str)
        ensures
            match old(self).mode {
                Mode::Naming { for_new, name } => typing(
                    *old(self),
                    *final(self),
                    for_new,
                    name@ + nameable_part(text@),
                ),
                _ => *final(self) == *old(self),
            },
    {
        let (for_new, mut name) = match &self.mode {
            Mode::Naming { for_new, name } => (*for_new, name.clone()),
            _ => return ,
        };
        crate::files::extend_name(&mut name, text);
        self.mode = Mode::Naming { for_new, name };
    }

    /// Where finished text goes.
    pub open spec fn sinks(&self) -> Sink {
        sink_of(self.mode is Naming, self.find is Some)
    }

    pub fn sink(&self) -> (r: Sink)
        ensures
            r == self.sinks(),
    {
        sink_for(matches!(self.mode, Mode::Naming { for_new: _, name: _ }), self.find.is_some())
    }

    /// What becomes of finished text.
    pub open spec fn put_of(&self, text: Seq<char>) -> Put {
        if text.len() == 0 {
            Put::Nothing
        } else {
            match self.sinks() {
                Sink::Page => Put::Page,
                Sink::Find => match self.find->0.field {
                    Field::Query => Put::Query,
                    Field::With => Put::With,
                },
                Sink::Name => Put::Name,
            }
        }
    }

    /// The editor once finished text went where it goes: a name takes what may
    /// stand in one, a field of the find bar takes it all, and the page leaves it to
    /// the document.
    pub open spec fn receives(&self, after: Editor, text: Seq<char>) -> bool {
        if text.len() == 0 {
            after == *self
        } else {
            match self.sinks() {
                Sink::Page => after == *self,
                Sink::Find => {
                    &&& after == (Editor { find: after.find, ..*self })
                    &&& after.find is Some
                    &&& (after.find->0).edited() == (self.find->0).edited() + text
                    &&& (after.find->0).same_but_edited(&self.find->0)
                },
                Sink::Name => match self.mode {
                    Mode::Naming { for_new, name } => typing(
                        *self,
                        after,
                        for_new,
                        name@ + nameable_part(text),
                    ),
                    _ => false,
                },
            }
        }
    }

    /// Put finished text where it goes, unless that is the page: then it is for the
    /// document.
    pub fn insert_committed(&mut self, text: &str) -> (r: Put)
        ensures
            r == old(self).put_of(text@),
            old(self).receives(*final(self), text@),
    {
        let chars = chars_of(text);
        if chars.len() == 0 {
            return Put::Nothing;
        }
        match self.sink() {
            Sink::Page => Put::Page,
            Sink::Find => {
                let held = self.find.take();
                match held {
                    Some(mut find) => {
                        let query = find.append(text);
                        self.find = Some(find);
                        if query {
                            Put::Query
                        } else {
                            Put::With
                        }
                    },
                    None => Put::Nothing,
                }
            },
            Sink::Name => {
                self.name_extend(text);
                Put::Name
            },
        }
    }

    /// Put every text that a key finished where it goes, one after the other.
    pub fn insert_all(&mut self, list: &Vec<String>) -> (r: Put)
        ensures
            r == old(self).put_of(end_to_end(texts(list@))),
            old(self).receives(*final(self), end_to_end(texts(list@))),
    {
        let mut r = Put::Nothing;
        let mut i: usize = 0;
        assert(texts(list@).take(0) =~= seq![]);
        while i < list.len()
            invariant
                i <= list.len(),
                r == old(self).put_of(end_to_end(texts(list@).take(i as int))),
                old(self).receives(*self, end_to_end(texts(list@).take(i as int))),
            decreases list.len() - i,
        {
            let ghost before = *self;
            let ghost sofar = end_to_end(texts(list@).take(i as int));
            let put = self.insert_committed(list[i].as_str());
            proof {
                let more = texts(list@).take(i + 1);
                assert(more.drop_last() =~= texts(list@).take(i as int));
                assert(more.last() == list@[i as int]@);
                lemma_received(*old(self), before, *self, sofar, list@[i as int]@);
            }
            match put {
                Put::Nothing => {},
                _ => {
                    r = put;
                },
            }
            i = i + 1;
        }
        assert(texts(list@).take(i as int) =~= texts(list@));
        r
    }

    /// What a key does while the find bar is open, edits aside.
    pub open spec fn queried(&self, after: Editor, r: (bool, Step), action: Action) -> bool {
        let find = self.find->0;
        &&& r.0 == (find.arming_all && !(action is ChangeAll))
        &&& r.1 == find.step_of(action, self.mods.shift)
        &&& match r.1 {
            Step::Close => after == self.unfound(),
            Step::CycleLanguage => {
                &&& after == (Editor {
                    find: after.find,
                    language: self.next_language(),
                    notice: Some(Notice::Language(self.next_language())),
                    ..*self
                })
                &&& after.find is Some
                &&& find.keyed(after.find->0, action)
            },
            Step::Reveal => after == (Editor {
                find: Some(
                    Find { replacing: true, field: Field::With, arming_all: false, ..find },
                ),
                stale: true,
                ..*self
            }),
            Step::Focus(field) => after == (Editor {
                find: Some(Find { field, arming_all: false, ..find }),
                ..*self
            }),
            _ => {
                &&& after == (Editor { find: after.find, ..*self })
                &&& after.find is Some
                &&& find.keyed(after.find->0, action)
            },
        }
    }

    /// A key that the input method did not take, while the find bar is open. The
    /// arm comes off with any key but the one that changes every match, which is
    /// told by `true`. Without the bar nothing happens.
    pub fn typed_query(&mut self, action: &Action) -> (r: (bool, Step))
        ensures
            old(self).finding() ==> old(self).queried(*final(self), r, *action),
            !old(self).finding() ==> r == (false, Step::Nothing) && *final(self) == *old(self),
    {
        let held = self.find.take();
        match held {
            None => (false, Step::Nothing),
            Some(mut find) => {
                let (disarmed, step) = find.typed(action, self.mods.shift);
                match step {
                    Step::Close => {
                        self.stale = true;
                    },
                    Step::CycleLanguage => {
                        self.find = Some(find);
                        self.cycle_language();
                    },
                    Step::Reveal => {
                        find.show_second();
                        self.find = Some(find);
                        self.stale = true;
                    },
                    Step::Focus(field) => {
                        let _ = find.focus(field);
                        self.find = Some(find);
                    },
                    _ => {
                        self.find = Some(find);
                    },
                }
                (disarmed, step)
            },
        }
    }

    /// The editor with the strip put away, or brought back. It is touched only
    /// while writing, and where that shows nothing that was drawn stands.
    pub open spec fn with_chrome(&self, hidden: bool) -> Editor {
        if self.mode is Writing {
            Editor {
                chrome_hidden: hidden,
                stale: self.stale || visible(
                    self.chrome_hidden,
                    self.keyboard_present,
                    self.find is Some,
                    true,
                ) != visible(hidden, self.keyboard_present, self.find is Some, true),
                ..*self
            }
        } else {
            *self
        }
    }

    pub fn set_chrome_hidden(&mut self, hidden: bool)
        ensures
            *final(self) == old(self).with_chrome(hidden),
    {
        let writing = matches!(self.mode, Mode::Writing);
        let mut chrome = self.chrome_hidden;
        let changed = set_chrome_hidden(
            &mut chrome,
            hidden,
            self.keyboard_present,
            self.find.is_some(),
            writing,
        );
        self.chrome_hidden = chrome;
        if changed {
            self.stale = true;
        }
    }

    /// What taking a line opens.
    pub open spec fn row_taken(&self, r: Taken, row: usize) -> bool {
        match self.mode {
            Mode::Files(files) => if row < files@.len() {
                r matches Taken::Open(path) && path@ == files@[row as int].path@
            } else {
                r is Nothing
            },
            Mode::Outline(sections) => if row < sections@.len() {
                r == Taken::Jump(sections@[row as int].at)
            } else {
                r is Nothing
            },
            _ => r is Nothing,
        }
    }

    /// What taking a line of the panel comes to: a document of the list, a heading
    /// of the outline, and nothing anywhere else.
    pub fn take_row(&self, row: usize) -> (r: Taken)
        ensures
            self.row_taken(r, row),
    {
        match &self.mode {
            Mode::Files(files) => if row < files.len() {
                Taken::Open(files[row].path.clone())
            } else {
                Taken::Nothing
            },
            Mode::Outline(sections) => if row < sections.len() {
                Taken::Jump(sections[row].at)
            } else {
                Taken::Nothing
            },
            _ => Taken::Nothing,
        }
    }

    /// What taking a chip comes to: a setting on Config, and a document's Delete in
    /// the list.
    pub fn take_chip(&self) -> (r: Chip)
        ensures
            r == (match self.mode {
                Mode::Config => Chip::Config,
                Mode::Files(_) => Chip::Delete,
                _ => Chip::Nothing,
            }),
    {
        match &self.mode {
            Mode::Config => Chip::Config,
            Mode::Files(_) => Chip::Delete,
            _ => Chip::Nothing,
        }
    }

    /// The line whose document Backspace removes: the one the keyboard is on, in
    /// the list of documents.
    pub fn delete_focus(&self) -> (r: Option<usize>)
        ensures
            r == (match (self.paging.focus, self.mode) {
                (Some(focus), Mode::Files(_)) => Some(focus.row),
                _ => None,
            }),
    {
        match (self.paging.focus, &self.mode) {
            (Some(focus), Mode::Files(_)) => Some(focus.row),
            _ => None,
        }
    }

    /// The Delete of a line was taken: the first time arms it, the second removes the
    /// document.
    pub open spec fn delete_taken(&self, after: Editor, r: Delete, row: usize) -> bool {
        match self.mode {
            Mode::Files(files) => if row < files@.len() {
                if is_path(self.arming, files@[row as int].path@) {
                    r matches Delete::Remove(path) && path@ == files@[row as int].path@ && after == (
                    Editor { arming: None, ..*self })
                } else {
                    r is Armed && after == (Editor { arming: after.arming, ..*self }) && is_path(
                        after.arming,
                        files@[row as int].path@,
                    )
                }
            } else {
                r is Nothing && after == *self
            },
            _ => r is Nothing && after == *self,
        }
    }

    /// A document's Delete: the first time it is armed, and the second time on the
    /// same document it is removed. Arming another disarms the first.
    pub fn arm_or_delete(&mut self, row: usize) -> (r: Delete)
        ensures
            old(self).delete_taken(*final(self), r, row),
    {
        let path = match &self.mode {
            Mode::Files(files) => if row < files.len() {
                files[row].path.clone()
            } else {
                return Delete::Nothing;
            },
            _ => return Delete::Nothing,
        };
        if !at_path(&self.arming, path.as_str()) {
            self.arming = Some(path);
            return Delete::Armed;
        }
        self.arming = None;
        Delete::Remove(path)
    }

    /// A document was removed. Where it was the open one it is disowned, so that
    /// nothing writes it back, and another is to be opened: that is told by
    /// `true`.
    pub fn removed(&mut self, path: &str) -> (r: bool)
        ensures
            r == is_path(old(self).path, path@),
            *final(self) == (Editor {
                path: if r {
                    None
                } else {
                    old(self).path
                },
                ..*old(self)
            }),
    {
        if at_path(&self.path, path) {
            self.path = None;
            true
        } else {
            false
        }
    }

    /// Go to a place chosen from the outline: the panel is left, and the next paint
    /// lands there.
    pub fn jump(&mut self)
        ensures
            *final(self) == (Editor { landing: true, ..old(self).left() }),
    {
        self.landing = true;
        self.leave_panel();
    }

    /// A pairing succeeded: out of Config, and the next tap on the strip is spent
    /// looking at it.
    pub fn paired(&mut self)
        ensures
            *final(self) == (Editor { mode: Mode::Writing, strip_changed: true, ..*old(self) }),
    {
        self.mode = Mode::Writing;
        self.strip_changed = true;
    }

    /// The keyboard is gone: what was held has no release to follow.
    pub fn keyboard_lost(&mut self)
        ensures
            *final(self) == (Editor {
                keyboard_present: false,
                mods: Mods {
                    shift: false,
                    ctrl: false,
                    alt: false,
                    altgr: false,
                    meta: false,
                    caps: false,
                },
                ..*old(self)
            }),
    {
        self.keyboard_present = false;
        self.mods = Mods::default();
    }

    /// What a cell of the strip does to the find bar's arm before anything else:
    /// any but the one for every match takes it off, which is told by `true`.
    pub fn disarm_for(&mut self, button: Bar) -> (r: bool)
        ensures
            r == (button != Bar::All && old(self).find is Some && old(self).find->0.arming_all),
            *final(self) == (Editor { find: final(self).find, ..*old(self) }),
            r ==> final(self).find == Some(Find { arming_all: false, ..old(self).find->0 }),
            !r ==> final(self).find == old(self).find,
    {
        if button == Bar::All {
            return false;
        }
        let held = self.find.take();
        match held {
            Some(mut find) => {
                let was = find.disarm_all();
                self.find = Some(find);
                was
            },
            None => false,
        }
    }

    /// What a cell of the strip comes to. Done closes the find bar where that is
    /// what is open, and leaves the panel where it is not.
    pub open spec fn push_of(&self, button: Bar) -> Pushed {
        match button {
            Bar::Exit => Pushed::Exit,
            Bar::Query => Pushed::Focus(Field::Query),
            Bar::With => Pushed::Focus(Field::With),
            Bar::Count => Pushed::Nothing,
            Bar::Replace => Pushed::Replace,
            Bar::Change => Pushed::ChangeOne,
            Bar::All => Pushed::ChangeAll,
            Bar::Previous => Pushed::Step { back: true },
            Bar::Next => Pushed::Step { back: false },
            Bar::Done => if self.finding() {
                Pushed::ClosedFind
            } else {
                Pushed::Left
            },
            Bar::Cancel => Pushed::Left,
            Bar::Files => Pushed::Files,
            Bar::Help => Pushed::Help,
            Bar::Outline => Pushed::Outline,
            Bar::New => Pushed::Naming { for_new: true },
            Bar::Rename => Pushed::Naming { for_new: false },
            Bar::PageBack => Pushed::Page { back: true },
            Bar::PageOn => Pushed::Page { back: false },
            Bar::PageAt => Pushed::Nothing,
            Bar::Config => Pushed::Config,
        }
    }

    /// The editor once a cell of the strip was taken.
    pub open spec fn after_push(&self, pushed: Pushed) -> Editor {
        match pushed {
            Pushed::ClosedFind => self.unfound(),
            Pushed::Left => self.left(),
            Pushed::Help => Editor {
                mode: Mode::Help,
                paging: Paging { page: 0, focus: None },
                ..*self
            },
            Pushed::Config => Editor {
                mode: Mode::Config,
                paging: Paging { page: 0, focus: None },
                ..*self
            },
            _ => *self,
        }
    }

    /// Carry out what a cell does to the screen, once the arm is off, and say what
    /// it comes to.
    pub fn strip_action(&mut self, button: Bar) -> (r: Pushed)
        ensures
            r == old(self).push_of(button),
            *final(self) == old(self).after_push(r),
    {
        match button {
            Bar::Exit => Pushed::Exit,
            Bar::Query => Pushed::Focus(Field::Query),
            Bar::With => Pushed::Focus(Field::With),
            Bar::Count => Pushed::Nothing,
            Bar::Replace => Pushed::Replace,
            Bar::Change => Pushed::ChangeOne,
            Bar::All => Pushed::ChangeAll,
            Bar::Previous => Pushed::Step { back: true },
            Bar::Next => Pushed::Step { back: false },
            Bar::Done => if self.find.is_some() {
                let _ = self.close_find();
                Pushed::ClosedFind
            } else {
                self.leave_panel();
                Pushed::Left
            },
            Bar::Cancel => {
                self.leave_panel();
                Pushed::Left
            },
            Bar::Files => Pushed::Files,
            Bar::Help => {
                self.open_help();
                Pushed::Help
            },
            Bar::Outline => Pushed::Outline,
            Bar::New => Pushed::Naming { for_new: true },
            Bar::Rename => Pushed::Naming { for_new: false },
            Bar::PageBack => Pushed::Page { back: true },
            Bar::PageOn => Pushed::Page { back: false },
            Bar::PageAt => Pushed::Nothing,
            Bar::Config => {
                self.open_config();
                Pushed::Config
            },
        }
    }
}

/// What a key does to a name.
#[derive(Debug, Clone, Copy, PartialEq, Eq, Structural)]
pub enum NameKey {
    /// Enter.
    Settle,
    /// Esc, and the shortcut that asked for a new document.
    Cancel,
    /// Backspace.
    Back,
    Language,
    /// A character that may stand in a name.
    Type(char),
    Nothing,
}

impl NameKey {
    pub open spec fn of_action(action: Action, for_new: bool) -> NameKey {
        match action {
            Action::Newline => NameKey::Settle,
            Action::CommitTyped => NameKey::Settle,
            Action::Escape => NameKey::Cancel,
            Action::NewDocument => if for_new {
                NameKey::Cancel
            } else {
                NameKey::Nothing
            },
            Action::Backspace => NameKey::Back,
            Action::CycleLanguage => NameKey::Language,
            Action::Insert(c) => if nameable(c) {
                NameKey::Type(c)
            } else {
                NameKey::Nothing
            },
            _ => NameKey::Nothing,
        }
    }

    fn of(action: &Action, for_new: bool) -> (r: NameKey)
        ensures
            r == NameKey::of_action(*action, for_new),
    {
        match *action {
            Action::Newline => NameKey::Settle,
            Action::CommitTyped => NameKey::Settle,
            Action::Escape => NameKey::Cancel,
            Action::NewDocument => if for_new {
                NameKey::Cancel
            } else {
                NameKey::Nothing
            },
            Action::Backspace => NameKey::Back,
            Action::CycleLanguage => NameKey::Language,
            Action::Insert(c) => if in_filename(c) {
                NameKey::Type(c)
            } else {
                NameKey::Nothing
            },
            _ => NameKey::Nothing,
        }
    }
}

/// What an action makes of the editor, and what is left of it. One that asks for the
/// surface on screen closes it, and does nothing else. One that the strip has a cell
/// for in a list or the settings takes the find bar's arm off, as the cell does.
pub open spec fn applied(before: Editor, after: Editor, deed: Deed, action: Action) -> bool {
    if asks_for_open(before.mode, before.finding(), before.replacing(), action) {
        deed == Deed::Closed && after == (match action {
            Action::Find => before.unfound(),
            Action::Replace => before.unfound(),
            _ => before.left(),
        })
    } else {
        deed == deed_of(action) && changed(before, after, action)
    }
}

/// What an action that closes nothing makes of the editor.
pub open spec fn changed(before: Editor, after: Editor, action: Action) -> bool {
    match action {
        Action::ToggleFocus => after == (Editor {
            focus: !before.focus,
            stale: true,
            ..before
        }),
        Action::CapsLock(on) => after == (Editor {
            notice: Some(Notice::Caps(on)),
            ..before
        }),
        Action::CycleLanguage => after == (Editor {
            language: before.next_language(),
            notice: Some(Notice::Language(before.next_language())),
            ..before
        }),
        Action::Help => after == (Editor {
            mode: Mode::Help,
            paging: Paging { page: 0, focus: None },
            ..before
        }),
        Action::Config => after == (Editor {
            mode: Mode::Config,
            paging: Paging { page: 0, focus: None },
            ..before.disarmed()
        }),
        Action::Files => after == before.disarmed(),
        Action::Outline => after == before.disarmed(),
        Action::NewDocument => typing(before, after, true, seq![]),
        _ => after == before,
    }
}

/// What a key makes of the name that is being typed, and of the editor.
pub open spec fn name_key(
    before: Editor,
    after: Editor,
    r: Named,
    for_new: bool,
    name: Seq<char>,
    action: Action,
) -> bool {
    match NameKey::of_action(action, for_new) {
        NameKey::Settle => named_by(before, after, r, for_new, trim(name)),
        NameKey::Cancel => r is Cancelled && after == (Editor { mode: Mode::Writing, ..before }),
        NameKey::Back => r is Typing && typing(
            before,
            after,
            for_new,
            if name.len() == 0 {
                name
            } else {
                name.drop_last()
            },
        ),
        NameKey::Language => r is Language && names(after.mode, for_new, name) && after == (Editor {
            mode: after.mode,
            language: before.next_language(),
            notice: Some(Notice::Language(before.next_language())),
            ..before
        }),
        NameKey::Type(c) => r is Typing && typing(before, after, for_new, name.push(c)),
        NameKey::Nothing => r is Typing && typing(before, after, for_new, name),
    }
}

/// A name being typed, and nothing else changed.
pub open spec fn typing(before: Editor, after: Editor, for_new: bool, name: Seq<char>) -> bool {
    &&& after == Editor { mode: after.mode, ..before }
    &&& names(after.mode, for_new, name)
}

/// Whether a name is being typed, what for, and how far it is.
pub open spec fn names(mode: Mode, for_new: bool, name: Seq<char>) -> bool {
    match mode {
        Mode::Naming { for_new: f, name: n } => f == for_new && n@ == name,
        _ => false,
    }
}

/// The find bar as it opens.
pub open spec fn just_opened(find: Find, selected: Option<String>, replacing: bool) -> bool {
    &&& find.replacing == replacing
    &&& find.field == (if replacing {
        Field::With
    } else {
        Field::Query
    })
    &&& find.hits@.len() == 0
    &&& find.at == 0
    &&& find.with@.len() == 0
    &&& !find.arming_all
    &&& find.query@ == (match selected {
        Some(s) => if crate::find::one_line(s@) {
            s@
        } else {
            seq![]
        },
        None => seq![],
    })
}

/// What Enter makes of a name: the page, and what is to be opened or renamed.
pub open spec fn named_by(
    before: Editor,
    after: Editor,
    r: Named,
    for_new: bool,
    settled: Seq<char>,
) -> bool {
    &&& after == Editor { mode: Mode::Writing, ..before }
    &&& if settled.len() == 0 {
        if for_new {
            r is Draft
        } else {
            r is Cancelled
        }
    } else if for_new {
        r matches Named::Open(path) && path@ == path_named(settled)
    } else {
        r matches Named::Rename(path) && path@ == path_named(settled)
    }
}

// ---------------------------------------------------------------------------
// What holds of every press
// ---------------------------------------------------------------------------

/// A shortcut closes the surface it opened, and no other: on any other surface it
/// opens its own.
pub proof fn a_shortcut_closes_what_it_opened(mode: Mode, finding: bool, replacing: bool)
    ensures
        asks_for_open(Mode::Help, finding, replacing, Action::Help),
        asks_for_open(Mode::Config, finding, replacing, Action::Config),
        asks_for_open(mode, finding, replacing, Action::Help) ==> mode is Help,
        asks_for_open(mode, finding, replacing, Action::Config) ==> mode is Config,
        asks_for_open(mode, finding, replacing, Action::Files) == mode is Files,
        asks_for_open(mode, finding, replacing, Action::Outline) == mode is Outline,
        mode is Writing ==> !asks_for_open(mode, finding, replacing, Action::Files)
            && !asks_for_open(mode, finding, replacing, Action::Config) && !asks_for_open(
            mode,
            finding,
            replacing,
            Action::Help,
        ) && !asks_for_open(mode, finding, replacing, Action::Outline),
{
}

/// Typing is never a request to close something.
pub proof fn typing_closes_nothing(mode: Mode, finding: bool, replacing: bool, action: Action)
    requires
        deed_of(action) is Document || deed_of(action) == Deed::Newline || deed_of(action) is Vertical,
    ensures
        !asks_for_open(mode, finding, replacing, action),
{
}

/// A key that opens a panel and the strip's cell for it come to the same screen.
pub proof fn a_key_and_its_button_agree(editor: Editor)
    ensures
        deed_of(Action::Files) == Deed::Files && editor.push_of(Bar::Files) == Pushed::Files,
        deed_of(Action::Config) == Deed::Config && editor.push_of(Bar::Config) == Pushed::Config,
        deed_of(Action::Help) == Deed::Help && editor.push_of(Bar::Help) == Pushed::Help,
        deed_of(Action::Outline) == Deed::Outline && editor.push_of(Bar::Outline)
            == Pushed::Outline,
{
}

/// A key that opens a list or the settings takes the find bar's arm off, as the
/// strip's cell for it does.
pub proof fn no_arm_outlives_the_page(before: Editor, after: Editor, deed: Deed, action: Action)
    requires
        applied(before, after, deed, action),
        action is Files || action is Config || action is Outline,
        deed != Deed::Closed,
    ensures
        after.find is Some == before.find is Some,
        after.find is Some ==> !after.find->0.arming_all,
{
}

/// Leaving a panel twice is leaving it once, and nothing stays armed.
pub proof fn leaving_is_final(editor: Editor)
    ensures
        editor.left().left() == editor.left(),
        editor.left().arming is None,
        editor.left().mode is Writing,
{
}

/// Whether a text may be a file's name, character by character.
pub open spec fn all_nameable(name: Seq<char>) -> bool {
    forall|i: int| 0 <= i < name.len() ==> nameable(#[trigger] name[i])
}

/// No key puts into a name what would make a path of it.
pub proof fn a_key_keeps_a_name_a_name(
    before: Editor,
    after: Editor,
    named: Named,
    for_new: bool,
    name: Seq<char>,
    action: Action,
)
    requires
        all_nameable(name),
        name_key(before, after, named, for_new, name, action),
    ensures
        after.mode matches Mode::Naming { for_new: _, name } ==> all_nameable(name@),
{
    match NameKey::of_action(action, for_new) {
        NameKey::Type(c) => {
            assert(all_nameable(name.push(c)));
        },
        NameKey::Back => {
            if name.len() > 0 {
                assert(all_nameable(name.drop_last()));
            }
        },
        _ => {},
    }
}

/// Nor does the text of a word that is finished into it.
pub proof fn a_word_keeps_a_name_a_name(before: Editor, after: Editor, text: Seq<char>)
    requires
        before.receives(after, text),
        before.mode matches Mode::Naming { for_new: _, name } ==> all_nameable(name@),
        before.mode is Naming,
    ensures
        after.mode matches Mode::Naming { for_new: _, name } ==> all_nameable(name@),
{
    crate::files::a_name_never_becomes_a_path(text);
}

/// A name that is settled has nothing in it that makes a path of it, where the
/// name that was typed had not.
pub proof fn a_settled_name_stays_in_its_directory(name: Seq<char>)
    requires
        forall|i: int| 0 <= i < name.len() ==> nameable(#[trigger] name[i]),
    ensures
        forall|i: int| 0 <= i < trim(name).len() ==> nameable(#[trigger] trim(name)[i]),
{
    lemma_trim_start_keeps(name);
    lemma_trim_end_keeps(crate::text::trim_start(name));
}

proof fn lemma_trim_start_keeps(s: Seq<char>)
    requires
        forall|i: int| 0 <= i < s.len() ==> nameable(#[trigger] s[i]),
    ensures
        forall|i: int|
            0 <= i < crate::text::trim_start(s).len() ==> nameable(
                #[trigger] crate::text::trim_start(s)[i],
            ),
    decreases s.len(),
{
    if s.len() > 0 && crate::text::white(s[0]) {
        let rest = s.drop_first();
        assert forall|i: int| 0 <= i < rest.len() implies nameable(#[trigger] rest[i]) by {
            assert(rest[i] == s[i + 1]);
        }
        lemma_trim_start_keeps(rest);
        assert(crate::text::trim_start(s) == crate::text::trim_start(rest));
    } else {
        assert(crate::text::trim_start(s) == s);
    }
}

proof fn lemma_trim_end_keeps(s: Seq<char>)
    requires
        forall|i: int| 0 <= i < s.len() ==> nameable(#[trigger] s[i]),
    ensures
        forall|i: int|
            0 <= i < crate::text::trim_end(s).len() ==> nameable(
                #[trigger] crate::text::trim_end(s)[i],
            ),
    decreases s.len(),
{
    if s.len() > 0 && crate::text::white(s.last()) {
        let front = s.drop_last();
        assert forall|i: int| 0 <= i < front.len() implies nameable(#[trigger] front[i]) by {
            assert(front[i] == s[i]);
        }
        lemma_trim_end_keeps(front);
        assert(crate::text::trim_end(s) == crate::text::trim_end(front));
    } else {
        assert(crate::text::trim_end(s) == s);
    }
}

/// Each action has a deed of its own, and no action has another's.
pub proof fn each_action_has_its_own_deed(action: Action)
    ensures
        deed_of(action) == Deed::Newline <==> action is Newline || action is CommitTyped,
        deed_of(action) == Deed::Task <==> action is Change,
        deed_of(action) == Deed::Copy <==> action is Copy,
        deed_of(action) == Deed::Cut <==> action is Cut,
        deed_of(action) == Deed::Paste <==> action is Paste,
        deed_of(action) == Deed::Save <==> action is Save,
        deed_of(action) == Deed::Language <==> action is CycleLanguage,
        deed_of(action) == Deed::Focus <==> action is ToggleFocus,
        deed_of(action) == Deed::Find <==> action is Find,
        deed_of(action) == Deed::Replace <==> action is Replace,
        deed_of(action) == Deed::Files <==> action is Files,
        deed_of(action) == Deed::Config <==> action is Config,
        deed_of(action) == Deed::Outline <==> action is Outline,
        deed_of(action) == Deed::Naming <==> action is NewDocument,
        deed_of(action) == Deed::Help <==> action is Help,
        deed_of(action) == Deed::Refresh <==> action is Refresh,
        deed_of(action) == Deed::ResetSize <==> action is ResetSize,
        deed_of(action) == Deed::Margins <==> action is CycleMargins,
        deed_of(action) == Deed::Noticed <==> action is CapsLock,
        deed_of(action) == Deed::Nothing <==> action is Escape || action is ChangeAll || action is Quit,
        forall|larger: bool|
            #[trigger] deed_of(Action::Resize(larger)) == Deed::Resize(larger),
        forall|up: bool|
            #[trigger] deed_of(Action::Brightness(up)) == Deed::Brightness(up),
        forall|level: u8|
            #[trigger] deed_of(Action::Heading(level)) == Deed::Heading(level),
        forall|marker: &'static str|
            #[trigger] deed_of(Action::Emphasis(marker)) == Deed::Emphasise(marker),
        deed_of(action) matches Deed::Document(own) ==> own == action,
        action is Insert || action is Backspace || action is Left || action is SelectAll || action is Undo
            || action is Indent ==> deed_of(action) is Document,
{
}

/// The moves by lines are mirror images: what goes up has one that goes as far down, and
/// what extends the selection has one that does not.
pub proof fn the_moves_by_lines_are_mirror_images(up: bool, page: bool, extend: bool, action: Action)
    ensures
        deed_of(action) == (Deed::Vertical { up, page, extend }) <==> match (up, page, extend) {
            (true, false, false) => action is Up,
            (false, false, false) => action is Down,
            (true, false, true) => action is ExtendUp,
            (false, false, true) => action is ExtendDown,
            (true, true, false) => action is PageUp,
            (false, true, false) => action is PageDown,
            _ => false,
        },
{
}

/// Each cell of the strip does one thing, and the two steps and the two page turns go
/// opposite ways.
pub proof fn each_button_does_its_own(editor: Editor, button: Bar)
    ensures
        editor.push_of(button) == Pushed::Exit <==> button == Bar::Exit,
        editor.push_of(button) == Pushed::Focus(Field::Query) <==> button == Bar::Query,
        editor.push_of(button) == Pushed::Focus(Field::With) <==> button == Bar::With,
        editor.push_of(button) == Pushed::Nothing <==> button.reports(),
        editor.push_of(button) == Pushed::Replace <==> button == Bar::Replace,
        editor.push_of(button) == Pushed::ChangeOne <==> button == Bar::Change,
        editor.push_of(button) == Pushed::ChangeAll <==> button == Bar::All,
        editor.push_of(button) == (Pushed::Step { back: true }) <==> button == Bar::Previous,
        editor.push_of(button) == (Pushed::Step { back: false }) <==> button == Bar::Next,
        editor.push_of(button) == (Pushed::Page { back: true }) <==> button == Bar::PageBack,
        editor.push_of(button) == (Pushed::Page { back: false }) <==> button == Bar::PageOn,
        editor.push_of(button) == (Pushed::Naming { for_new: true }) <==> button == Bar::New,
        editor.push_of(button) == (Pushed::Naming { for_new: false }) <==> button == Bar::Rename,
        editor.push_of(button) == Pushed::ClosedFind <==> button == Bar::Done && editor.find is Some,
        editor.push_of(button) == Pushed::Left <==> button == Bar::Cancel || (button == Bar::Done
            && editor.find is None),
{
}

/// The keys of a name: it is settled by Enter, given up by Esc and by the shortcut that
/// asked for it, and takes no character that no file name can have.
pub proof fn the_keys_of_a_name(action: Action, for_new: bool)
    ensures
        NameKey::of_action(action, for_new) == NameKey::Settle <==> action is Newline
            || action is CommitTyped,
        NameKey::of_action(action, for_new) == NameKey::Cancel <==> action is Escape || (for_new
            && action is NewDocument),
        NameKey::of_action(action, for_new) == NameKey::Back <==> action is Backspace,
        NameKey::of_action(action, for_new) == NameKey::Language <==> action is CycleLanguage,
        NameKey::of_action(action, for_new) matches NameKey::Type(c) ==> action == Action::Insert(c),
        NameKey::of_action(Action::Insert('/'), for_new) == NameKey::Nothing,
        NameKey::of_action(Action::Insert('\\'), for_new) == NameKey::Nothing,
        NameKey::of_action(Action::Insert('\0'), for_new) == NameKey::Nothing,
        forall|c: char|
            c != '/' && c != '\\' && c != '\0' ==> #[trigger] NameKey::of_action(
                Action::Insert(c),
                for_new,
            ) == NameKey::Type(c),
{
}

/// A character typed into a name is at its end, and the next Backspace takes it off.
pub proof fn a_character_of_a_name_is_taken_off_again(
    before: Editor,
    typed: Editor,
    back: Editor,
    r: Named,
    s: Named,
    for_new: bool,
    name: Seq<char>,
    c: char,
)
    requires
        nameable(c),
        name_key(before, typed, r, for_new, name, Action::Insert(c)),
        name_key(typed, back, s, for_new, name.push(c), Action::Backspace),
    ensures
        r is Typing && s is Typing,
        typed.mode matches Mode::Naming { for_new: f, name: n } && f == for_new && n@.len() == name.len()
            + 1 && n@.last() == c,
        back.mode matches Mode::Naming { for_new: f, name: n } && f == for_new && n@ == name,
{
    assert(name.push(c).drop_last() =~= name);
}

/// A name that was settled leaves the page to be written on. It opens or renames a document
/// of the documents' directory whose file is named by it; an empty one opens a draft, and
/// renames nothing.
pub proof fn a_settled_name_names_the_file(
    before: Editor,
    after: Editor,
    r: Named,
    for_new: bool,
    name: Seq<char>,
)
    requires
        name_key(before, after, r, for_new, name, Action::Newline),
    ensures
        after.mode is Writing,
        trim(name).len() == 0 && for_new ==> r is Draft,
        trim(name).len() == 0 && !for_new ==> r is Cancelled,
        trim(name).len() > 0 && for_new ==> r is Open,
        trim(name).len() > 0 && !for_new ==> r is Rename,
        r matches Named::Open(path) ==> path@.skip(15) == trim(name) + seq!['.', 'm', 'd'],
        r matches Named::Rename(path) ==> path@.skip(15) == trim(name) + seq!['.', 'm', 'd'],
        r matches Named::Open(path) ==> path@.take(15) == "/mnt/us/karyll/"@,
        r matches Named::Rename(path) ==> path@.take(15) == "/mnt/us/karyll/"@,
{
    reveal_strlit("/mnt/us/karyll/");
    reveal_strlit(".md");
    let path = path_named(trim(name));
    assert(path.skip(15) =~= trim(name) + seq!['.', 'm', 'd']);
    assert(path.take(15) =~= "/mnt/us/karyll/"@);
}

/// Text goes into the name while one is typed, then into the field of the find bar that has
/// the keys, then to the page; and no text goes nowhere.
pub proof fn where_text_is_put(editor: Editor, text: Seq<char>)
    requires
        text.len() > 0,
    ensures
        editor.put_of(seq![]) == Put::Nothing,
        editor.put_of(text) == Put::Name <==> editor.mode is Naming,
        editor.put_of(text) == Put::Query <==> !(editor.mode is Naming) && editor.find is Some
            && editor.find->0.field == Field::Query,
        editor.put_of(text) == Put::With <==> !(editor.mode is Naming) && editor.find is Some
            && editor.find->0.field == Field::With,
        editor.put_of(text) == Put::Page <==> !(editor.mode is Naming) && editor.find is None,
{
}

/// Two texts received one after the other are received as the one that they make, in the
/// find bar.
pub proof fn texts_are_received_in_order(
    before: Editor,
    between: Editor,
    after: Editor,
    first: Seq<char>,
    second: Seq<char>,
)
    requires
        !(before.mode is Naming),
        before.find is Some,
        before.receives(between, first),
        between.receives(after, second),
    ensures
        after.find is Some,
        (after.find->0).edited() == (before.find->0).edited() + (first + second),
        before.find->0.field == Field::Query ==> (after.find->0).with@ == (before.find->0).with@,
        before.find->0.field == Field::With ==> (after.find->0).query@ == (before.find->0).query@,
{
    let held = (before.find->0).edited();
    assert(held + first + second =~= held + (first + second));
    if first.len() == 0 {
        assert(held + (first + second) =~= held + second);
    }
    if second.len() == 0 {
        assert(held + (first + second) =~= held + first);
    }
    assert(held + Seq::<char>::empty() =~= held);
}

/// Texts put end to end keep their order.
pub proof fn texts_end_to_end_keep_their_order(a: Seq<Seq<char>>, b: Seq<Seq<char>>, one: Seq<char>)
    ensures
        end_to_end(a + b) == end_to_end(a) + end_to_end(b),
        end_to_end(seq![one]) == one,
        end_to_end(seq![]) == Seq::<char>::empty(),
    decreases b.len(),
{
    assert(seq![one].drop_last() =~= Seq::<Seq<char>>::empty());
    assert(end_to_end(Seq::<Seq<char>>::empty()) =~= Seq::<char>::empty());
    assert(end_to_end(seq![one]) =~= Seq::<char>::empty() + one);
    assert(Seq::<char>::empty() + one =~= one);
    if b.len() == 0 {
        assert(a + b =~= a);
        assert(end_to_end(a) + end_to_end(b) =~= end_to_end(a));
    } else {
        texts_end_to_end_keep_their_order(a, b.drop_last(), one);
        assert((a + b).drop_last() =~= a + b.drop_last());
        assert((a + b).last() == b.last());
        assert(end_to_end(a + b) =~= end_to_end(a) + end_to_end(b));
    }
}

/// A release does nothing but let go of what was held, and a key that is held with others is
/// bound to nothing by itself.
pub proof fn a_release_is_ignored(editor: Editor, event: KeyEvent)
    ensures
        !event.pressed ==> editor.pressing(event).0 == Pressed::Ignored,
        !event.pressed ==> editor.pressing(event).1.notice == editor.notice,
        event.code == 42 || event.code == 54 || event.code == 29 || event.code == 97 || event.code == 56
            || event.code == 100 || event.code == 125 || event.code == 126 ==> editor.pressing(event).0
            == Pressed::Ignored,
        editor.pressing(event).1.mode == editor.mode,
        editor.pressing(event).1.language == editor.language,
        editor.pressing(event).1.find == editor.find,
{
}

/// Caps Lock latches with every press and says which case it gives; its releases change
/// nothing.
pub proof fn caps_lock_latches(editor: Editor, down: KeyEvent, up: KeyEvent)
    requires
        down.code == 58 && down.pressed,
        up.code == 58 && !up.pressed,
    ensures
        editor.pressing(down).0 == Pressed::Bound(Action::CapsLock(!editor.mods.caps)),
        editor.pressing(down).1.mods.caps == !editor.mods.caps,
        editor.pressing(up).1.mods == editor.mods,
        editor.pressing(down).1.pressing(down).1.mods == editor.mods,
{
}

/// A notice goes with the next key that is bound to anything, unless that raises one of its
/// own.
pub proof fn a_notice_goes_with_the_next_key(editor: Editor, event: KeyEvent)
    ensures
        match editor.pressing(event).0 {
            Pressed::Bound(action) => editor.pressing(event).1.notice is None || action is CycleLanguage
                || action is CapsLock,
            _ => editor.pressing(event).1.notice == editor.notice,
        },
{
}

/// Setting the page back around a sentence twice is the page as it was.
pub proof fn the_focus_of_the_page_is_turned_on_and_off(before: Editor, on: Editor, off: Editor)
    requires
        changed(before, on, Action::ToggleFocus),
        changed(on, off, Action::ToggleFocus),
    ensures
        on.focus == !before.focus,
        off.focus == before.focus,
        on.stale && off.stale,
        on.mode == before.mode && on.language == before.language && on.find == before.find,
{
}

/// A panel opens on its first page with the keyboard on no line of it, and leaves the
/// document, the input source and the search as they are.
pub proof fn a_panel_opens_at_its_beginning(before: Editor, after: Editor, action: Action)
    requires
        changed(before, after, action),
        action is Help || action is Config,
    ensures
        action is Help <==> after.mode is Help,
        action is Config <==> after.mode is Config,
        after.paging.page == 0,
        after.paging.focus is None,
        after.path == before.path,
        after.language == before.language,
        after.find is Some == before.find is Some,
        after.find is Some ==> after.find->0.query == before.find->0.query && after.find->0.with
            == before.find->0.with,
{
}

/// Leaving a panel keeps the page of the list that showed, the document and the search.
pub proof fn leaving_keeps_the_rest(editor: Editor)
    ensures
        editor.left().find == editor.find,
        editor.left().path == editor.path,
        editor.left().language == editor.language,
        editor.left().enabled == editor.enabled,
        editor.left().paging.page == editor.paging.page,
        editor.left().paging.focus is None,
        editor.left().stale == editor.stale,
        editor.left().chrome_hidden == editor.chrome_hidden,
{
}

/// Closing the find bar is drawn, and changes nothing else; with none open nothing is.
pub proof fn closing_the_find_bar_is_drawn(editor: Editor)
    ensures
        editor.unfound().find is None,
        editor.find is Some ==> editor.unfound().stale,
        editor.find is None ==> editor.unfound() == editor,
        editor.unfound().mode == editor.mode,
        editor.unfound().paging == editor.paging,
        editor.unfound().unfound() == editor.unfound(),
{
}

/// What the last of several wishes says holds of the strip, and only a strip that comes or
/// goes is drawn.
pub proof fn the_strip_is_drawn_where_it_comes_or_goes(editor: Editor, hidden: bool, again: bool)
    ensures
        editor.mode is Writing ==> editor.with_chrome(hidden).chrome_hidden == hidden,
        !(editor.mode is Writing) ==> editor.with_chrome(hidden) == editor,
        editor.mode is Writing ==> editor.with_chrome(editor.chrome_hidden) == editor,
        editor.with_chrome(hidden).with_chrome(hidden) == editor.with_chrome(hidden),
        editor.mode is Writing && editor.find is None && editor.keyboard_present && hidden
            != editor.chrome_hidden ==> editor.with_chrome(hidden).stale,
        editor.find is Some || !editor.keyboard_present ==> editor.with_chrome(hidden).stale
            == editor.stale,
{
}

/// A document is removed by the second of two takes of its own Delete in a row, never by the
/// first, and a take of another document's in between arms that one instead.
pub proof fn a_document_is_removed_by_the_second_take(
    before: Editor,
    armed: Editor,
    after: Editor,
    first: Delete,
    second: Delete,
    files: Vec<Listing>,
    row: usize,
    other: usize,
)
    requires
        before.mode == Mode::Files(files),
        row < files@.len(),
        other < files@.len(),
        before.arming is None,
        before.delete_taken(armed, first, row),
        armed.delete_taken(after, second, other),
    ensures
        first is Armed,
        armed.mode == before.mode && armed.path == before.path,
        row == other ==> (second matches Delete::Remove(path) && path@ == files@[row as int].path@),
        row == other ==> after.arming is None,
        files@[row as int].path@ != files@[other as int].path@ ==> second is Armed && after.arming is Some
            && after.arming->0@ == files@[other as int].path@,
        second matches Delete::Remove(path) ==> path@ == files@[row as int].path@,
{
}

/// A cell of the strip opens what the shortcut of the same name opens, in the same way, and
/// those that leave lead back to the page.
pub proof fn a_cell_opens_what_its_shortcut_opens(editor: Editor)
    requires
        editor.find is None,
    ensures
        changed(editor, editor.after_push(editor.push_of(Bar::Help)), Action::Help),
        changed(editor, editor.after_push(editor.push_of(Bar::Config)), Action::Config),
        editor.after_push(editor.push_of(Bar::Done)) == editor.left(),
        editor.after_push(editor.push_of(Bar::Cancel)) == editor.left(),
        editor.after_push(editor.push_of(Bar::Previous)) == editor,
        editor.after_push(editor.push_of(Bar::Exit)) == editor,
{
}

/// Done closes the find bar before it leaves anything else.
pub proof fn done_closes_the_find_bar_first(editor: Editor)
    requires
        editor.find is Some,
    ensures
        editor.after_push(editor.push_of(Bar::Done)).find is None,
        editor.after_push(editor.push_of(Bar::Done)).mode == editor.mode,
{
}

/// Taking a line opens the document of that line, or goes to where that heading stands, and
/// below the last line there is nothing to take.
pub proof fn a_line_opens_its_own_document(editor: Editor, r: Taken, row: usize)
    requires
        editor.row_taken(r, row),
    ensures
        r matches Taken::Open(path) ==> editor.mode is Files && row < editor.mode->Files_0@.len()
            && path@ == editor.mode->Files_0@[row as int].path@,
        r matches Taken::Jump(at) ==> editor.mode is Outline && row < editor.mode->Outline_0@.len() && at
            == editor.mode->Outline_0@[row as int].at,
        r is Nothing ==> !(editor.mode is Files && row < editor.mode->Files_0@.len()) && !(
        editor.mode is Outline && row < editor.mode->Outline_0@.len()),
{
}

} // verus!
