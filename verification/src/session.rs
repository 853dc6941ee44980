//! The writing session: which surface a batch of keys goes to, what each key does
//! there, and what the devices that come and go mean.

use vstd::prelude::*;

use crate::composition::{composed_by, key_engine_step, key_repages, key_step, pages_in_order, sink_of, Composed, Composition, Sink};
use crate::editor::{applied, end_to_end, name_key, Deed, Editor, Named, Pressed, Put};
use crate::evdev::KeyEvent;
use crate::find::Step;
use crate::ime::Ime;
use crate::keymap::Action;
use crate::orientation::Orientation;
use crate::panel::Mode;
use crate::text::texts;

verus! {

/// How often the loop wakes when nothing happens, in milliseconds.
pub const TICK_MS: u64 = 200;

/// How often the window manager is asked which way the screen is, in
/// milliseconds.
pub const ORIENTATION_POLL: u64 = 2000;

/// Where a batch of keys goes.
#[derive(Debug, Clone, Copy, PartialEq, Eq, Structural)]
pub enum Route {
    Naming,
    Panel,
    Find,
    Page,
}

/// A name outranks a panel, and a panel the find bar, which takes the keys of the
/// page under it.
pub open spec fn route_of(mode: Mode, finding: bool) -> Route {
    match mode {
        Mode::Naming { .. } => Route::Naming,
        Mode::Writing => if finding {
            Route::Find
        } else {
            Route::Page
        },
        _ => Route::Panel,
    }
}

pub fn route(mode: &Mode, finding: bool) -> (r: Route)
    ensures
        r == route_of(*mode, finding),
{
    match mode {
        Mode::Naming { for_new: _, name: _ } => Route::Naming,
        Mode::Writing => if finding {
            Route::Find
        } else {
            Route::Page
        },
        _ => Route::Panel,
    }
}

/// A batch goes to the surface that finished text goes to: a name takes both, the
/// find bar takes both, and the page takes both where nothing is over it.
pub proof fn keys_and_text_go_to_one_surface(mode: Mode, finding: bool)
    ensures
        route_of(mode, finding) == Route::Naming <==> sink_of(mode is Naming, finding) == Sink::Name,
        route_of(mode, finding) == Route::Find ==> sink_of(mode is Naming, finding) == Sink::Find,
        route_of(mode, finding) == Route::Page ==> sink_of(mode is Naming, finding) == Sink::Page,
{
}

/// What a key does on a panel.
#[derive(Debug, Clone, Copy, PartialEq, Eq)]
pub enum PanelKey {
    /// End the session.
    Quit,
    /// Leave the panel; the rest of the batch is not for it.
    Leave,
    Move { down: bool },
    Chip { right: bool },
    Page { back: bool },
    /// Take what the keyboard is on.
    Take,
    Delete,
    /// Another surface, or a clean screen.
    Apply(Action),
    Nothing,
}

pub open spec fn panel_key_of(action: Action) -> PanelKey {
    match action {
        Action::Quit => PanelKey::Quit,
        Action::Escape => PanelKey::Leave,
        Action::Up => PanelKey::Move { down: false },
        Action::Down => PanelKey::Move { down: true },
        Action::Left => PanelKey::Chip { right: false },
        Action::Right => PanelKey::Chip { right: true },
        Action::PageUp => PanelKey::Page { back: true },
        Action::PageDown => PanelKey::Page { back: false },
        Action::Newline => PanelKey::Take,
        Action::Backspace => PanelKey::Delete,
        Action::Files => PanelKey::Apply(action),
        Action::Config => PanelKey::Apply(action),
        Action::Help => PanelKey::Apply(action),
        Action::Outline => PanelKey::Apply(action),
        Action::NewDocument => PanelKey::Apply(action),
        Action::Refresh => PanelKey::Apply(action),
        _ => PanelKey::Nothing,
    }
}

pub fn panel_key(action: Action) -> (r: PanelKey)
    ensures
        r == panel_key_of(action),
{
    match action {
        Action::Quit => PanelKey::Quit,
        Action::Escape => PanelKey::Leave,
        Action::Up => PanelKey::Move { down: false },
        Action::Down => PanelKey::Move { down: true },
        Action::Left => PanelKey::Chip { right: false },
        Action::Right => PanelKey::Chip { right: true },
        Action::PageUp => PanelKey::Page { back: true },
        Action::PageDown => PanelKey::Page { back: false },
        Action::Newline => PanelKey::Take,
        Action::Backspace => PanelKey::Delete,
        Action::Files => PanelKey::Apply(action),
        Action::Config => PanelKey::Apply(action),
        Action::Help => PanelKey::Apply(action),
        Action::Outline => PanelKey::Apply(action),
        Action::NewDocument => PanelKey::Apply(action),
        Action::Refresh => PanelKey::Apply(action),
        _ => PanelKey::Nothing,
    }
}

/// No key on a panel reaches the document.
pub proof fn a_panel_keeps_keys_from_the_document(action: Action)
    ensures
        action is Insert ==> panel_key_of(action) == PanelKey::Nothing,
        panel_key_of(action) matches PanelKey::Apply(a) ==> a == action && !(
        crate::editor::deed_of(a) is Document),
{
}

/// A batch of keys: the surface it goes to, settled before its first key, and
/// whether it has left something to draw.
#[derive(Debug, Clone, Copy, PartialEq, Eq, Structural)]
pub struct Batch {
    pub route: Route,
    pub dirty: bool,
}

/// What becomes of a key once the input method had first refusal of it.
#[derive(Debug, Clone, Copy, PartialEq, Eq, Structural)]
pub enum Next {
    /// It is taken: go on to the next key.
    Skip,
    /// The surface is to have it.
    Hand,
}

impl Batch {
    pub fn new(route: Route) -> (r: Batch)
        ensures
            r == (Batch { route, dirty: false }),
    {
        Batch { route, dirty: false }
    }

    /// A key of a name or a query was offered to the input method. One that was
    /// taken goes no further; one that ended a word leaves that to draw.
    pub fn offered(&mut self, composed: Composed) -> (r: Next)
        ensures
            r == (if composed == Composed::Took {
                Next::Skip
            } else {
                Next::Hand
            }),
            *final(self) == (Batch {
                dirty: old(self).dirty || composed != Composed::Passed,
                ..*old(self)
            }),
    {
        match composed {
            Composed::Took => {
                self.dirty = true;
                Next::Skip
            },
            Composed::Finished => {
                self.dirty = true;
                Next::Hand
            },
            Composed::Passed => Next::Hand,
        }
    }

    /// The name or the query took a key. Once it is settled it has drawn what came
    /// of it, and the rest of the batch is not for it: `true` ends the batch.
    pub fn handed(&mut self, settled: bool) -> (r: bool)
        ensures
            r == settled,
            *final(self) == (Batch { dirty: old(self).dirty && !settled, ..*old(self) }),
    {
        if settled {
            self.dirty = false;
        }
        settled
    }

    /// A key of the page was offered to the input method: whatever became of it,
    /// the page is to be drawn.
    pub fn on_page(&mut self, composed: Composed) -> (r: Next)
        ensures
            r == (if composed == Composed::Took {
                Next::Skip
            } else {
                Next::Hand
            }),
            *final(self) == (Batch { dirty: true, ..*old(self) }),
    {
        self.dirty = true;
        match composed {
            Composed::Took => Next::Skip,
            _ => Next::Hand,
        }
    }
}

/// What became of a key that was offered round.
#[derive(Debug, Clone, Copy, PartialEq, Eq)]
pub enum Offer {
    /// A release, or a modifier.
    Ignored,
    /// A key bound to nothing.
    Unbound,
    /// End the session.
    Quit,
    /// The input method has it.
    Took,
    /// The surface is to have it.
    Hand(Action),
}

/// A key that was offered round: what became of it, the texts it finished, and
/// where they went.
#[derive(Debug)]
pub struct Press {
    pub offer: Offer,
    pub texts: Vec<String>,
    pub put: Put,
}

/// The editor that an input method is offered a key in. A key on the page puts the
/// strip away.
pub open spec fn offered_in(editor: Editor, route: Route) -> Editor {
    if route == Route::Page {
        editor.with_chrome(true)
    } else {
        editor
    }
}

/// Whether an action is one that no input method is offered: any on a panel, and on
/// the page the one that ends the session.
pub open spec fn unoffered(route: Route, action: Action) -> bool {
    route == Route::Panel || (route == Route::Page && action is Quit)
}

/// The batch once a key of it was offered to the input method. The page is to be
/// drawn whatever became of it; a name or a query only where the key went into a
/// word.
pub open spec fn drawn_after(batch: Batch, composed: Composed) -> Batch {
    Batch {
        dirty: batch.dirty || batch.route == Route::Page || composed != Composed::Passed,
        ..batch
    }
}

/// Take a key event as far as the input method: what is held, the action it means,
/// and the word that goes on or ends with it. Text that it finishes goes to the
/// surface, ahead of the key itself.
pub fn offer<E: Ime, P: Fn(&Vec<String>) -> Vec<usize>>(
    editor: &mut Editor,
    word: &mut Composition,
    engine: &mut Option<E>,
    batch: &mut Batch,
    event: &KeyEvent,
    pager: &P,
) -> (r: Press)
    requires
        pages_in_order(*pager),
        old(word).wf(),
    ensures
        final(word).wf(),
        ({
            let (pressed, held) = old(editor).pressing(*event);
            let route = old(batch).route;
            let finished = end_to_end(texts(r.texts@));
            match pressed {
                Pressed::Bound(action) => if unoffered(route, action) {
                    &&& r.offer == (if action is Quit && route == Route::Page {
                        Offer::Quit
                    } else {
                        Offer::Hand(action)
                    })
                    &&& finished.len() == 0
                    &&& r.put == Put::Nothing
                    &&& *final(editor) == held
                    &&& *final(word) == *old(word)
                    &&& *final(engine) == *old(engine)
                    &&& *final(batch) == *old(batch)
                } else {
                    let seen = offered_in(held, route);
                    let composed = composed_by(*old(word), action, seen.language, seen.cjk);
                    &&& r.offer == (if composed == Composed::Took {
                        Offer::Took
                    } else {
                        Offer::Hand(action)
                    })
                    &&& key_step(
                        *old(word),
                        *final(word),
                        seq![],
                        texts(r.texts@),
                        action,
                        seen.language,
                        seen.cjk,
                        (*old(engine)) is None,
                    )
                    &&& key_engine_step(
                        *old(word),
                        *old(engine),
                        *final(word),
                        *final(engine),
                        seq![],
                        texts(r.texts@),
                        action,
                        seen.language,
                        seen.cjk,
                        *pager,
                    )
                    &&& key_repages(
                        *old(word),
                        action,
                        seen.language,
                        seen.cjk,
                        (*old(engine)) is None,
                    ) ==> pager.ensures((&final(word).candidates,), final(word).pages)
                    &&& r.put == seen.put_of(finished)
                    &&& seen.receives(*final(editor), finished)
                    &&& *final(batch) == drawn_after(*old(batch), composed)
                },
                _ => {
                    &&& r.offer == (if pressed is Ignored {
                        Offer::Ignored
                    } else {
                        Offer::Unbound
                    })
                    &&& finished.len() == 0
                    &&& r.put == Put::Nothing
                    &&& *final(editor) == held
                    &&& *final(word) == *old(word)
                    &&& *final(engine) == *old(engine)
                    &&& *final(batch) == *old(batch)
                },
            }
        }),
{
    let mut list: Vec<String> = Vec::new();
    assert(texts(list@) =~= seq![]);
    let action = match editor.pressed_action(event) {
        Pressed::Ignored => {
            return Press { offer: Offer::Ignored, texts: list, put: Put::Nothing };
        },
        Pressed::Unbound => {
            return Press { offer: Offer::Unbound, texts: list, put: Put::Nothing };
        },
        Pressed::Bound(action) => action,
    };
    match batch.route {
        Route::Panel => {
            return Press { offer: Offer::Hand(action), texts: list, put: Put::Nothing };
        },
        Route::Page => {
            if matches!(action, Action::Quit) {
                return Press { offer: Offer::Quit, texts: list, put: Put::Nothing };
            }
            editor.set_chrome_hidden(true);
        },
        _ => {},
    }
    let composed = word.key(engine, &action, editor.language, editor.cjk, pager, &mut list);
    let put = editor.insert_all(&list);
    let next = match batch.route {
        Route::Page => batch.on_page(composed),
        _ => batch.offered(composed),
    };
    let offer = match next {
        Next::Skip => Offer::Took,
        Next::Hand => Offer::Hand(action),
    };
    Press { offer, texts: list, put }
}

/// What a surface made of a key that it was handed.
#[derive(Debug)]
pub enum Done {
    /// A name took it.
    Name(Named),
    /// A panel took it.
    Panel(PanelKey),
    /// The find bar took it. It may have lost its arm to it.
    Find { disarmed: bool, step: Step },
    /// It is an action, and this is left of it.
    Deed(Deed),
}

/// Whether a name is settled: given up, or taken for a document's.
pub open spec fn settled(named: Named) -> bool {
    !(named is Typing) && !(named is Language)
}

/// What a surface makes of a key, of the editor and of the batch. `over` is that
/// the rest of the batch is not for it.
pub open spec fn handed_to(
    before: Editor,
    after: Editor,
    batch: Batch,
    rest: Batch,
    action: Action,
    done: Done,
    over: bool,
) -> bool {
    match batch.route {
        Route::Naming => match done {
            Done::Name(named) => {
                &&& match before.mode {
                    Mode::Naming { for_new, name } => name_key(
                        before,
                        after,
                        named,
                        for_new,
                        name@,
                        action,
                    ),
                    _ => named is Typing && after == before,
                }
                &&& over == settled(named)
                &&& rest == (Batch { dirty: batch.dirty && !over, ..batch })
            },
            _ => false,
        },
        Route::Panel => {
            &&& rest == batch
            &&& over == (panel_key_of(action) == PanelKey::Leave)
            &&& match panel_key_of(action) {
                PanelKey::Apply(a) => match done {
                    Done::Deed(deed) => applied(before, after, deed, a),
                    _ => false,
                },
                PanelKey::Leave => done == Done::Panel(PanelKey::Leave) && after == before.left(),
                key => done == Done::Panel(key) && after == before,
            }
        },
        Route::Find => match done {
            Done::Find { disarmed, step } => {
                &&& before.finding() ==> before.queried(after, (disarmed, step), action)
                &&& !before.finding() ==> !disarmed && step == Step::Nothing && after == before
                &&& over == (step == Step::Close)
                &&& rest == (Batch { dirty: batch.dirty && !over, ..batch })
            },
            _ => false,
        },
        Route::Page => match done {
            Done::Deed(deed) => applied(before, after, deed, action) && !over && rest == batch,
            _ => false,
        },
    }
}

/// Hand a key to the surface that the batch goes to. `true` where the rest of the
/// batch is not for it.
pub fn hand(editor: &mut Editor, batch: &mut Batch, action: Action) -> (r: (Done, bool))
    ensures
        handed_to(
            *old(editor),
            *final(editor),
            *old(batch),
            *final(batch),
            action,
            r.0,
            r.1,
        ),
{
    match batch.route {
        Route::Naming => {
            let named = editor.typed_name(&action);
            let end = match &named {
                Named::Typing => false,
                Named::Language => false,
                _ => true,
            };
            let over = batch.handed(end);
            (Done::Name(named), over)
        },
        Route::Panel => match panel_key(action) {
            PanelKey::Apply(a) => (Done::Deed(editor.apply(a)), false),
            PanelKey::Leave => {
                editor.leave_panel();
                (Done::Panel(PanelKey::Leave), true)
            },
            key => (Done::Panel(key), false),
        },
        Route::Find => {
            let (disarmed, step) = editor.typed_query(&action);
            let over = batch.handed(matches!(step, Step::Close));
            (Done::Find { disarmed, step }, over)
        },
        Route::Page => (Done::Deed(editor.apply(action)), false),
    }
}

/// A name or a query keeps its keys from the document: neither the text that a key
/// finishes nor the key itself is left for it.
pub proof fn a_field_keeps_keys_from_the_document(
    before: Editor,
    after: Editor,
    batch: Batch,
    rest: Batch,
    action: Action,
    done: Done,
    over: bool,
    text: Seq<char>,
)
    requires
        batch.route == route_of(before.mode, before.finding()),
        batch.route == Route::Naming || batch.route == Route::Find,
        handed_to(before, after, batch, rest, action, done, over),
    ensures
        !(done is Deed),
        before.put_of(text) != Put::Page,
{
}

/// Position codes that name no way up, each reported once.
pub struct AccelWatch {
    pub unknown: Vec<i32>,
}

impl AccelWatch {
    pub fn new() -> (r: AccelWatch)
        ensures
            r.unknown@.len() == 0,
    {
        AccelWatch { unknown: Vec::new() }
    }

    /// Note a code. `true` where it names no way up and was not noted before.
    pub fn note(&mut self, tilt: i32) -> (r: bool)
        ensures
            r == (Orientation::of_tilt(tilt) is None && !old(self).unknown@.contains(tilt)),
            final(self).unknown@ == (if r {
                old(self).unknown@.push(tilt)
            } else {
                old(self).unknown@
            }),
    {
        if Orientation::from_tilt(tilt).is_some() {
            return false;
        }
        let mut i: usize = 0;
        while i < self.unknown.len()
            invariant
                i <= self.unknown.len(),
                self.unknown@ == old(self).unknown@,
                forall|k: int| 0 <= k < i ==> self.unknown@[k] != tilt,
            decreases self.unknown.len() - i,
        {
            if self.unknown[i] == tilt {
                assert(self.unknown@.contains(tilt));
                return false;
            }
            i = i + 1;
        }
        self.unknown.push(tilt);
        true
    }
}

/// A code that was reported is not reported again.
pub proof fn a_code_is_reported_once(before: Seq<i32>, tilt: i32)
    ensures
        before.push(tilt).contains(tilt),
{
    assert(before.push(tilt)[before.len() as int] == tilt);
}

/// The way to turn the page to, where the device is held another.
pub open spec fn followed(tilt: i32, now: Orientation) -> Option<Orientation> {
    match Orientation::of_tilt(tilt) {
        Some(want) => if want != now {
            Some(want)
        } else {
            None
        },
        None => None,
    }
}

/// Which way the page is to be turned for a position code: nothing where the code
/// names no way up, or the way it is.
pub fn follow_device(tilt: i32, now: Orientation) -> (r: Option<Orientation>)
    ensures
        r == followed(tilt, now),
{
    match Orientation::from_tilt(tilt) {
        Some(want) => if want != now {
            Some(want)
        } else {
            None
        },
        None => None,
    }
}

/// Which way the page is drawn and which way contacts come in, and when the window
/// manager was last asked.
#[derive(Debug, Clone, Copy, PartialEq, Eq, Structural)]
pub struct Turning {
    pub window: Orientation,
    pub touch: Orientation,
    /// When it was asked, in milliseconds.
    pub checked: u64,
    /// The device has a sensor, and turns the page by itself.
    pub turns_itself: bool,
}

impl Turning {
    /// Whether the page is to be turned. Then contacts turn with it at once.
    pub fn turn_to(&mut self, want: Orientation, now: u64) -> (r: bool)
        ensures
            r == (want != old(self).window),
            *final(self) == (if r {
                Turning { window: want, touch: want, checked: now, ..*old(self) }
            } else {
                *old(self)
            }),
    {
        if want == self.window {
            return false;
        }
        self.window = want;
        self.touch = want;
        self.checked = now;
        true
    }

    /// Whether a turn is written down: only where there is no sensor to say it the
    /// next time.
    pub fn remembers(&self) -> (r: bool)
        ensures
            r == !self.turns_itself,
    {
        !self.turns_itself
    }

    /// Whether the window manager is to be asked, which is noted.
    pub fn due(&mut self, now: u64) -> (r: bool)
        ensures
            r == (now - old(self).checked >= ORIENTATION_POLL),
            r <==> now >= old(self).checked + 2 * 1000,
            *final(self) == (Turning {
                checked: if r {
                    now
                } else {
                    old(self).checked
                },
                ..*old(self)
            }),
    {
        if now < self.checked || !orientation_due(now - self.checked) {
            return false;
        }
        self.checked = now;
        true
    }

    /// The window manager said which way the screen is: contacts follow it, and the
    /// page does not. `true` where that is news.
    pub fn moved(&mut self, way: Orientation) -> (r: bool)
        ensures
            r == (way != old(self).touch),
            *final(self) == (Turning { touch: way, ..*old(self) }),
    {
        if way == self.touch {
            return false;
        }
        self.touch = way;
        true
    }
}

/// Where each device stands among what is waited for: after the window, in this
/// order, where it is there.
#[derive(Debug, Clone, Copy, PartialEq, Eq, Structural)]
pub struct Slots {
    pub keyboard: Option<usize>,
    pub touch: Option<usize>,
    pub pen: Option<usize>,
    pub accel: Option<usize>,
}

pub open spec fn one(present: bool) -> usize {
    if present {
        1
    } else {
        0
    }
}

/// A place, where there is something to put there.
pub open spec fn placed(present: bool, at: int) -> Option<usize> {
    if present {
        Some(at as usize)
    } else {
        None
    }
}

impl Slots {
    pub fn of(keyboard: bool, touch: bool, pen: bool, accel: bool) -> (r: Slots)
        ensures
            r.keyboard == placed(keyboard, 1),
            r.touch == placed(touch, 1 + one(keyboard)),
            r.pen == placed(pen, 1 + one(keyboard) + one(touch)),
            r.accel == placed(accel, 1 + one(keyboard) + one(touch) + one(pen)),
    {
        let mut next: usize = 1;
        let keyboard = if keyboard {
            next = next + 1;
            Some(next - 1)
        } else {
            None
        };
        let touch = if touch {
            next = next + 1;
            Some(next - 1)
        } else {
            None
        };
        let pen = if pen {
            next = next + 1;
            Some(next - 1)
        } else {
            None
        };
        let accel = if accel {
            Some(next)
        } else {
            None
        };
        Slots { keyboard, touch, pen, accel }
    }
}

/// Whether a device has something to read.
pub fn is_ready(ready: &Vec<bool>, slot: Option<usize>) -> (r: bool)
    ensures
        r == (slot is Some && slot->0 < ready@.len() && ready@[slot->0 as int]),
{
    match slot {
        Some(at) => at < ready.len() && ready[at],
        None => false,
    }
}

/// Whether the window manager is to be asked again which way the screen is.
pub fn orientation_due(elapsed: u64) -> (r: bool)
    ensures
        r == (elapsed >= ORIENTATION_POLL),
{
    elapsed >= ORIENTATION_POLL
}

/// Whether to look for a keyboard: only while there is none, and once a tick.
pub fn look_for_keyboard(present: bool, elapsed: u64) -> (r: bool)
    ensures
        r == (!present && elapsed >= TICK_MS),
        r <==> !present && elapsed >= 200,
{
    !present && elapsed >= TICK_MS
}

/// Whether contacts are acted on: only while the editor is what is under the
/// finger.
pub fn takes_contacts(buried: bool, contacts: usize) -> (r: bool)
    ensures
        r == (!buried && contacts > 0),
{
    !buried && contacts > 0
}

/// Whether the pen counts as input: only where it touched. One that hovers would
/// keep the device awake.
pub fn pen_is_input(contacts: usize) -> (r: bool)
    ensures
        r == (contacts > 0),
{
    contacts > 0
}

/// The strip as it was last drawn: what the cells said and the status beside
/// them.
pub struct Drawn {
    pub cells: Vec<String>,
    pub status: String,
}

impl Drawn {
    /// Whether the strip is to be drawn again: something covered it, or it says
    /// something else.
    pub fn stale(&self, fresh: bool, cells: &Vec<String>, status: &str) -> (r: bool)
        ensures
            r == (fresh || crate::text::texts(cells@) != crate::text::texts(self.cells@) || status@
                != self.status@),
    {
        if fresh || cells.len() != self.cells.len() {
            assert(!fresh ==> crate::text::texts(cells@).len() != crate::text::texts(
                self.cells@,
            ).len());
            return true;
        }
        let mut i: usize = 0;
        while i < cells.len()
            invariant
                i <= cells.len(),
                cells.len() == self.cells.len(),
                forall|k: int| 0 <= k < i ==> (#[trigger] cells@[k])@ == self.cells@[k]@,
            decreases cells.len() - i,
        {
            if !crate::text::same_text(cells[i].as_str(), self.cells[i].as_str()) {
                assert(crate::text::texts(cells@)[i as int] == cells@[i as int]@);
                assert(crate::text::texts(self.cells@)[i as int] == self.cells@[i as int]@);
                return true;
            }
            i = i + 1;
        }
        assert(crate::text::texts(cells@) =~= crate::text::texts(self.cells@));
        !crate::text::same_text(status, self.status.as_str())
    }

    /// The strip was drawn.
    pub fn drew(&mut self, cells: Vec<String>, status: String)
        ensures
            final(self).cells == cells,
            final(self).status == status,
    {
        self.cells = cells;
        self.status = status;
    }

    /// The strip is off the screen: nothing of it was drawn.
    pub fn hid(&mut self)
        ensures
            final(self).cells@.len() == 0,
            final(self).status@.len() == 0,
    {
        self.cells = Vec::new();
        self.status = String::new();
    }
}

/// The arrows of a panel are two pairs of mirror images, and so are its page keys.
pub proof fn the_keys_of_a_panel(action: Action)
    ensures
        panel_key_of(action) == (PanelKey::Move { down: true }) <==> action is Down,
        panel_key_of(action) == (PanelKey::Move { down: false }) <==> action is Up,
        panel_key_of(action) == (PanelKey::Chip { right: true }) <==> action is Right,
        panel_key_of(action) == (PanelKey::Chip { right: false }) <==> action is Left,
        panel_key_of(action) == (PanelKey::Page { back: true }) <==> action is PageUp,
        panel_key_of(action) == (PanelKey::Page { back: false }) <==> action is PageDown,
        panel_key_of(action) == PanelKey::Take <==> action is Newline,
        panel_key_of(action) == PanelKey::Delete <==> action is Backspace,
        panel_key_of(action) == PanelKey::Leave <==> action is Escape,
        panel_key_of(action) == PanelKey::Quit <==> action is Quit,
        panel_key_of(action) is Apply <==> {
            ||| action is Files
            ||| action is Config
            ||| action is Help
            ||| action is Outline
            ||| action is NewDocument
            ||| action is Refresh
        },
{
}

/// A panel and a name cover the find bar, and the find bar covers the page.
pub proof fn a_key_goes_to_what_is_on_top(mode: Mode, finding: bool)
    ensures
        route_of(mode, finding) == Route::Page <==> mode is Writing && !finding,
        route_of(mode, finding) == Route::Find <==> mode is Writing && finding,
        route_of(mode, finding) == Route::Naming <==> mode is Naming,
        route_of(mode, finding) == Route::Panel <==> mode is Files || mode is Config || mode is Help
            || mode is Outline,
{
}

/// What was to be drawn stays to be drawn, a key to the page is always drawn, and
/// elsewhere a key that the input method let pass asks for nothing by itself.
pub proof fn a_key_that_was_passed_draws_nothing_but_the_page(batch: Batch, composed: Composed)
    ensures
        batch.dirty ==> drawn_after(batch, composed).dirty,
        batch.route == Route::Page ==> drawn_after(batch, composed).dirty,
        batch.route != Route::Page ==> drawn_after(batch, Composed::Passed) == batch,
        composed != Composed::Passed ==> drawn_after(batch, composed).dirty,
        drawn_after(batch, composed).route == batch.route,
{
}

/// The rest of a batch is not for a surface that its key has left: a name that was
/// settled or given up, a panel that was left, a find bar that was closed. A page is never
/// left so.
pub proof fn what_is_left_takes_no_more_keys(
    before: Editor,
    after: Editor,
    batch: Batch,
    rest: Batch,
    action: Action,
    done: Done,
    over: bool,
)
    requires
        batch.route == route_of(before.mode, before.finding()),
        handed_to(before, after, batch, rest, action, done, over),
    ensures
        batch.route == Route::Page ==> !over,
        batch.route == Route::Panel ==> (over <==> action is Escape),
        batch.route == Route::Find ==> (over <==> action is Escape || action is Find || (
        action is Replace && before.find->0.replacing)),
        batch.route == Route::Find && over ==> after.find is None,
        batch.route == Route::Find && !over ==> after.find is Some,
        batch.route == Route::Naming ==> (over <==> after.mode is Writing),
        batch.route == Route::Panel && over ==> after.mode is Writing,
        rest.route == batch.route,
        rest.dirty ==> batch.dirty,
{
}

/// The page is turned to the way that the device is held, and only where that is another: a
/// page that was turned is not turned again, and a tilt that says nothing turns nothing.
pub proof fn the_page_follows_the_device(tilt: i32, now: Orientation)
    ensures
        followed(tilt, now) matches Some(want) ==> want != now && Orientation::of_tilt(tilt) == Some(want)
            && followed(tilt, want) is None,
        followed(tilt, now) is None ==> Orientation::of_tilt(tilt) is None || Orientation::of_tilt(tilt)
            == Some(now),
{
}

} // verus!
