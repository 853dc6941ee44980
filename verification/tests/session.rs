use karyll::composition::{Composed, Composition, Sink};
use karyll::editor::{keeps_column, Chip, Deed, Editor, Named, Notice, Pressed, Pushed, Put, Taken};
use karyll::edits::{copy, emphasised, heading_cursor, newline, toggle_task, Continue};
use karyll::evdev::KeyEvent;
use karyll::find::{All, Find, Step};
use karyll::gesture::{
    absolute, edge_action, far, hold_left, inside, on_strip, panel_size, point, shows_press,
    tapped, writing_area, Edge, Lift, Tap, Taps, Target,
};
use karyll::hid::{Daemon, Poll, Ready, Scan, Start, Stop};
use karyll::hid::{Device, Prompt};
use karyll::ime::Stub;
use karyll::keymap::{code, Action, Convention, Mods};
use karyll::language::Language;
use karyll::lexicon::{list_for, Layout, Lexicon};
use karyll::orientation::Orientation;
use karyll::pairing::{
    ask_scan, ask_status, dropped_status, keep_status, picked, scan_second, Ask, Pairing, Scanning,
    Second, Show, Tick,
};
use karyll::panel::{Listing, Mode, Paging, PanelFocus, Section};
use karyll::script::Region;
use karyll::session::{
    follow_device, hand, is_ready, look_for_keyboard, offer, orientation_due, panel_key,
    pen_is_input, route, takes_contacts, AccelWatch, Batch, Done, Drawn, Next, Offer, PanelKey,
    Route, Slots, Turning,
};
use karyll::strip::{Bar, Field};

fn editor() -> Editor {
    Editor {
        mode: Mode::Writing,
        find: None,
        paging: Paging::opened(),
        path: None,
        arming: None,
        chrome_hidden: false,
        keyboard_present: true,
        strip_changed: false,
        landing: false,
        notice: None,
        mods: Mods::default(),
        convention: Convention::Mac,
        language: Language::English,
        enabled: vec![Language::English, Language::Japanese, Language::Korean],
        cjk: false,
        focus: false,
        stale: false,
    }
}

fn press(e: &mut Editor, code: u16) -> Pressed {
    e.pressed_action(&KeyEvent { code, pressed: true, repeat: false })
}

fn release(e: &mut Editor, code: u16) -> Pressed {
    e.pressed_action(&KeyEvent { code, pressed: false, repeat: false })
}

#[test]
fn a_modifier_is_held_and_a_release_says_nothing() {
    let mut e = editor();
    assert_eq!(press(&mut e, code::LEFTSHIFT), Pressed::Ignored);
    assert_eq!(press(&mut e, 30), Pressed::Bound(Action::Insert('A')));
    assert_eq!(release(&mut e, 30), Pressed::Ignored);
    release(&mut e, code::LEFTSHIFT);
    assert_eq!(press(&mut e, 30), Pressed::Bound(Action::Insert('a')));
    assert_eq!(press(&mut e, 250), Pressed::Unbound);
    e.convention = Convention::Pc;
    press(&mut e, code::LEFTALT);
    assert_eq!(press(&mut e, 31), Pressed::Bound(Action::Save));
    e.keyboard_present = true;
    e.keyboard_lost();
    assert_eq!(e.mods, Mods::default());
    assert!(!e.keyboard_present);
}

#[test]
fn caps_lock_says_which_case_it_gives() {
    let mut e = editor();
    assert_eq!(press(&mut e, code::CAPSLOCK), Pressed::Bound(Action::CapsLock(true)));
    assert!(matches!(e.apply(Action::CapsLock(true)), Deed::Noticed));
    assert_eq!(e.notice.map(|n| n.text()), Some("AB"));
    assert_eq!(release(&mut e, code::CAPSLOCK), Pressed::Ignored);
    assert!(e.notice.is_some());
    assert_eq!(press(&mut e, 30), Pressed::Bound(Action::Insert('A')));
    assert_eq!(e.notice, None, "a notice goes with the next key");
    assert_eq!(press(&mut e, code::CAPSLOCK), Pressed::Bound(Action::CapsLock(false)));
    assert_eq!(Notice::Caps(false).text(), "ab");
}

#[test]
fn an_action_is_left_to_whoever_carries_it_out() {
    let mut e = editor();
    assert_eq!(e.apply(Action::Insert('x')), Deed::Document(Action::Insert('x')));
    assert_eq!(e.apply(Action::CommitTyped), Deed::Newline);
    assert_eq!(e.apply(Action::Change), Deed::Task);
    assert_eq!(
        e.apply(Action::PageDown),
        Deed::Vertical { up: false, page: true, extend: false }
    );
    assert_eq!(e.apply(Action::Quit), Deed::Nothing);
    assert!(keeps_column(&Action::ExtendUp));
    assert!(!keeps_column(&Action::Left));
    assert_eq!(e.apply(Action::CycleLanguage), Deed::Language);
    assert_eq!(e.language, Language::Japanese);
    assert_eq!(e.notice.map(|n| n.text()), Some("日"));
    assert_eq!(e.apply(Action::ToggleFocus), Deed::Focus);
    assert!(e.focus && e.stale);
    assert_eq!(e.apply(Action::Help), Deed::Help);
    assert!(matches!(e.mode, Mode::Help));
    assert_eq!(e.apply(Action::Config), Deed::Config);
    assert!(matches!(e.mode, Mode::Config));
    e.paging.focus = Some(PanelFocus { row: 1, chip: 0 });
    assert_eq!(e.apply(Action::Config), Deed::Closed);
    assert!(matches!(e.mode, Mode::Writing));
    assert_eq!(e.paging.focus, None);
    assert_eq!(e.apply(Action::NewDocument), Deed::Naming);
    assert!(matches!(&e.mode, Mode::Naming { for_new: true, name } if name.is_empty()));
}

#[test]
fn a_name_is_typed_settled_and_given_up() {
    let mut e = editor();
    e.start_naming(true, "ignored");
    for c in " a/日 ".chars() {
        assert!(matches!(e.typed_name(&Action::Insert(c)), Named::Typing));
    }
    assert!(matches!(&e.mode, Mode::Naming { name, .. } if name == " a日 "));
    assert!(matches!(e.typed_name(&Action::Left), Named::Typing));
    assert!(matches!(e.typed_name(&Action::CycleLanguage), Named::Language));
    e.name_extend("本/語");
    match e.typed_name(&Action::Newline) {
        Named::Open(path) => assert_eq!(path, "/mnt/us/karyll/a日 本語.md"),
        other => panic!("{other:?}"),
    }
    assert!(matches!(e.mode, Mode::Writing));
    e.start_naming(true, "");
    assert!(matches!(e.typed_name(&Action::Newline), Named::Draft));
    e.start_naming(false, "old");
    e.typed_name(&Action::Backspace);
    match e.typed_name(&Action::CommitTyped) {
        Named::Rename(path) => assert_eq!(path, "/mnt/us/karyll/ol.md"),
        other => panic!("{other:?}"),
    }
    e.start_naming(false, "   ");
    assert!(matches!(e.typed_name(&Action::Newline), Named::Cancelled));
    e.start_naming(false, "old");
    assert!(matches!(e.typed_name(&Action::NewDocument), Named::Typing));
    e.start_naming(true, "");
    assert!(matches!(e.typed_name(&Action::NewDocument), Named::Cancelled));
    e.start_naming(true, "");
    assert!(matches!(e.typed_name(&Action::Escape), Named::Cancelled));
}

#[test]
fn a_button_of_the_strip_does_what_it_says() {
    let mut e = editor();
    assert_eq!(e.strip_action(Bar::Exit), Pushed::Exit);
    assert_eq!(e.strip_action(Bar::New), Pushed::Naming { for_new: true });
    assert_eq!(e.strip_action(Bar::PageBack), Pushed::Page { back: true });
    assert_eq!(e.strip_action(Bar::Count), Pushed::Nothing);
    assert_eq!(e.strip_action(Bar::Config), Pushed::Config);
    assert!(matches!(e.mode, Mode::Config));
    assert_eq!(e.strip_action(Bar::Done), Pushed::Left);
    assert!(matches!(e.mode, Mode::Writing));
    e.open_find(None, true);
    assert_eq!(e.find.as_mut().unwrap().tap_all(), All::Armed);
    assert!(!e.disarm_for(Bar::All));
    assert!(e.disarm_for(Bar::Next));
    assert!(!e.disarm_for(Bar::Next));
    assert_eq!(e.strip_action(Bar::With), Pushed::Focus(Field::With));
    assert_eq!(e.strip_action(Bar::Done), Pushed::ClosedFind);
    assert!(e.find.is_none());
    e.paired();
    assert!(e.strip_changed);
    e.jump();
    assert!(e.landing);
}

#[test]
fn a_line_that_is_taken_opens_what_it_stands_for() {
    let mut e = editor();
    assert!(matches!(e.take_row(0), Taken::Nothing));
    assert_eq!(e.take_chip(), Chip::Nothing);
    e.open_files(vec![Listing {
        path: "/a".into(),
        name: "a".into(),
        words: String::new(),
        age: None,
    }]);
    assert!(matches!(e.take_row(0), Taken::Open(p) if p == "/a"));
    assert!(matches!(e.take_row(1), Taken::Nothing));
    assert_eq!(e.take_chip(), Chip::Delete);
    assert_eq!(e.delete_focus(), None);
    e.paging.focus = Some(PanelFocus { row: 3, chip: 0 });
    assert_eq!(e.delete_focus(), Some(3));
    let head = Section { level: 1, text: "A".into(), at: 40, words: String::new() };
    e.open_outline(vec![head], 2);
    assert_eq!(e.paging, Paging { page: 2, focus: None });
    assert!(matches!(e.take_row(0), Taken::Jump(40)));
    assert_eq!(e.delete_focus(), None);
}

#[test]
fn a_language_brings_its_faces_and_its_engine() {
    let mut e = editor();
    let wanted = e.set_language(Language::Japanese, Region::Simplified);
    assert_eq!(wanted.region, Some(Region::Japanese));
    assert!(e.stale && !e.cjk);
    e.engine_loaded(true);
    assert!(e.cjk);
    e.stale = false;
    let wanted = e.set_language(Language::English, Region::Japanese);
    assert_eq!((wanted.region, wanted.script, e.stale), (None, None, false));
    e.engine_loaded(true);
    assert!(!e.cjk);
    e.set_language(Language::Korean, Region::Japanese);
    e.engine_loaded(false);
    assert!(e.cjk, "Hangul needs no engine");
    assert_eq!(e.toggle_language(Language::Korean), Some(Language::English));
    assert_eq!(e.enabled, vec![Language::English, Language::Japanese]);
    assert_eq!(e.toggle_language(Language::German), Some(Language::English));
    assert_eq!(
        e.enabled,
        vec![Language::English, Language::German, Language::Japanese]
    );
    e.language = Language::German;
    assert_eq!(e.toggle_language(Language::English), None);
}

#[test]
fn keys_go_to_what_is_on_top() {
    let naming = Mode::Naming { for_new: true, name: String::new() };
    assert_eq!(route(&naming, true), Route::Naming);
    assert_eq!(route(&Mode::Help, true), Route::Panel);
    assert_eq!(route(&Mode::Writing, true), Route::Find);
    assert_eq!(route(&Mode::Writing, false), Route::Page);
    assert_eq!(panel_key(Action::Escape), PanelKey::Leave);
    assert_eq!(panel_key(Action::Down), PanelKey::Move { down: true });
    assert_eq!(panel_key(Action::Newline), PanelKey::Take);
    assert_eq!(panel_key(Action::Insert('a')), PanelKey::Nothing);
    assert_eq!(panel_key(Action::Help), PanelKey::Apply(Action::Help));
    let mut batch = Batch::new(Route::Find);
    assert_eq!(batch.offered(Composed::Passed), Next::Hand);
    assert!(!batch.dirty);
    assert_eq!(batch.offered(Composed::Finished), Next::Hand);
    assert_eq!(batch.offered(Composed::Took), Next::Skip);
    assert!(batch.dirty);
    assert!(!batch.handed(false));
    assert!(batch.handed(true));
    assert!(!batch.dirty);
    assert_eq!(batch.on_page(Composed::Finished), Next::Hand);
    assert!(batch.dirty);
}

#[test]
fn the_devices_are_followed() {
    let mut watch = AccelWatch::new();
    assert!(!watch.note(15));
    assert!(watch.note(3));
    assert!(!watch.note(3));
    assert_eq!(follow_device(17, Orientation::Up), Some(Orientation::Right));
    assert_eq!(follow_device(15, Orientation::Up), None);
    assert_eq!(follow_device(3, Orientation::Up), None);
    assert!(!orientation_due(1999) && orientation_due(2000));
    assert!(look_for_keyboard(false, 200));
    assert!(!look_for_keyboard(false, 199));
    assert!(!look_for_keyboard(true, 900));
    assert!(takes_contacts(false, 1) && !takes_contacts(true, 1));
    assert!(!pen_is_input(0) && pen_is_input(2));
    let mut drawn = Drawn { cells: Vec::new(), status: String::new() };
    let cells = vec!["[ Exit ]".to_string()];
    assert!(drawn.stale(false, &cells, ""));
    drawn.drew(cells.clone(), "saved".into());
    assert!(!drawn.stale(false, &cells, "saved"));
    assert!(drawn.stale(true, &cells, "saved"));
    assert!(drawn.stale(false, &cells, "not yet saved"));
    drawn.hid();
    assert!(drawn.stale(false, &cells, "saved"));
}

#[test]
fn the_keys_of_the_find_bar_search_edit_and_close() {
    let mut find = Find::open(None, false);
    let q = |f: &mut Find, a: Action| f.typed(&a, false);
    assert_eq!(q(&mut find, Action::Insert('a')), (false, Step::Edited { query: true }));
    assert_eq!(q(&mut find, Action::Insert('b')), (false, Step::Edited { query: true }));
    assert_eq!(q(&mut find, Action::Backspace), (false, Step::Edited { query: true }));
    assert_eq!(find.query, "a");
    assert_eq!(find.typed(&Action::CommitTyped, true).1, Step::Match { back: true });
    assert_eq!(q(&mut find, Action::Newline).1, Step::Match { back: false });
    assert_eq!(q(&mut find, Action::Indent).1, Step::Nothing);
    assert_eq!(q(&mut find, Action::Replace).1, Step::Reveal);
    find.show_second();
    assert_eq!(q(&mut find, Action::Indent).1, Step::Focus(Field::Query));
    assert_eq!(q(&mut find, Action::Insert('z')).1, Step::Edited { query: false });
    assert_eq!((find.query.as_str(), find.with.as_str()), ("a", "z"));
    assert!(find.focus(Field::Query));
    assert!(!find.focus(Field::Query));
    assert_eq!(find.tap_all(), All::Armed);
    assert_eq!(find.typed(&Action::ChangeAll, false), (false, Step::ChangeAll));
    assert_eq!(find.typed(&Action::Left, false), (true, Step::Nothing));
    assert_eq!(find.tap_all(), All::Armed);
    assert_eq!(find.tap_all(), All::Change);
    find.found(vec![(1, 2), (5, 6)], None);
    assert_eq!(find.change_one(), Some((1, 2)));
    find.step_to(Some(1));
    assert_eq!(find.shown(), Some((5, 6)));
    find.step_to(None);
    assert_eq!(find.at, 1);
    assert_eq!(find.change_all(), Some(vec![(1, 2), (5, 6)]));
    assert_eq!(find.change_one(), None);
    assert_eq!(find.typed(&Action::Replace, false).1, Step::Close);
    assert_eq!(find.typed(&Action::Find, false).1, Step::Close);
    assert_eq!(Find::open(None, false).change_all(), None);
}

#[test]
fn an_edit_lands_where_it_should() {
    assert_eq!(newline(Continue::Break), (0, "\n".into()));
    assert_eq!(newline(Continue::Marker("- ".into())), (0, "\n- ".into()));
    assert_eq!(newline(Continue::End(2)), (2, "\n".into()));
    assert_eq!(toggle_task(10, Some((3, false))), Some((13, 14, "x")));
    assert_eq!(toggle_task(10, Some((3, true))), Some((13, 14, " ")));
    assert_eq!(toggle_task(10, None), None);
    assert_eq!(emphasised(5, "**bold**", "**"), (7, 11));
    assert_eq!(emphasised(5, "bold", "**"), (5, 9));
    assert_eq!(heading_cursor(10, 4, 8, 11, 100), 13);
    assert_eq!(heading_cursor(5, 4, 11, 8, 100), 4);
    assert_eq!(heading_cursor(10, 4, 8, 11, 12), 12);
    let mut clipboard = String::from("kept");
    assert!(!copy(&mut clipboard, None));
    assert_eq!(clipboard, "kept");
    assert!(copy(&mut clipboard, Some("new".into())));
    assert_eq!(clipboard, "new");
    assert_eq!(karyll::edits::indent(), "  ");
}

#[test]
fn a_finger_taps_drags_and_taps_twice() {
    let mut taps = Taps { down: None, last: None };
    taps.press((100, 100), true);
    let first = taps.lift((110, 110), None, Some(7), Some(6), false, 1000);
    assert_eq!(first, Lift::Cursor(7));
    taps.press((110, 110), true);
    let second = taps.lift((120, 120), None, Some(8), Some(7), false, 1399);
    assert_eq!(second, Lift::Word(8));
    let third = taps.lift((120, 120), None, Some(8), None, false, 1500);
    assert_eq!(third, Lift::Cursor(8));
    let late = taps.lift((120, 120), None, Some(8), None, false, 1900);
    assert_eq!(late, Lift::Cursor(8));
    taps.press((100, 100), true);
    let drag = taps.lift((300, 100), Some(Edge::On), Some(4), Some(9), true, 1950);
    assert_eq!(drag, Lift::Select { from: 4, to: 9 });
    let margin = taps.lift((0, 500), Some(Edge::Back), Some(1), None, false, 2000);
    assert_eq!(margin, Lift::Margin(Edge::Back));
    assert_eq!(taps.lift((0, 500), None, None, None, false, 2000), Lift::Nothing);
    assert_eq!(taps.lift((0, 500), None, Some(3), None, true, 2000), Lift::Extend(3));
    assert_eq!(edge_action(Edge::End), Action::DocEnd);
    assert!(far((0, 0), (41, 0)) && !far((0, 0), (40, 40)));
}

#[test]
fn a_point_of_the_glass_is_a_point_of_the_window() {
    assert_eq!(panel_size((2480, 1860)), (1860, 2480));
    assert_eq!(point(100, 200, Orientation::Down, (1860, 2480)), (1760, 2280));
    assert_eq!(point(-5, 9000, Orientation::Up, (1860, 2480)), (0, 2480));
    assert!(writing_area(&Mode::Writing, 99, 100));
    assert!(!writing_area(&Mode::Writing, 100, 100));
    assert!(!writing_area(&Mode::Help, 0, 100));
    assert_eq!(tapped(true, false, 90, 90, Some(1), true), Tap::Reveal);
    assert_eq!(tapped(false, true, 89, 90, Some(1), true), Tap::Candidate(1));
    assert_eq!(tapped(false, false, 99, 90, None, true), Tap::Page);
    assert_eq!(tapped(false, false, 99, 90, None, false), Tap::Control);
    assert!(on_strip(100, 100, 90) && !on_strip(95, 100, 90));
    assert_eq!(absolute(Target::Row(2), 10), Target::Row(12));
    assert_eq!(absolute(Target::Option(2, 1), 10), Target::Option(12, 1));
    assert_eq!(absolute(Target::Strip(2), 10), Target::Strip(2));
    assert!(shows_press(Target::Strip(0), &Mode::Writing));
    assert!(!shows_press(Target::Row(0), &Mode::Writing));
    assert_eq!(hold_left(100), Some(200));
    assert_eq!(hold_left(301), None);
    assert!(inside(10, 10, 10, 10, 5, 5) && !inside(15, 10, 10, 10, 5, 5));
}

fn device(address: &str) -> Device {
    Device { address: address.into(), name: "K".into(), protocol: "ble".into() }
}

#[test]
fn a_scan_is_polled_once_a_second_and_given_up() {
    assert_eq!(ask_scan(true, Ready::Up), Ask::Nothing);
    assert_eq!(ask_scan(false, Ready::Starting), Ask::Starting);
    assert_eq!(ask_scan(false, Ready::Unavailable), Ask::Start);
    assert_eq!(ask_scan(false, Ready::Up), Ask::Scan);
    assert_eq!(ask_status(Ask::Scan), Some("Scanning…"));
    assert_eq!(ask_status(Ask::Nothing), None);
    let mut scan = Scanning::new();
    assert_eq!(scan.tick(true, 0), Tick::Nothing);
    scan.begin(1_000);
    assert_eq!(scan.tick(true, 1_999), Tick::Nothing);
    assert_eq!(scan.tick(true, 2_000), Tick::Poll(1));
    assert_eq!(scan.tick(true, 2_500), Tick::Nothing);
    assert!(matches!(scan.answered(Scan::Starting, 3), Show::Status(s) if s == "Starting the scan… 3s"));
    let list = || vec![device("AA")];
    assert!(matches!(scan.answered(Scan::Running(list()), 4), Show::List));
    assert!(matches!(scan.answered(Scan::Running(list()), 5), Show::Status(s) if s == "Scanning… 5s"));
    assert!(scan.began.is_some());
    assert!(matches!(scan.answered(Scan::Running(list()), 14), Show::List));
    assert!(scan.began.is_none());
    scan.begin(0);
    assert!(matches!(
        scan.answered(Scan::Starting, 14),
        Show::Status(s) if s == "The scan never started. Try again."
    ));
    scan.begin(0);
    assert!(matches!(scan.answered(Scan::Done(Vec::new()), 2), Show::List));
    assert!(scan.found.is_empty() && scan.began.is_none());
    scan.begin(0);
    assert_eq!(scan.tick(false, 5_000), Tick::Nothing);
    assert!(scan.began.is_none());
    scan.begin(0);
    scan.failed();
    assert!(scan.began.is_none());
    let mut found = Vec::new();
    assert!(!scan_second(&mut found, Scan::Starting));
    assert!(!scan_second(&mut found, Scan::Running(list())));
    assert_eq!(found.len(), 1);
    assert!(scan_second(&mut found, Scan::Done(Vec::new())));
    assert!(found.is_empty());
    assert_eq!(picked(" 2\n", 3), Some(1));
    assert_eq!(picked("0", 3), None);
    assert_eq!(picked("4", 3), None);
    assert_eq!(picked("", 3), None);
}

#[test]
fn a_pairing_shows_its_passkey_once_and_says_why_it_failed() {
    let mut pairing = Pairing::new();
    let key = || Some(Prompt::Passkey("012345".into()));
    assert!(pairing.wants_prompt());
    assert_eq!(pairing.prompted(None), None);
    assert_eq!(
        pairing.panel_reason(None),
        "Pairing failed. Put it in pairing mode and try again."
    );
    assert_eq!(pairing.prompted(key()).as_deref(), Some("012345"));
    assert_eq!(pairing.prompted(key()), None);
    assert_eq!(pairing.second(None), Second::Wait);
    assert_eq!(pairing.second(Some(true)), Second::Paired);
    assert_eq!(pairing.second(Some(false)), Second::Failed);
    assert_eq!(
        pairing.terminal_reason(key()),
        "pairing failed — the code was not typed in time"
    );
    assert_eq!(
        pairing.panel_reason(Some(Prompt::Failed("It stopped answering. Try again.".into()))),
        "Pairing failed. It stopped answering. Try again."
    );
    let mut slow = Pairing::new();
    let ended = (0..60).position(|_| slow.second(None) == Second::TimedOut);
    assert_eq!(ended, Some(44));
    assert_eq!(
        Pairing::passkey_status("7"),
        "Type 7 on the keyboard, then Enter."
    );
    assert!(dropped_status("K380s", true).contains("Switch on the keyboard you want"));
    assert_eq!(
        dropped_status("K380s", false),
        "Dropped K380s. It reconnects in a few seconds."
    );
    assert!(keep_status(true).starts_with("Kept on"));
    assert!(keep_status(false).starts_with("Off with karyll"));
}

#[test]
fn the_daemon_is_adopted_replaced_or_spawned() {
    let mut d = Daemon::new();
    assert_eq!(d.ready(), Ready::Unavailable);
    assert_eq!(d.start(false, true, true), Start::NoStack);
    assert_eq!(d.start(true, true, true), Start::Replace);
    assert_eq!(d.replaced(true), Start::Stuck);
    assert_eq!(d.replaced(false), Start::Spawn);
    assert_eq!(d.poll_up(true, 0), Poll::Nothing);
    assert_eq!(d.start(true, false, false), Start::Spawn);
    d.spawned();
    assert_eq!(d.ready(), Ready::Starting);
    assert!(d.awaited());
    assert_eq!(d.poll_up(false, 25_000), Poll::Nothing);
    assert_eq!(d.poll_up(false, 25_001), Poll::Late);
    assert_eq!(d.poll_up(false, 26_000), Poll::Nothing, "complained of once");
    assert_eq!(d.poll_up(true, 27_000), Poll::Up);
    assert_eq!(d.poll_up(true, 28_000), Poll::Nothing, "answered once");
    assert_eq!(d.ready(), Ready::Up);
    assert_eq!(d.stop(), Stop::End);
    assert_eq!(d.stop(), Stop::EndAdopted);
    d.keep_alive = true;
    assert_eq!(d.start(true, true, true), Start::Adopt);
    assert_eq!(d.stop(), Stop::LeaveAdopted);
    d.spawned();
    assert_eq!(d.stop(), Stop::Leave);
}

#[test]
fn a_word_list_follows_its_region() {
    assert_eq!(
        list_for(Region::Japanese),
        ("/usr/lib/resegmenter/words_list.mem", Layout::Words)
    );
    assert_eq!(list_for(Region::Traditional).0, "/usr/lib/mmseg/tcn/data_mmap");
    let mut lexicon = Lexicon { region: None };
    assert!(lexicon.wants(Region::Simplified));
    lexicon.took(Region::Simplified, true);
    assert!(!lexicon.wants(Region::Simplified));
    assert!(lexicon.wants(Region::Japanese));
    lexicon.took(Region::Japanese, false);
    assert!(lexicon.wants(Region::Japanese));
}

/// Candidates in pages of two.
fn in_twos(candidates: &Vec<String>) -> Vec<usize> {
    (0..candidates.len()).step_by(2).collect()
}

/// Type keys into whatever the batch goes to, and say what came of the last.
fn strike(e: &mut Editor, word: &mut Composition, batch: &mut Batch, codes: &[u16]) -> (Offer, Put) {
    let mut engine = Some(Stub::new());
    let mut last = (Offer::Ignored, Put::Nothing);
    for &code in codes {
        let event = KeyEvent { code, pressed: true, repeat: false };
        let press = offer(e, word, &mut engine, batch, &event, &in_twos);
        last = (press.offer, press.put);
    }
    last
}

#[test]
fn a_word_composed_into_a_name_lands_in_the_name() {
    let mut e = editor();
    e.language = Language::Korean;
    e.cjk = true;
    e.start_naming(true, "");
    assert_eq!(e.sink(), Sink::Name);
    let mut word = Composition::new();
    let mut batch = Batch::new(Route::Naming);
    // g k s k: 하, with 나 under way.
    let last = strike(&mut e, &mut word, &mut batch, &[34, 37, 31, 37]);
    assert_eq!(last, (Offer::Took, Put::Name));
    assert!(batch.dirty);
    assert!(matches!(&e.mode, Mode::Naming { name, .. } if name == "하"));
    assert_eq!(word.preedit, "나");
    // Enter finishes the syllable and then settles the name.
    let (offered, put) = strike(&mut e, &mut word, &mut batch, &[28]);
    assert_eq!(offered, Offer::Hand(Action::Newline));
    assert_eq!(put, Put::Name);
    let (done, over) = hand(&mut e, &mut batch, Action::Newline);
    assert!(over && !batch.dirty);
    assert!(matches!(done, Done::Name(Named::Open(p)) if p == "/mnt/us/karyll/하나.md"));
    assert!(matches!(e.mode, Mode::Writing));
}

#[test]
fn a_word_composed_into_the_query_is_searched_for() {
    let mut e = editor();
    e.language = Language::Korean;
    e.cjk = true;
    e.open_find(None, false);
    let mut word = Composition::new();
    let mut batch = Batch::new(Route::Find);
    let last = strike(&mut e, &mut word, &mut batch, &[34, 37, 31, 37]);
    assert_eq!(last, (Offer::Took, Put::Query));
    assert_eq!(e.find.as_ref().unwrap().query, "하");
    e.open_find(None, true);
    assert_eq!(e.insert_committed("/x"), Put::With);
    assert_eq!(e.find.as_ref().unwrap().with, "/x");
    assert_eq!(e.insert_committed(""), Put::Nothing);
    let (done, over) = hand(&mut e, &mut batch, Action::CycleLanguage);
    assert!(matches!(
        done,
        Done::Find { disarmed: false, step: Step::CycleLanguage }
    ));
    assert!(!over);
    assert_eq!(e.language, Language::English);
    let (done, over) = hand(&mut e, &mut batch, Action::Indent);
    assert!(matches!(done, Done::Find { step: Step::Focus(Field::Query), .. }));
    assert!(!over);
    assert_eq!(e.find.as_ref().unwrap().field, Field::Query);
    let (_, over) = hand(&mut e, &mut batch, Action::Escape);
    assert!(over && e.find.is_none() && e.stale);
    assert_eq!(e.typed_query(&Action::Insert('a')), (false, Step::Nothing));
}

#[test]
fn typing_on_the_page_puts_the_strip_away() {
    let mut e = editor();
    let mut word = Composition::new();
    let mut batch = Batch::new(Route::Page);
    let last = strike(&mut e, &mut word, &mut batch, &[code::LEFTSHIFT]);
    assert_eq!(last.0, Offer::Ignored);
    assert!(!batch.dirty && !e.chrome_hidden);
    let last = strike(&mut e, &mut word, &mut batch, &[30]);
    assert_eq!(last, (Offer::Hand(Action::Insert('A')), Put::Nothing));
    assert!(batch.dirty && e.chrome_hidden && e.stale);
    let (done, over) = hand(&mut e, &mut batch, Action::Insert('A'));
    assert!(matches!(done, Done::Deed(Deed::Document(Action::Insert('A')))));
    assert!(!over);
    e.mods = Mods::default();
    let last = strike(&mut e, &mut word, &mut batch, &[code::LEFTCTRL, 16]);
    assert_eq!(last.0, Offer::Quit);
    assert_eq!(strike(&mut e, &mut word, &mut batch, &[250]).0, Offer::Unbound);
    assert_eq!(e.insert_committed("字"), Put::Page);
}

#[test]
fn a_panel_takes_its_keys_as_they_come() {
    let mut e = editor();
    e.language = Language::Chinese;
    e.cjk = true;
    e.open_config();
    let mut word = Composition::new();
    let mut batch = Batch::new(Route::Panel);
    // A letter, in Chinese: no input method is offered it.
    let last = strike(&mut e, &mut word, &mut batch, &[49]);
    assert_eq!(last.0, Offer::Hand(Action::Insert('n')));
    assert!(!word.composing());
    let (done, over) = hand(&mut e, &mut batch, Action::Insert('n'));
    assert!(matches!(done, Done::Panel(PanelKey::Nothing)) && !over);
    let (done, over) = hand(&mut e, &mut batch, Action::Help);
    assert!(matches!(done, Done::Deed(Deed::Help)) && !over);
    assert!(matches!(e.mode, Mode::Help));
    let (done, over) = hand(&mut e, &mut batch, Action::Quit);
    assert!(matches!(done, Done::Panel(PanelKey::Quit)) && !over);
    let (done, over) = hand(&mut e, &mut batch, Action::Escape);
    assert!(matches!(done, Done::Panel(PanelKey::Leave)) && over);
    assert!(matches!(e.mode, Mode::Writing));
}

#[test]
fn what_is_waited_for_is_told_apart_by_its_place() {
    assert_eq!(
        Slots::of(true, true, true, true),
        Slots { keyboard: Some(1), touch: Some(2), pen: Some(3), accel: Some(4) }
    );
    assert_eq!(
        Slots::of(false, true, false, true),
        Slots { keyboard: None, touch: Some(1), pen: None, accel: Some(2) }
    );
    let ready = vec![false, true];
    assert!(is_ready(&ready, Some(1)));
    assert!(!is_ready(&ready, Some(0)));
    assert!(!is_ready(&ready, Some(2)));
    assert!(!is_ready(&ready, None));
}

#[test]
fn a_turn_takes_the_contacts_with_it() {
    let mut way = Turning {
        window: Orientation::Up,
        touch: Orientation::Up,
        checked: 0,
        turns_itself: false,
    };
    assert!(!way.turn_to(Orientation::Up, 10));
    assert!(way.turn_to(Orientation::Right, 1000));
    assert_eq!((way.window, way.touch), (Orientation::Right, Orientation::Right));
    assert!(way.remembers());
    assert!(!way.due(2999));
    assert!(way.due(3000));
    assert!(!way.due(3001));
    assert!(!way.moved(Orientation::Right));
    assert!(way.moved(Orientation::Left));
    assert_eq!((way.window, way.touch), (Orientation::Right, Orientation::Left));
}
