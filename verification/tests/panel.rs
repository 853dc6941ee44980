use karyll::editor::{reopens, Editor};
use karyll::find::Find;
use karyll::keymap::{Action, Convention, Mods};
use karyll::language::Language;
use karyll::panel::{
    arrival_chips, chip_on, current, line_takes_focus, next_focusable, pages_of, panel_len,
    take_focus, takeable, takes_focus, Enter, Item, Listing, Mode, Moved, Paging, PanelFocus,
};

/// A line takes the keyboard where taking it does something, a question
/// about the panel and not about the row: the outline's rows carry no chip
/// and go somewhere, Help's carry none and do not.
#[test]
fn what_takes_the_keyboard_depends_on_the_panel() {
    let row = Item::Row {
        label: "draft.md".into(),
        detail: String::new(),
        on: false,
        action: None,
    };
    let heading = Item::Heading("Type".into());
    let choice = Item::Choice {
        label: "Size".into(),
        options: vec!["46".into()],
        on: vec![true],
        inert: Vec::new(),
    };
    for mode in [Mode::Files(Vec::new()), Mode::Outline(Vec::new())] {
        assert!(line_takes_focus(&mode, &row));
        assert!(!line_takes_focus(&mode, &heading));
    }
    assert!(line_takes_focus(&Mode::Config, &choice));
    assert!(!line_takes_focus(&Mode::Config, &heading));
    assert!(
        !line_takes_focus(&Mode::Config, &row),
        "a bare row on Config is a label"
    );
    assert!(
        !line_takes_focus(&Mode::Help, &row),
        "Help is a page of facts"
    );
}

/// Walking the list steps over the lines that do nothing and comes round.
/// A list whose last line is a dead end has to be read to be left.
#[test]
fn walking_a_list_skips_the_lines_that_do_nothing() {
    let takes = [false, true, false, true, false];
    assert_eq!(next_focusable(&takes, None, true), Some(1));
    assert_eq!(next_focusable(&takes, Some(1), true), Some(3));
    assert_eq!(next_focusable(&takes, Some(3), true), Some(1), "wraps");
    assert_eq!(next_focusable(&takes, None, false), Some(3));
    assert_eq!(next_focusable(&takes, Some(3), false), Some(1));
    assert_eq!(next_focusable(&takes, Some(1), false), Some(3), "wraps");
    // A page where nothing can be taken — Help — says so.
    assert_eq!(next_focusable(&[false, false], None, true), None);
    assert_eq!(next_focusable(&[], None, true), None);
}

/// Each opening chord, paired with the mode it opens.
fn panels() -> Vec<(Action, Mode)> {
    vec![
        (Action::Files, Mode::Files(Vec::new())),
        (Action::Config, Mode::Config),
        (Action::Help, Mode::Help),
        (Action::Outline, Mode::Outline(Vec::new())),
    ]
}

#[test]
fn a_panels_own_shortcut_closes_it() {
    for (action, mode) in panels() {
        assert!(
            reopens(&mode, false, false, &action),
            "{action:?} on its own panel has to close it"
        );
    }
}

#[test]
fn from_the_page_every_shortcut_still_opens() {
    for (action, _) in panels() {
        assert!(
            !reopens(&Mode::Writing, false, false, &action),
            "{action:?} while writing has to open, not close"
        );
    }
}

#[test]
fn another_panels_shortcut_goes_straight_there() {
    // Config from the Files list is Config, not a way out. The chord
    // matching the surface is the one that closes it.
    for (action, mode) in panels() {
        for (other, _) in panels() {
            if std::mem::discriminant(&action) == std::mem::discriminant(&other) {
                continue;
            }
            assert!(
                !reopens(&mode, false, false, &other),
                "{other:?} from {action:?}'s panel should open it"
            );
        }
    }
}

#[test]
fn find_closes_the_bar_whichever_field_it_carries() {
    assert!(!reopens(&Mode::Writing, false, false, &Action::Find));
    assert!(reopens(&Mode::Writing, true, false, &Action::Find));
    assert!(reopens(&Mode::Writing, true, true, &Action::Find));
}

#[test]
fn replace_closes_only_a_bar_that_is_already_replacing() {
    // On a plain find bar the chord reveals the second field.
    assert!(!reopens(&Mode::Writing, false, false, &Action::Replace));
    assert!(!reopens(&Mode::Writing, true, false, &Action::Replace));
    assert!(reopens(&Mode::Writing, true, true, &Action::Replace));
}

#[test]
fn nothing_else_toggles() {
    // Typing must never be read as a request to close something.
    for action in [
        Action::Newline,
        Action::Save,
        Action::Refresh,
        Action::NewDocument,
        Action::Insert('a'),
        Action::Escape,
    ] {
        for mode in [Mode::Writing, Mode::Config, Mode::Help] {
            assert!(!reopens(&mode, true, true, &action), "{action:?}");
        }
    }
}

fn size() -> Item {
    Item::Choice {
        label: "Size".into(),
        options: vec!["40".into(), "46".into(), "52".into()],
        on: vec![false, true, false],
        inert: vec![true, false, false],
    }
}

#[test]
fn an_inert_chip_cannot_be_taken() {
    assert_eq!(takeable(&size()), vec![1, 2]);
    assert_eq!(current(&size()), Some(1));
    assert_eq!(chip_on(&vec![1, 2], Some(1)), 1);
    assert_eq!(chip_on(&vec![1, 2], Some(0)), 1);
    assert_eq!(chip_on(&vec![1, 2], None), 1);
    assert_eq!(chip_on(&Vec::new(), Some(0)), 0);
    let swatches = Item::Swatches {
        label: "Caret".into(),
        inks: vec![0, 1, 2],
        on: vec![false, false, true],
    };
    assert_eq!(takeable(&swatches), vec![0, 1, 2]);
    assert_eq!(current(&swatches), Some(2));
    let items = vec![Item::Heading("Type".into()), size(), swatches];
    assert_eq!(takes_focus(&Mode::Config, &items), vec![false, true, true]);
    assert_eq!(arrival_chips(&items), vec![0, 1, 2]);
    let on = |row| Some(PanelFocus { row, chip: 2 });
    assert_eq!(take_focus(on(1), &items), Enter::Chip(1, 2));
    assert_eq!(take_focus(on(0), &items), Enter::Row(0));
    assert_eq!(take_focus(on(9), &items), Enter::Nothing);
    assert_eq!(take_focus(None, &items), Enter::Nothing);
}

#[test]
fn a_list_takes_as_many_pages_as_it_needs() {
    assert_eq!(pages_of(0, 5), 1);
    assert_eq!(pages_of(5, 5), 1);
    assert_eq!(pages_of(6, 5), 2);
    assert_eq!(pages_of(3, 0), 3);
    assert_eq!(panel_len(&Mode::Outline(Vec::new()), 9, 7), 1);
    assert_eq!(panel_len(&Mode::Config, 9, 7), 9);
    assert_eq!(panel_len(&Mode::Help, 9, 7), 7);
    assert_eq!(panel_len(&Mode::Writing, 9, 7), 0);
    let mut paging = Paging { page: 9, focus: None };
    assert_eq!(paging.window(12, 5), (10, 15));
    assert_eq!(paging.page, 2);
    paging.turn(false, 3);
    assert_eq!(paging.page, 0, "wraps");
    paging.turn(true, 3);
    assert_eq!(paging.page, 2, "wraps");
    assert!(!paging.turn_if_any(true, 1));
}

#[test]
fn the_page_follows_the_keyboard() {
    let takes = vec![false, true, false, true, true];
    let chips = vec![0, 2, 0, 1, 0];
    let mut paging = Paging::opened();
    assert_eq!(paging.move_focus(&takes, &chips, 3, true), Moved::Lines(None));
    assert_eq!(paging.focus, Some(PanelFocus { row: 1, chip: 2 }));
    assert_eq!(paging.move_focus(&takes, &chips, 3, true), Moved::Page);
    assert_eq!(paging.page, 1);
    assert_eq!(
        paging.move_focus(&takes, &chips, 3, true),
        Moved::Lines(Some(PanelFocus { row: 3, chip: 1 }))
    );
    assert_eq!(paging.move_focus(&takes, &chips, 3, true), Moved::Page);
    assert_eq!(paging.focus, Some(PanelFocus { row: 1, chip: 2 }));
    // The first use of the keyboard lands on the page that shows.
    let mut paging = Paging { page: 1, focus: None };
    assert_eq!(paging.move_focus(&takes, &chips, 3, false), Moved::Lines(None));
    assert_eq!(paging.focus, Some(PanelFocus { row: 4, chip: 0 }));
    // Nothing to land on: the arrows turn the page.
    let mut paging = Paging::opened();
    assert_eq!(
        paging.move_focus(&vec![false; 5], &vec![0; 5], 3, true),
        Moved::Page
    );
    assert_eq!(paging.page, 1);
    assert_eq!(
        paging.move_focus(&vec![false; 2], &vec![0; 2], 3, true),
        Moved::Nothing
    );
    // On for a move down, and back for a move up.
    let mut paging = Paging::opened();
    for page in [1, 2, 0] {
        paging.move_focus(&vec![false; 9], &vec![0; 9], 3, true);
        assert_eq!(paging.page, page);
    }
    for page in [2, 1, 0] {
        paging.move_focus(&vec![false; 9], &vec![0; 9], 3, false);
        assert_eq!(paging.page, page);
    }
}

#[test]
fn the_arrows_go_round_the_chips_of_a_line() {
    let mut paging = Paging {
        page: 0,
        focus: Some(PanelFocus { row: 4, chip: 2 }),
    };
    let chips = vec![0, 2, 3];
    let was = paging.focus;
    assert_eq!(paging.move_chip(&chips, 1, true), Moved::Lines(was));
    assert_eq!(paging.focus, Some(PanelFocus { row: 4, chip: 3 }));
    paging.move_chip(&chips, 1, true);
    assert_eq!(paging.focus, Some(PanelFocus { row: 4, chip: 0 }));
    paging.move_chip(&chips, 1, false);
    assert_eq!(paging.focus, Some(PanelFocus { row: 4, chip: 3 }));
    assert_eq!(paging.move_chip(&Vec::new(), 2, true), Moved::Page);
    assert_eq!(paging.page, 1);
    assert_eq!(paging.move_chip(&Vec::new(), 1, true), Moved::Nothing);
}

#[test]
fn only_the_lines_that_changed_are_drawn_again() {
    let at = |row, chip| Some(PanelFocus { row, chip });
    let paging = Paging { page: 1, focus: at(7, 1) };
    assert_eq!(
        paging.repaint(at(6, 0), 5, 10),
        vec![(1, None), (2, Some(1))]
    );
    assert_eq!(paging.repaint(at(7, 0), 5, 10), vec![(2, Some(1))]);
    assert_eq!(paging.repaint(at(2, 0), 5, 10), vec![(2, Some(1))]);
    assert_eq!(paging.repaint(at(6, 0), 8, 10), vec![]);
    assert_eq!(
        paging.visible_focus(5, 10),
        Some(PanelFocus { row: 2, chip: 1 })
    );
    assert_eq!(paging.visible_focus(0, 5), None);
    let mut paging = paging;
    paging.focus_at(&vec![false, true], 0, 3);
    assert_eq!(paging.focus, at(7, 1));
    paging.focus_at(&vec![false, true], 1, 3);
    assert_eq!(paging.focus, at(1, 3));
}

/// An editor with nothing open.
fn editor() -> Editor {
    Editor {
        mode: Mode::Writing,
        find: None,
        paging: Paging::opened(),
        path: Some("/mnt/us/karyll/a.md".into()),
        arming: None,
        chrome_hidden: true,
        keyboard_present: true,
        strip_changed: false,
        landing: false,
        notice: None,
        mods: Mods::default(),
        convention: Convention::Mac,
        language: Language::English,
        enabled: vec![Language::English, Language::Korean],
        cjk: false,
        focus: false,
        stale: false,
    }
}

fn listing(name: &str) -> Listing {
    Listing {
        path: format!("/mnt/us/karyll/{name}"),
        name: name.into(),
        words: "3 words".into(),
        age: Some(90),
    }
}

#[test]
fn a_delete_takes_two_presses_on_one_document() {
    let mut e = editor();
    e.open_files(vec![listing("a.md"), listing("b.md")]);
    let first = e.arm_or_delete(0);
    assert!(matches!(first, karyll::editor::Delete::Armed));
    // Another document is armed in its place.
    assert!(matches!(e.arm_or_delete(1), karyll::editor::Delete::Armed));
    assert!(matches!(e.arm_or_delete(0), karyll::editor::Delete::Armed));
    match e.arm_or_delete(0) {
        karyll::editor::Delete::Remove(path) => assert_eq!(path, "/mnt/us/karyll/a.md"),
        other => panic!("{other:?}"),
    }
    assert_eq!(e.arming, None);
    assert!(matches!(e.arm_or_delete(9), karyll::editor::Delete::Nothing));
    assert!(e.removed("/mnt/us/karyll/a.md"));
    assert_eq!(e.path, None);
    assert!(!e.removed("/mnt/us/karyll/b.md"));
    e.arm_or_delete(1);
    e.leave_panel();
    assert_eq!(e.arming, None, "an arm does not outlive the list");
}

#[test]
fn the_find_bar_opens_on_the_selection_and_keeps_what_was_typed() {
    let mut e = editor();
    e.open_find(Some("colour".into()), false);
    assert!(!e.chrome_hidden);
    assert!(e.stale);
    e.find.as_mut().unwrap().append("s");
    e.open_find(Some("ignored".into()), true);
    let find = e.find.as_ref().unwrap();
    assert_eq!(find.query, "colours");
    assert!(find.replacing);
    assert!(e.close_find());
    assert!(!e.close_find());
    e.open_find(Some("two\nlines".into()), false);
    assert_eq!(e.find.as_ref().unwrap().query, "");
    let _: &Option<Find> = &e.find;
}

#[test]
fn a_panel_opened_by_its_key_takes_the_arm_off() {
    for action in [Action::Files, Action::Config, Action::Outline] {
        let mut e = editor();
        e.open_find(Some("colour".into()), true);
        e.find.as_mut().unwrap().tap_all();
        e.apply(action);
        let find = e.find.as_ref().expect("the bar is still there");
        assert!(!find.arming_all, "{action:?}");
        assert_eq!(find.query, "colour");
    }
    // Help has a handler of its own, and leaves the bar alone.
    let mut e = editor();
    e.open_find(None, true);
    e.find.as_mut().unwrap().tap_all();
    e.apply(Action::Help);
    assert!(e.find.unwrap().arming_all);
}
