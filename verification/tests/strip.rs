use karyll::find::{readouts, with_fields, Find};
use karyll::panel::Mode;
use karyll::strip::{
    anchor_cell, bracket, cell_words, find_count, find_field, fit_strip, other_labels, page_bottom,
    set_chrome_hidden, strip_cells, strip_holds, strip_visible, strip_wanted, stretch_cells, Bar,
    Field, Readouts,
};

/// The bar's two states.
const FINDING: [Bar; 6] = [
    Bar::Query,
    Bar::Count,
    Bar::Previous,
    Bar::Next,
    Bar::Replace,
    Bar::Done,
];
const REPLACING: [Bar; 8] = [
    Bar::Query,
    Bar::With,
    Bar::Count,
    Bar::Previous,
    Bar::Next,
    Bar::Change,
    Bar::All,
    Bar::Done,
];

/// The elastic cells are the fields, found by what they are. Nothing
/// else may state the bar's order.
#[test]
fn the_fields_are_the_cells_that_stretch() {
    assert_eq!(stretch_cells(&FINDING), vec![0]);
    assert_eq!(stretch_cells(&REPLACING), vec![0, 1]);
    // And a bar with no field on it has nothing elastic: the remainder
    // falls to the status line.
    assert_eq!(
        stretch_cells(&[Bar::Exit, Bar::Files, Bar::Config]),
        Vec::<usize>::new()
    );
}

/// Every elastic cell resolves back to the field it draws, whatever
/// order the bar puts them in.
#[test]
fn each_field_finds_its_own_cell_and_no_other() {
    for bars in [&REPLACING[..], &FINDING[..]] {
        for cell in stretch_cells(bars) {
            let field = Field::of(bars[cell]).expect("an elastic cell is a field");
            assert_eq!(bars.iter().position(|b| *b == field.cell()), Some(cell));
        }
    }
    // Reordering the bar moves the answer with it, leaving no stale
    // index behind.
    let reversed: Vec<Bar> = REPLACING.iter().rev().copied().collect();
    assert_eq!(stretch_cells(&reversed), vec![6, 7]);
    assert_eq!(anchor_cell(&reversed, Field::Query), 7);
    assert_eq!(anchor_cell(&REPLACING.to_vec(), Field::With), 1);
    assert_eq!(anchor_cell(&FINDING.to_vec(), Field::With), 0);
}

/// A cell that is not a field is not one: nothing else on the strip
/// can be typed into by accident.
#[test]
fn no_button_is_mistaken_for_a_field() {
    for bar in [Bar::Count, Bar::Change, Bar::All, Bar::Done, Bar::Replace] {
        assert_eq!(Field::of(bar), None, "{bar:?}");
    }
}

#[test]
fn the_strip_never_hides_while_there_is_no_keyboard() {
    // With nothing paired the strip is the only way out of the app.
    assert!(strip_visible(true, false, false, true));
}

#[test]
fn the_count_says_nothing_it_cannot_stand_behind() {
    assert_eq!(find_count(false, false, false, 2, 12), "3 of 12");
    assert_eq!(find_count(false, false, false, 0, 0), "not found");
    // Nothing typed yet: "not found" for an empty search answers a
    // question nobody asked.
    assert_eq!(find_count(true, false, false, 0, 0), "");
    // And nothing while a word is being composed into the query, that field
    // then showing the query plus a half-typed word. A word composed into
    // the replacement leaves the query alone, and the caller passes false.
    assert_eq!(find_count(false, true, false, 2, 12), "");
}

#[test]
fn typing_with_a_keyboard_is_the_one_case_that_hides_it() {
    assert!(!strip_visible(true, true, false, true));
    // And it comes straight back when the flag is cleared.
    assert!(strip_visible(false, true, false, true));
    // A search puts the bar on the strip, and a hidden field is not a
    // field: the strip stays whatever the chrome flag says.
    assert!(strip_visible(true, true, true, true));
}

#[test]
fn a_panel_always_has_its_strip_whatever_the_writing_screen_was_doing() {
    // Opening a panel from the keyboard leaves the hidden flag set by the
    // keystroke that opened it, and `set_chrome_hidden` declines to touch
    // the flag outside `Mode::Writing`. A panel's strip is its controls.
    assert!(strip_visible(true, true, false, false));
    let mut hidden = true;
    assert!(!set_chrome_hidden(&mut hidden, false, true, false, false));
    assert!(hidden);
    assert!(set_chrome_hidden(&mut hidden, false, true, false, true));
    assert!(!hidden);
    assert!(!set_chrome_hidden(&mut hidden, true, false, false, true));
    assert!(hidden);
}

/// The numbers at their longest.
fn longest() -> Readouts {
    Readouts {
        count: Some((false, 127, 128)),
        composing: false,
        armed: true,
        page: (8, 12),
    }
}

#[test]
fn a_narrow_strip_gives_up_its_words_and_then_its_readouts() {
    let wanted = REPLACING.to_vec();
    let (bars, labels) = fit_strip(wanted.clone(), &longest(), |_, _| true);
    assert_eq!(bars, wanted);
    assert_eq!(
        labels,
        vec!["", "", "128 of 128", "Previous", "Next", "Change", "All?", "Done"]
    );
    let (bars, labels) = fit_strip(wanted.clone(), &longest(), |_, words| {
        words.iter().all(|w| w != "Previous")
    });
    assert_eq!(bars, wanted);
    assert_eq!(
        labels,
        vec!["", "", "128/128", "Prev", "Next", "Change", "All?", "Done"]
    );
    let (bars, labels) = fit_strip(wanted.clone(), &longest(), |_, _| false);
    assert_eq!(
        bars,
        vec![
            Bar::Query,
            Bar::With,
            Bar::Previous,
            Bar::Next,
            Bar::Change,
            Bar::All,
            Bar::Done
        ]
    );
    assert_eq!(labels, vec!["", "", "Prev", "Next", "Change", "All?", "Done"]);
    for bar in &wanted {
        assert!(bar.is_readout() || bars.contains(bar));
    }
}

#[test]
fn a_page_is_counted_in_long_words_and_short() {
    let readouts = longest();
    assert_eq!(cell_words(&[Bar::PageAt], false, &readouts), vec!["8 of 12"]);
    assert_eq!(cell_words(&[Bar::PageAt], true, &readouts), vec!["8/12"]);
    assert_eq!(
        cell_words(&[Bar::New, Bar::PageBack], true, &readouts),
        vec!["New", "Prev"]
    );
    assert_eq!(
        cell_words(&[Bar::New, Bar::PageBack], false, &readouts),
        vec!["New document", "Previous"]
    );
}

#[test]
fn a_label_is_bracketed_unless_it_says_nothing() {
    assert_eq!(bracket("Done"), "[ Done ]");
    assert_eq!(bracket(""), "");
    assert_eq!(
        strip_cells(&vec!["Exit".to_string(), String::new()]),
        vec!["[ Exit ]", ""]
    );
    assert_eq!(
        other_labels(&vec!["a".into(), "b".into(), String::new()], &vec![0]),
        vec!["[ b ]", ""]
    );
}

#[test]
fn a_strip_holds_where_every_cell_is_drawn_and_every_field_is_wide() {
    assert!(!strip_holds(5, 6, 1, 900, 200));
    assert!(strip_holds(4, 4, 0, 0, 200));
    assert!(strip_holds(6, 6, 1, 200, 200));
    assert!(!strip_holds(6, 6, 1, 199, 200));
}

#[test]
fn each_screen_has_its_own_cells() {
    assert_eq!(
        strip_wanted(None, &Mode::Writing, 1),
        vec![Bar::Exit, Bar::Files, Bar::Config, Bar::Help]
    );
    assert_eq!(
        strip_wanted(None, &Mode::Files(Vec::new()), 2),
        vec![
            Bar::Done,
            Bar::New,
            Bar::Rename,
            Bar::PageBack,
            Bar::PageAt,
            Bar::PageOn
        ]
    );
    let naming = Mode::Naming {
        for_new: true,
        name: String::new(),
    };
    assert_eq!(strip_wanted(None, &naming, 1), vec![Bar::Cancel]);
    assert_eq!(strip_wanted(None, &Mode::Help, 1), vec![Bar::Done]);
    assert_eq!(strip_wanted(Some(false), &Mode::Writing, 9), FINDING.to_vec());
    assert_eq!(strip_wanted(Some(true), &Mode::Writing, 9), REPLACING.to_vec());
    assert_eq!(page_bottom(true, 900, 1000), 900);
    assert_eq!(page_bottom(false, 900, 1000), 1000);
}

#[test]
fn a_field_is_cut_from_the_front_until_it_fits() {
    let wide = |s: &String| s.chars().count() as u16;
    assert_eq!(
        find_field(Field::Query, "colour", "", true, 40, wide),
        "Find: colour_"
    );
    // `[ Find: …lour_ ]` is sixteen characters as it is drawn.
    assert_eq!(
        find_field(Field::Query, "colour", "", true, 16, wide),
        "Find: …lour_"
    );
    assert_eq!(find_field(Field::With, "colour", "にほ", false, 40, wide), "With: colour");
    assert_eq!(
        find_field(Field::With, "colour", "にほ", true, 40, wide),
        "With: colourにほ_"
    );
    assert_eq!(find_field(Field::Query, "ab", "", true, 0, wide), "Find: …_");
}

#[test]
fn the_fields_of_a_bar_say_what_was_typed_into_them() {
    let mut find = Find::open(Some("colour".into()), true);
    find.append("color");
    let mut labels = vec![String::new(), String::new(), "1 of 3".to_string()];
    let bars = vec![Bar::Query, Bar::With, Bar::Count];
    with_fields(&bars, &mut labels, &find, "", 100, |s: &String| s.len() as u16);
    assert_eq!(labels, vec!["Find: colour", "With: color_", "1 of 3"]);
}

#[test]
fn the_strip_reports_the_search() {
    assert_eq!(
        readouts(&None, true, 2, 5),
        Readouts {
            count: None,
            composing: false,
            armed: false,
            page: (3, 5)
        }
    );
    let mut find = Find::open(Some("a".into()), false);
    find.found(vec![(0, 1), (4, 5)], Some(1));
    assert_eq!(
        readouts(&Some(find), true, 0, 1),
        Readouts {
            count: Some((false, 1, 2)),
            composing: true,
            armed: false,
            page: (1, 1)
        }
    );
}
