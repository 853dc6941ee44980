use karyll::composition::Composition;
use karyll::config::Config;
use karyll::editor::Editor;
use karyll::find::Find;
use karyll::font::Choices;
use karyll::hid::Ready;
use karyll::keymap::{Convention, Mods};
use karyll::language::Language;
use karyll::panel::{Item, Listing, Mode, Paging, PanelFocus};
use karyll::screen::visible_items;

fn editor(mode: Mode) -> Editor {
    Editor {
        mode,
        find: None,
        paging: Paging::opened(),
        path: Some("/mnt/us/karyll/2.md".into()),
        arming: None,
        chrome_hidden: true,
        keyboard_present: true,
        strip_changed: false,
        landing: true,
        notice: None,
        mods: Mods::default(),
        convention: Convention::Mac,
        language: Language::English,
        enabled: vec![Language::English],
        cjk: false,
        focus: false,
        stale: false,
    }
}

fn config() -> Config {
    Config {
        paired: Vec::new(),
        found: Vec::new(),
        connected: None,
        keyboard_present: true,
        convention: Convention::Mac,
        ready: Ready::Up,
        scanning: None,
        keep_alive: false,
        enabled: vec![Language::English],
        choices: Choices::default(),
        installed: vec![vec![0], vec![0], vec![0], vec![0], vec![0]],
        sizes: vec!["46".into()],
        size: Some(0),
        margins: vec!["Wide".into()],
        margin: Some(0),
        hang: false,
        hyphenate: None,
        colour: None,
        way: None,
    }
}

fn listing(name: &str) -> Listing {
    Listing {
        path: format!("/mnt/us/karyll/{name}"),
        name: name.into(),
        words: "3 words".into(),
        age: None,
    }
}

fn label(item: &Item) -> &str {
    match item {
        Item::Heading(label) => label,
        Item::Row { label, .. } | Item::Choice { label, .. } | Item::Swatches { label, .. } => label,
    }
}

#[test]
fn a_panel_shows_the_page_it_is_on() {
    let files = (0..7).map(|i| listing(&format!("{i}.md"))).collect();
    let mut e = editor(Mode::Files(files));
    e.paging = Paging { page: 9, focus: Some(PanelFocus { row: 6, chip: 0 }) };
    let shown = e.panel_picture(&Composition::new(), &config(), "9 words", 0, "1", 3, None);
    assert_eq!(shown.title, "Files");
    assert_eq!(shown.status, "7–7 of 7 documents in /mnt/us/karyll");
    assert_eq!(shown.items.iter().map(label).collect::<Vec<_>>(), vec!["6.md"]);
    assert_eq!(shown.focus, Some(PanelFocus { row: 0, chip: 0 }));
    assert_eq!(e.paging.page, 2);
    assert!(e.stale);
    e.paging.page = 0;
    let shown = e.panel_picture(
        &Composition::new(),
        &config(),
        "9 words",
        0,
        "1",
        3,
        Some("Paired."),
    );
    assert_eq!(shown.status, "Paired.");
    assert_eq!(shown.focus, None);
    assert!(matches!(
        &shown.items[2],
        Item::Row { detail, on: true, .. } if detail == "open  ·  9 words  ·  just now"
    ));
}

#[test]
fn each_panel_has_its_lines() {
    let c = config();
    let lines = |mode| editor(mode).panel_items(&c, "", 0, "1");
    assert_eq!(lines(Mode::Config).len(), c.config_items().len());
    assert_eq!(label(&lines(Mode::Config)[0]), "Keyboard");
    assert_eq!(lines(Mode::Help).len(), karyll::help::HELP_LINES);
    let outline = lines(Mode::Outline(Vec::new()));
    assert_eq!(label(&outline[0]), "No headings in this document");
    assert_eq!(outline.len(), 1);
    assert!(lines(Mode::Writing).is_empty());
    assert!(visible_items(lines(Mode::Help), 90, 99).is_empty());
    assert_eq!(visible_items(lines(Mode::Help), 2, 5).len(), 3);
}

#[test]
fn a_word_under_way_stands_at_the_cursor_and_hides_the_selection() {
    let mut word = Composition::new();
    word.preedit = "にほ".into();
    let chars: Vec<char> = "abcd".chars().collect();
    let mut e = editor(Mode::Writing);
    assert_eq!(e.document_index(&word, 5, 2), 3);
    let page = e.page_picture(&word, chars.clone(), 2, Some((0, 2)));
    assert_eq!(page.chars.iter().collect::<String>(), "abにほcd");
    assert_eq!((page.span, page.cursor), (Some((2, 4)), 4));
    assert_eq!(page.selection, None);
    assert!(page.landing && !page.fresh && !page.strip);
    assert!(!e.landing && !e.stale);
    // Composed into the find bar it is not in the text.
    e.find = Some(Find::open(None, false));
    e.stale = true;
    assert_eq!(e.document_index(&word, 5, 2), 5);
    let page = e.page_picture(&word, chars, 2, Some((0, 2)));
    assert_eq!(page.chars.iter().collect::<String>(), "abcd");
    assert_eq!((page.span, page.cursor), (None, 2));
    assert_eq!(page.selection, Some((0, 2)));
    assert!(!page.landing && page.fresh && page.strip);
}
