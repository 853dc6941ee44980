use karyll::config::{Colours, Command, Config, ConfigRow};
use karyll::font::Choices;
use karyll::hid::{Device, Ready};
use karyll::keymap::Convention;
use karyll::language::Language;
use karyll::orientation::Orientation;
use karyll::panel::Item;

fn device(address: &str, name: &str) -> Device {
    Device {
        address: address.into(),
        name: name.into(),
        protocol: "ble".into(),
    }
}

fn config() -> Config {
    Config {
        paired: vec![device("AA:01", "K380s"), device("AA:02", "Keys")],
        found: vec![device("aa:01/P", "K380s"), device("AA:03/P", "New")],
        connected: Some("aa:02".into()),
        keyboard_present: true,
        convention: Convention::Pc,
        ready: Ready::Up,
        scanning: Some(4),
        keep_alive: true,
        enabled: vec![Language::English, Language::Korean],
        choices: Choices::default(),
        installed: vec![vec![0, 1, 2], vec![0], vec![0], vec![0], vec![0, 1]],
        sizes: vec!["40".into(), "46".into()],
        size: Some(1),
        margins: vec!["Narrow".into(), "Wide".into()],
        margin: None,
        hang: false,
        hyphenate: Some(true),
        colour: Some(Colours {
            on: true,
            caret: 1,
            highlight: 0,
            count: 3,
        }),
        way: Some(Orientation::Right),
    }
}

/// A line as its name and its values, with the ones that stand.
fn read(item: &Item) -> (String, Vec<String>, Vec<bool>) {
    match item {
        Item::Heading(h) => (h.clone(), Vec::new(), Vec::new()),
        Item::Choice { label, options, on, .. } => (label.clone(), options.clone(), on.clone()),
        Item::Swatches { label, inks, on } => (
            label.clone(),
            inks.iter().map(|i| i.to_string()).collect(),
            on.clone(),
        ),
        other => panic!("{other:?}"),
    }
}

#[test]
fn the_panel_is_drawn_from_the_top() {
    let items = config().config_items();
    let labels: Vec<String> = items.iter().map(|(i, _)| read(i).0).collect();
    assert_eq!(
        labels,
        vec![
            "Keyboard",
            "K380s",
            "Keys",
            "New  (ble)",
            "Beside the space bar",
            "Bluetooth",
            "When karyll closes",
            "Input",
            "Languages",
            "Type",
            "Size",
            "Margins",
            "Hanging",
            "Hyphenation",
            "Latin",
            "한글",
            "Colour",
            "Caret and highlights",
            "Caret",
            "Highlight",
            "Screen",
            "Hold it"
        ]
    );
    assert_eq!(
        read(&items[1].0),
        (
            "K380s".into(),
            vec!["Connect".into(), "Forget".into()],
            vec![false, false]
        )
    );
    assert!(matches!(&items[1].0, Item::Choice { inert, .. } if *inert == vec![true, false]));
    assert_eq!(read(&items[2].0).1[0], "Disconnect");
    assert_eq!(read(&items[4].0).2, vec![false, true]);
    assert_eq!(read(&items[5].0).1, vec!["Scanning… 4s"]);
    assert_eq!(read(&items[8].0).2, vec![true, false, false, false, false, true]);
    assert_eq!(read(&items[10].0).2, vec![false, true]);
    assert_eq!(read(&items[11].0).2, vec![false, false]);
    assert_eq!(read(&items[14].0).1, vec!["Duo", "Mono", "Quattro"]);
    assert_eq!(read(&items[18].0).2, vec![false, true, false]);
    assert_eq!(read(&items[21].0).2, vec![false, true]);
}

#[test]
fn what_is_not_there_is_left_off() {
    let mut c = config();
    c.colour = Some(Colours { on: false, ..c.colour.unwrap() });
    assert_eq!(c.config_items().len(), 20);
    c.colour = None;
    assert_eq!(c.config_items().len(), 18);
    c.way = None;
    assert_eq!(c.config_items().len(), 16);
    c.hyphenate = None;
    assert_eq!(c.config_items().len(), 15);
    c.installed[0].clear();
    assert_eq!(c.config_items().len(), 14);
    c.ready = Ready::Starting;
    assert_eq!(read(&c.config_items()[5].0).1, vec!["Starting…"]);
    c.ready = Ready::Unavailable;
    assert_eq!(read(&c.config_items()[5].0).1, vec!["Unavailable"]);
    c.ready = Ready::Up;
    c.scanning = None;
    assert_eq!(read(&c.config_items()[5].0).1, vec!["Scan for keyboards"]);
    c.keyboard_present = false;
    assert_eq!(read(&c.config_items()[2].0).1[0], "Connect");
}

#[test]
fn a_second_row_of_one_setting_is_not_named_again() {
    let mut c = config();
    c.enabled = vec![Language::German];
    c.installed[0] = vec![2, 0, 1, 1];
    c.choices.set(karyll::font::Group::Latin, 2);
    let items = c.config_items();
    assert_eq!(
        read(&items[14].0),
        ("Latin".into(), vec!["Quattro".into(), "Duo".into()], vec![true, false])
    );
    assert_eq!(
        read(&items[15].0),
        (String::new(), vec!["Mono".into(), "Mono".into()], vec![false, false])
    );
    assert!(matches!(&items[15].1, ConfigRow::Font(_, part) if *part == vec![1, 1]));
    assert!(matches!(c.config_action(14, 0), Command::SetFamily(_, 2)));
}

#[test]
fn each_chip_does_what_it_says() {
    let c = config();
    assert!(matches!(c.config_action(0, 0), Command::Nothing));
    assert!(matches!(c.config_action(1, 0), Command::Disconnect(d) if d.address == "AA:01"));
    assert!(matches!(c.config_action(2, 1), Command::Forget(d) if d.name == "Keys"));
    assert!(matches!(c.config_action(3, 0), Command::Pair(d) if d.address == "AA:03/P"));
    assert!(matches!(c.config_action(3, 1), Command::Nothing));
    assert!(matches!(c.config_action(4, 1), Command::SetConvention(Convention::Pc)));
    assert!(matches!(c.config_action(4, 0), Command::SetConvention(Convention::Mac)));
    assert!(matches!(c.config_action(5, 0), Command::Scan));
    assert!(matches!(c.config_action(6, 1), Command::KeepBluetooth(true)));
    assert!(matches!(c.config_action(8, 1), Command::ToggleLanguage(Language::German)));
    assert!(matches!(c.config_action(8, 6), Command::Nothing));
    assert!(matches!(c.config_action(10, 1), Command::SetSize(1)));
    assert!(matches!(c.config_action(10, 2), Command::Nothing));
    assert!(matches!(c.config_action(11, 0), Command::SetMargin(0)));
    assert!(matches!(c.config_action(12, 1), Command::SetHanging(true)));
    assert!(matches!(c.config_action(13, 0), Command::SetHyphenate(false)));
    assert!(matches!(c.config_action(17, 1), Command::SetColour(true)));
    assert!(matches!(c.config_action(18, 2), Command::SetCaret(2)));
    assert!(matches!(c.config_action(18, 3), Command::Nothing));
    assert!(matches!(c.config_action(19, 0), Command::SetHighlight(0)));
    assert!(matches!(c.config_action(21, 0), Command::Turn(Orientation::Up)));
    assert!(matches!(c.config_action(21, 1), Command::Turn(Orientation::Right)));
    assert!(matches!(c.config_action(22, 0), Command::Nothing));
}

#[test]
fn the_chip_that_stands_is_left_alone() {
    let c = config();
    let mut tried = 0;
    for (at, (item, row)) in c.config_items().iter().enumerate() {
        if matches!(row, ConfigRow::Bare | ConfigRow::Languages(_) | ConfigRow::Keyboard(_)) {
            continue;
        }
        for (option, on) in read(item).2.iter().enumerate() {
            assert_eq!(c.unchanged(&c.config_action(at, option)), *on, "{at}, {option}");
            tried += 1;
        }
    }
    assert_eq!(tried, 27);
    assert!(!c.unchanged(&Command::Scan));
    assert!(!c.unchanged(&Command::ToggleLanguage(Language::English)));
}

#[test]
fn a_colour_that_is_not_there_bars_the_other() {
    let mut c = config();
    c.colour = Some(Colours { highlight: 7, ..c.colour.unwrap() });
    assert!(matches!(c.config_action(18, 0), Command::Nothing));
    assert!(matches!(c.config_action(19, 0), Command::SetHighlight(0)));
}
