use karyll::osk::{of_keymap, of_panel};

/// The head of a [`KEYMAP`], as a Scribe writes it.
const SCRIBE: &str = r#"{
"keyboard_language" : "en-US",
"candidate_height" : 100,
"keyboard_height" : 708,
"portrait_height" : 808,
"landscape_height" : 808,
"#;

#[test]
fn the_live_layout_states_the_height() {
    assert_eq!(of_keymap(SCRIBE), Some(808));
}

#[test]
fn a_keymap_without_the_field_states_nothing() {
    assert_eq!(of_keymap("{}"), None);
    assert_eq!(of_keymap(r#"{"portrait_height" : }"#), None);
    assert_eq!(of_keymap(r#"{"portrait_height" : 0}"#), None);
}

#[test]
fn a_panel_off_the_table_takes_a_third() {
    assert_eq!(of_panel(2480), 808, "Scribe");
    assert_eq!(of_panel(1680), 578, "Colorsoft and Oasis 2");
    assert_eq!(of_panel(1696), 578);
    assert_eq!(of_panel(1448), 1448 / 3);
}
