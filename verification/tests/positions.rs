use karyll::positions::{
    forget_position, opening_cursor, opening_cursor_from, parse_positions, read_position,
    render_positions, updated_positions, POSITIONS_KEPT,
};

/// A draft opens where it was left.
#[test]
fn a_remembered_place_is_where_the_document_opens() {
    assert_eq!(opening_cursor_from(Some(1200), 5000), 1200);
}

/// The fallback is the top.
#[test]
fn a_document_never_seen_before_opens_at_its_top() {
    assert_eq!(opening_cursor_from(None, 5000), 0);
    assert_eq!(opening_cursor_from(None, 0), 0);
}

/// The file is plain Markdown on a volume that mounts over USB: it
/// can have been shortened elsewhere between sessions.
#[test]
fn a_stale_place_past_the_end_is_clamped() {
    assert_eq!(opening_cursor_from(Some(9000), 40), 40);
}

#[test]
fn positions_survive_a_round_trip() {
    let entries = vec![
        (12, "/mnt/us/karyll/draft.md".to_string()),
        (0, "/mnt/us/karyll/你好.md".to_string()),
    ];
    assert_eq!(parse_positions(&render_positions(&entries)), entries);
}

/// A path is allowed to contain the separator: the index is written
/// first, and everything after it is the path.
#[test]
fn a_tab_in_a_path_survives() {
    let entries = vec![(7, "/mnt/us/karyll/od\td.md".to_string())];
    assert_eq!(parse_positions(&render_positions(&entries)), entries);
}

#[test]
fn a_damaged_line_is_skipped_rather_than_taking_the_file_with_it() {
    let parsed = parse_positions("not a position\n12\t/a.md\n\nxx\t/b.md\n");
    assert_eq!(parsed, vec![(12, "/a.md".to_string())]);
}

/// Writing a place again replaces the old one. Stacking grows the file
/// by a line per save and finds the stale entry first.
#[test]
fn writing_a_place_again_moves_it_to_the_front() {
    let entries = vec![(1, "/a.md".to_string()), (2, "/b.md".to_string())];
    let after = updated_positions(entries, "/b.md", 99);
    assert_eq!(
        after,
        vec![(99, "/b.md".to_string()), (1, "/a.md".to_string())]
    );
}

#[test]
fn the_list_is_capped_so_it_cannot_grow_forever() {
    let mut entries = Vec::new();
    for i in 0..POSITIONS_KEPT + 20 {
        entries = updated_positions(entries, &format!("/{i}.md"), i);
    }
    assert_eq!(entries.len(), POSITIONS_KEPT);
    // Newest first: the draft just written is the one kept.
    assert_eq!(entries[0].1, format!("/{}.md", POSITIONS_KEPT + 19));
}

#[test]
fn an_index_is_read_as_a_number_is_written() {
    assert_eq!(
        parse_positions("+12\t/a\n 7 \t/b\n-1\t/c\n99999999999999999999999\t/d\n\t/e\n5\t"),
        vec![
            (12, "/a".to_string()),
            (7, "/b".to_string()),
            (5, String::new())
        ]
    );
}

#[test]
fn a_forgotten_document_opens_at_its_top() {
    let entries = vec![(4, "/a".to_string()), (9, "/b".to_string())];
    let kept = forget_position(entries, "/a");
    assert_eq!(read_position(&kept, "/a"), None);
    assert_eq!(read_position(&kept, "/b"), Some(9));
    assert_eq!(opening_cursor(&kept, "/a", 10), 0);
    assert_eq!(opening_cursor(&kept, "/b", 10), 9);
    assert_eq!(opening_cursor(&kept, "/b", 3), 3);
}
