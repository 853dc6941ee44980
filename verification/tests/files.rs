use karyll::files::{
    ago, describe_listing, extend_name, file_items, in_filename, is_document, new_document,
    newest_first, next_open, opening_page, outline_items, panel_status, path_for, prose_under,
    renaming, section_of, status_line, title, Head, Renaming,
};
use karyll::help::{help_items, HELP_LINES};
use karyll::panel::{Item, Listing, Mode, Section};

const OUTLINE_STEP: &str = "    ";

const DRAFT: &str = "\
# The whole thing

An opening line of five words.

## First **part**

Three words here.

### A detail

nine words in this one under the third level

## Second part

";

/// The headings of the draft, as its analysis gives them.
fn draft() -> Vec<Section> {
    let named = [
        (1, "The whole thing", "6 words"),
        (2, "First part", "3 words"),
        (3, "A detail", "9 words"),
        (2, "Second part", "empty"),
    ];
    let starts: Vec<usize> = {
        let chars: Vec<char> = DRAFT.chars().collect();
        (0..chars.len())
            .filter(|&i| chars[i] == '#' && (i == 0 || chars[i - 1] == '\n'))
            .collect()
    };
    named
        .iter()
        .zip(starts)
        .map(|((level, text, words), at)| Section {
            level: *level,
            text: text.to_string(),
            at,
            words: words.to_string(),
        })
        .collect()
}

#[test]
fn a_documents_age_reads_in_the_coarsest_unit_that_says_something() {
    let secs = |n| ago(std::time::Duration::from_secs(n).as_secs());
    assert_eq!(secs(0), "just now");
    assert_eq!(secs(59), "just now");
    assert_eq!(secs(60), "1 minute ago");
    assert_eq!(secs(3599), "59 minutes ago");
    assert_eq!(secs(3600), "1 hour ago");
    assert_eq!(secs(86_399), "23 hours ago");
    // The one unit with a word of its own.
    assert_eq!(secs(86_400), "yesterday");
    assert_eq!(secs(172_799), "yesterday");
    assert_eq!(secs(172_800), "2 days ago");
    assert_eq!(secs(2_591_999), "29 days ago");
    assert_eq!(secs(2_592_000), "1 month ago");
    assert_eq!(secs(31_535_999), "12 months ago");
    assert_eq!(secs(31_536_000), "1 year ago");
}

/// The device sets its clock after a sleep: a file can carry a stamp
/// slightly in the future. That is not an error worth putting on screen.
#[test]
fn a_file_stamped_in_the_future_reads_as_just_now() {
    assert!(describe_listing("3 words", None, false).ends_with("just now"));
}

#[test]
fn the_open_document_says_so_beside_its_name() {
    assert!(describe_listing("1,284 words", Some(0), true).starts_with("open"));
    assert!(describe_listing("1,284 words", Some(0), true).contains("1,284 words"));
    assert!(!describe_listing("1,284 words", Some(0), false).contains("open"));
    assert!(describe_listing("empty", Some(0), false).contains("empty"));
}

#[test]
fn a_filename_may_be_written_in_any_script() {
    // Only what makes a path of it is barred. A writer who works in
    // Chinese names a document in Chinese.
    for c in ['日', '本', 'ぬ', 'é', '中', '_', ' ', '.'] {
        assert!(in_filename(c), "{c} is a perfectly good filename");
    }
    for c in ['/', '\\', '\0'] {
        assert!(!in_filename(c));
    }
}

#[test]
fn the_rows_step_in_by_level() {
    let rows = outline_items(&draft(), 0);
    let labels: Vec<&str> = rows
        .iter()
        .map(|item| match item {
            Item::Row { label, .. } => label.as_str(),
            _ => panic!("every outline line is a row"),
        })
        .collect();
    assert_eq!(labels[0], "The whole thing");
    assert_eq!(labels[1], format!("{OUTLINE_STEP}First part"));
    assert_eq!(labels[2], format!("{OUTLINE_STEP}{OUTLINE_STEP}A detail"));
}

/// Opening the outline says where the writer is, before they choose
/// where to go.
#[test]
fn the_section_the_cursor_is_in_is_the_marked_one() {
    let found = draft();
    let marked = |cursor: usize| -> Option<usize> {
        outline_items(&found, cursor)
            .iter()
            .position(|item| matches!(item, Item::Row { on: true, .. }))
    };
    assert_eq!(marked(0), Some(0), "on the first heading itself");
    assert_eq!(marked(found[1].at + 1), Some(1), "inside the second");
    // Just before a heading belongs to the section above it, not to the
    // one about to start.
    assert_eq!(marked(found[2].at - 1), Some(1));
    assert_eq!(marked(usize::MAX), Some(3), "past the end is the last");
    assert_eq!(section_of(&found, found[3].at), Some(3));
    assert_eq!(opening_page(&found, found[3].at, 2), 1);
    assert_eq!(opening_page(&Vec::new(), 9, 0), 0);
}

/// A heading with nothing after the hashes gets a row of its own. A
/// blank one reads as a fault.
#[test]
fn a_nameless_heading_is_still_somewhere_to_go() {
    let found = vec![Section {
        level: 2,
        text: String::new(),
        at: 0,
        words: "3 words".into(),
    }];
    let rows = outline_items(&found, 0);
    match &rows[0] {
        Item::Row { label, .. } => {
            assert!(label.trim_start().starts_with('('), "{label:?}")
        }
        _ => panic!("a row"),
    }
}

/// The prose under a heading stops at the next heading of any level.
#[test]
fn the_prose_under_a_heading_ends_at_the_next() {
    let heads = vec![
        Head { start: 0, end: 10 },
        Head { start: 30, end: 45 },
        Head { start: 45, end: 60 },
    ];
    assert_eq!(prose_under(&heads, 50), vec![(10, 30), (45, 45), (50, 50)]);
    assert_eq!(prose_under(&Vec::new(), 50), vec![]);
}

#[test]
fn a_new_document_takes_the_first_free_number() {
    assert_eq!(new_document(|_| false), "/mnt/us/karyll/draft-1.md");
    assert_eq!(
        new_document(|p| p != "/mnt/us/karyll/draft-12.md"),
        "/mnt/us/karyll/draft-12.md"
    );
    assert_eq!(new_document(|_| true), "/mnt/us/karyll/draft.md");
    assert_eq!(path_for("你好"), "/mnt/us/karyll/你好.md");
    let mut name = String::from("a");
    extend_name(&mut name, "b/c\\d");
    assert_eq!(name, "abcd");
}

#[test]
fn documents_are_listed_newest_first() {
    assert_eq!(newest_first(&vec![5, 9, 5, 7]), vec![1, 3, 0, 2]);
    assert_eq!(newest_first(&Vec::new()), Vec::<usize>::new());
    assert!(is_document("a.md"));
    assert!(is_document("a.b.md"));
    assert!(!is_document(".md"));
    assert!(!is_document("a.markdown"));
    assert!(!is_document("amd"));
}

fn listing(name: &str) -> Listing {
    Listing {
        path: format!("/mnt/us/karyll/{name}"),
        name: name.into(),
        words: "3 words".into(),
        age: Some(7200),
    }
}

#[test]
fn a_document_says_how_long_it_is_and_which_is_open() {
    let files = vec![listing("a.md"), listing("b.md")];
    let items = file_items(
        &files,
        &Some("/mnt/us/karyll/b.md".into()),
        &Some("/mnt/us/karyll/a.md".into()),
        "9 words",
    );
    match &items[0] {
        Item::Row { label, detail, on, action } => {
            assert_eq!(label, "a.md");
            assert_eq!(detail, "3 words  ·  2 hours ago");
            assert!(!on);
            assert_eq!(action.as_deref(), Some("Delete?"));
        }
        other => panic!("{other:?}"),
    }
    match &items[1] {
        Item::Row { detail, on, action, .. } => {
            assert_eq!(detail, "open  ·  9 words  ·  2 hours ago");
            assert!(on);
            assert_eq!(action.as_deref(), Some("Delete"));
        }
        other => panic!("{other:?}"),
    }
}

#[test]
fn each_panel_says_what_it_is() {
    let naming = |name: &str| Mode::Naming { for_new: false, name: name.into() };
    assert_eq!(title(&naming("")), "Rename");
    assert_eq!(title(&Mode::Outline(Vec::new())), "Outline");
    assert_eq!(
        panel_status(&naming(""), "", 0, 5),
        "Type a name, then Enter. Esc cancels."
    );
    assert_eq!(panel_status(&naming("日"), "ほん", 0, 5), "日ほん.md");
    let files = |n: usize| Mode::Files((0..n).map(|i| listing(&format!("{i}.md"))).collect());
    assert_eq!(panel_status(&files(0), "", 0, 5), "Nothing in /mnt/us/karyll yet.");
    assert_eq!(panel_status(&files(1), "", 0, 5), "1 document in /mnt/us/karyll");
    assert_eq!(panel_status(&files(5), "", 0, 5), "5 documents in /mnt/us/karyll");
    assert_eq!(
        panel_status(&files(7), "", 5, 10),
        "6–7 of 7 documents in /mnt/us/karyll"
    );
    assert_eq!(
        panel_status(&Mode::Outline(draft()), "", 0, 3),
        "1–3 of 4 sections. Tap one to go there."
    );
    assert_eq!(
        panel_status(&Mode::Outline(draft()), "", 0, 9),
        "4 sections. Tap one to go there."
    );
    assert_eq!(panel_status(&Mode::Config, "", 0, 9), "Changes apply at once.");
    assert_eq!(panel_status(&Mode::Writing, "", 0, 9), "");
    assert_eq!(
        status_line(true, false, Some("a.md"), "9 words", true),
        "a.md  ·  9 words  ·  not yet saved"
    );
    assert_eq!(
        status_line(true, false, None, "empty", false),
        "Untitled  ·  empty  ·  saved"
    );
    assert_eq!(status_line(true, true, None, "empty", false), "");
    assert_eq!(status_line(false, false, None, "empty", false), "");
}

#[test]
fn help_is_headings_and_facts() {
    let items = help_items("1.2.3");
    assert_eq!(items.len(), HELP_LINES);
    assert!(matches!(&items[0], Item::Heading(h) if h == "Writing"));
    match items.last() {
        Some(Item::Row { label, detail, action, .. }) => {
            assert_eq!(label, "Version");
            assert_eq!(detail, "1.2.3");
            assert_eq!(*action, None);
        }
        other => panic!("{other:?}"),
    }
    assert!(items.iter().any(|i| matches!(
        i,
        Item::Row { label, detail, .. } if label == "Save now" && detail == "Ctrl/⌘ + S"
    )));
}

#[test]
fn what_is_opened_once_a_document_is_gone() {
    let files = vec![listing("b.md"), listing("a.md")];
    assert_eq!(next_open(&files, |_| true), ("/mnt/us/karyll/b.md".into(), false));
    assert_eq!(
        next_open(&Vec::new(), |_| false),
        ("/mnt/us/karyll/draft-1.md".into(), true)
    );
}

#[test]
fn a_name_moves_the_document_to_its_path() {
    let open = Some("/mnt/us/karyll/a.md".to_string());
    assert_eq!(renaming(&open, "/mnt/us/karyll/b.md"), Renaming::Move);
    assert_eq!(renaming(&open, "/mnt/us/karyll/a.md"), Renaming::Stay);
    assert_eq!(renaming(&None, "/mnt/us/karyll/a.md"), Renaming::Write);
}
