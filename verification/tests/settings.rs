use karyll::config::{chip_rows, CHIPS_PER_ROW};
use karyll::keymap::Convention;
use karyll::orientation::Orientation;
use karyll::power::{Wake, IDLE_SLEEP};
use karyll::settings::{
    autosave_due, positions_file, read_colour, read_convention, read_margin, read_orientation,
    read_switch, write_switch, Autosave, AUTOSAVE_IDLE, AUTOSAVE_MAX,
};
use std::time::Duration;

fn ms(d: Duration) -> u64 {
    d.as_millis() as u64
}

#[test]
fn mid_sentence_does_not_autosave() {
    // A pause between keystrokes is not the writer stopping.
    assert!(!autosave_due(
        Some(ms(Duration::from_millis(400))),
        ms(Duration::from_secs(5))
    ));
}

#[test]
fn a_pause_autosaves() {
    assert!(autosave_due(Some(AUTOSAVE_IDLE), ms(Duration::from_secs(5))));
}

#[test]
fn typing_without_pause_still_autosaves_eventually() {
    // Someone who never pauses is written out on this backstop.
    assert!(autosave_due(Some(ms(Duration::ZERO)), AUTOSAVE_MAX));
    assert!(!autosave_due(
        Some(ms(Duration::ZERO)),
        AUTOSAVE_MAX - ms(Duration::from_secs(1))
    ));
}

#[test]
fn a_document_that_arrived_dirty_is_written_without_waiting_for_a_keystroke() {
    assert!(autosave_due(None, ms(Duration::ZERO)));
}

/// The backstop is the looser of the two; the pause fires first.
#[test]
fn the_backstop_is_the_looser_of_the_two() {
    assert!(AUTOSAVE_MAX > AUTOSAVE_IDLE);
}

#[test]
fn a_document_is_saved_by_itself_and_backs_off_when_it_cannot_be() {
    let mut a = Autosave { last_edit: Some(1_000), dirty_since: None };
    assert!(!a.poll(true, 1_500));
    assert_eq!(a.dirty_since, Some(1_500));
    a.touched(3_000);
    assert!(!a.poll(true, 5_999));
    assert!(a.poll(true, 6_000));
    a.failed(6_000);
    assert!(!a.poll(true, 8_999));
    assert!(a.poll(true, 9_000));
    a.saved();
    assert_eq!(a.dirty_since, None);
    assert!(!a.poll(false, 99_000));
    a.touched(100_000);
    assert!(!a.poll(true, 100_000));
    for t in (100_000..160_000).step_by(1_000) {
        a.touched(t);
        assert!(!a.poll(true, t), "{t}");
    }
    a.touched(160_000);
    assert!(a.poll(true, 160_000));
}

#[test]
fn the_latch_is_written_on_its_two_transitions() {
    let mut wake = Wake { holding: false };
    assert!(wake.note_input());
    assert!(!wake.note_input());
    assert!(!wake.poll_sleep(IDLE_SLEEP - 1));
    assert!(wake.poll_sleep(IDLE_SLEEP));
    assert!(!wake.poll_sleep(IDLE_SLEEP));
    assert!(wake.note_input());
}

#[test]
fn a_switch_reads_as_it_was_written() {
    for on in [false, true] {
        assert_eq!(read_switch(Some(write_switch(on))), on);
        assert_eq!(read_colour(Some(write_switch(on))), on);
    }
    assert!(!read_switch(None));
    assert!(read_colour(None));
    assert!(read_switch(Some(" 1\n")));
    assert!(!read_switch(Some("yes")));
    assert!(read_colour(Some("yes")));
    assert_eq!(read_convention(Some("PC\n")), Convention::Pc);
    assert_eq!(read_convention(Some("pc")), Convention::Mac);
    assert_eq!(read_convention(None), Convention::Mac);
    assert_eq!(read_margin(Some("12\n")), Some(12));
    assert_eq!(read_margin(Some("70000")), None);
    assert_eq!(read_margin(Some("")), None);
    assert_eq!(positions_file(), "/mnt/us/extensions/karyll/var/positions");
}

#[test]
fn a_sensor_outranks_what_is_remembered() {
    let up = Orientation::Up;
    assert_eq!(read_orientation(true, Some(18), Some("R"), up), Orientation::Left);
    assert_eq!(read_orientation(true, Some(3), Some("R"), up), up);
    assert_eq!(read_orientation(true, None, Some("R"), up), up);
    assert_eq!(read_orientation(false, None, Some("R\n"), up), Orientation::Right);
    assert_eq!(read_orientation(false, None, None, Orientation::Down), Orientation::Down);
}

/// Every option reaches a row, in order and exactly once. The chip a finger
/// lands on is looked up through the list its row was drawn from. An option
/// dropped or duplicated by the split sets the wrong family.
#[test]
fn splitting_a_row_keeps_every_option_in_order() {
    for count in 0..12usize {
        let options: Vec<usize> = (0..count).collect();
        let rows = chip_rows(&options);
        assert!(
            rows.iter().all(|row| row.len() <= CHIPS_PER_ROW),
            "{count} options put more than {CHIPS_PER_ROW} on a row: {rows:?}"
        );
        assert_eq!(rows.concat(), options, "{count} options came back changed");
    }
}

/// Even, not filled-then-remainder: four families read as two and two.
#[test]
fn a_split_row_divides_evenly() {
    assert!(chip_rows(&vec![]).is_empty(), "nothing in, no row out");
    assert_eq!(chip_rows(&vec![0]), vec![vec![0]]);
    assert_eq!(
        chip_rows(&vec![0, 1, 2]),
        vec![vec![0, 1, 2]],
        "three still fit"
    );
    assert_eq!(chip_rows(&vec![0, 1, 2, 3]), vec![vec![0, 1], vec![2, 3]]);
    assert_eq!(
        chip_rows(&vec![0, 1, 2, 3, 4]),
        vec![vec![0, 1, 2], vec![3, 4]],
        "the Latin list splits into the writing faces and the firmware's"
    );
    assert_eq!(
        chip_rows(&vec![0, 1, 2, 3, 4, 5]),
        vec![vec![0, 1, 2], vec![3, 4, 5]]
    );
}

#[test]
fn no_line_of_chips_carries_two_more_than_another() {
    let sizes = |n: usize| -> Vec<usize> {
        chip_rows(&(0..n).collect()).iter().map(Vec::len).collect()
    };
    assert_eq!(sizes(7), vec![3, 2, 2]);
    assert_eq!(sizes(10), vec![3, 3, 2, 2]);
    assert_eq!(sizes(9), vec![3, 3, 3]);
    for n in 1..60 {
        let rows = sizes(n);
        assert_eq!(rows.iter().sum::<usize>(), n);
        assert_eq!(rows.len(), n.div_ceil(CHIPS_PER_ROW));
        assert!(rows.iter().max().unwrap() - rows.iter().min().unwrap() <= 1, "{rows:?}");
    }
}
