use karyll::orientation::Orientation;

const PORTRAIT: (u16, u16) = (1860, 2480);
const LANDSCAPE: (u16, u16) = (2480, 1860);

/// The four codes, with the two pairs the right way round: a transposition
/// rotates the page ninety degrees from where the writer is holding it.
#[test]
fn the_accelerometer_codes_are_the_ones_the_device_reported() {
    assert_eq!(Orientation::from_tilt(15), Some(Orientation::Up));
    assert_eq!(Orientation::from_tilt(16), Some(Orientation::Down));
    assert_eq!(Orientation::from_tilt(17), Some(Orientation::Right));
    assert_eq!(Orientation::from_tilt(18), Some(Orientation::Left));

    // 15/16 are the portrait pair and 17/18 the landscape pair — a
    // transposition between the pairs would be the worst kind of wrong.
    let landscape = |c| {
        matches!(
            Orientation::from_tilt(c),
            Some(Orientation::Left | Orientation::Right)
        )
    };
    assert!(!landscape(15));
    assert!(!landscape(16));
    assert!(landscape(17));
    assert!(landscape(18));
}

/// The sensor emits a settling burst when it powers up, so an unrecognised
/// code has to mean "hold what you had" rather than any orientation at all.
#[test]
fn an_unknown_code_names_no_orientation() {
    for code in [0, 1, 14, 19, 20, -1, 255] {
        assert_eq!(Orientation::from_tilt(code), None, "{code}");
    }
}

#[test]
fn upright_passes_coordinates_through() {
    assert_eq!(Orientation::Up.apply(100, 200, PORTRAIT), (100, 200));
}

#[test]
fn a_half_turn_mirrors_both_axes() {
    assert_eq!(Orientation::Down.apply(100, 200, PORTRAIT), (1760, 2280));
    // The centre is its own mirror.
    assert_eq!(Orientation::Down.apply(930, 1240, PORTRAIT), (930, 1240));
}

#[test]
fn mirroring_twice_is_the_identity() {
    let (x, y) = Orientation::Down.apply(300, 700, PORTRAIT);
    assert_eq!(Orientation::Down.apply(x, y, PORTRAIT), (300, 700));
}

#[test]
fn a_quarter_turn_maps_the_panel_across_the_long_edge() {
    // A point halfway down the panel has to arrive halfway across a
    // landscape window; scaling into the window's axes first squashes it.
    let down_the_panel = 2480 / 2;
    let (x, _) = Orientation::Left.apply(900, down_the_panel, LANDSCAPE);
    assert_eq!(
        x, down_the_panel,
        "the panel's long axis is the window's width"
    );
    assert_eq!(
        x * 5 / LANDSCAPE.0 as i32,
        2,
        "still the third of five cells"
    );
}

#[test]
fn a_quarter_turn_lands_inside_the_landscape_window() {
    // The corners of the panel must map to corners of the window, or taps
    // near an edge fall outside it.
    for (px, py) in [(0, 0), (1859, 0), (0, 2479), (1859, 2479)] {
        for turn in [Orientation::Left, Orientation::Right] {
            let (x, y) = turn.apply(px, py, LANDSCAPE);
            assert!(
                (0..=LANDSCAPE.0 as i32).contains(&x),
                "{turn:?} sent x out of the window: {x}"
            );
            assert!(
                (0..=LANDSCAPE.1 as i32).contains(&y),
                "{turn:?} sent y out of the window: {y}"
            );
        }
    }
}

#[test]
fn the_letter_is_what_the_window_manager_reads() {
    assert_eq!(Orientation::Up.letter(), 'U');
    assert_eq!(Orientation::Left.letter(), 'L');
    assert_eq!(Orientation::from_letter("R"), Orientation::Right);
    // Anything unrecognised is upright, which is never worse than refusing
    // to start.
    assert_eq!(Orientation::from_letter(""), Orientation::Up);
    assert_eq!(Orientation::from_letter("nonsense"), Orientation::Up);
}
