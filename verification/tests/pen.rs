use karyll::evdev::{ABS_X, ABS_Y, EV_ABS, EV_KEY, EV_SYN};
use karyll::pen::{pick_pen, Pen, Touch, BTN_TOUCH, SYN_REPORT};

/// Verbatim from the device's `/proc/bus/input/devices`, so the choice is
/// made against what is actually there.
const CAPTURE: &str = "\
I: Bus=0000 Vendor=0000 Product=0000 Version=0000
N: Name=\"pt_mt\"
H: Handlers=event3 perfmgr

I: Bus=0018 Vendor=2d1f Product=0158 Version=1827
N: Name=\"stylus-custom\"
H: Handlers=event4 perfmgr

I: Bus=0018 Vendor=2d1f Product=0158 Version=1827
N: Name=\"WacomDigitizer\"
H: Handlers=event2 perfmgr
";

#[test]
fn the_raw_digitizer_is_picked_over_the_frameworks_mirror() {
    // The mirror comes first in the dump and matches "stylus"; taking it
    // would apply the framework's rotation on top of our own.
    assert_eq!(pick_pen(CAPTURE).as_deref(), Some("event2"));
}

#[test]
fn the_mirror_will_do_when_there_is_nothing_else() {
    let only_mirror = "I: Bus=0018\nN: Name=\"stylus-custom\"\nH: Handlers=event4 perfmgr\n";
    assert_eq!(pick_pen(only_mirror).as_deref(), Some("event4"));
}

#[test]
fn a_device_with_no_pen_is_not_a_panic() {
    assert_eq!(pick_pen("I: Bus=0000\nN: Name=\"pt_mt\"\n"), None);
}

/// A pen that has reported nothing yet.
fn detached() -> Pen {
    Pen::default()
}

/// The nib arriving, the way the kernel reports it: the button first, then
/// the coordinates, then `SYN_REPORT`.
fn touch_down(p: &mut Pen, x: i32, y: i32) -> Vec<Touch> {
    let mut out = Vec::new();
    p.feed(EV_KEY, BTN_TOUCH, 1, &mut out);
    p.feed(EV_ABS, ABS_X, x, &mut out);
    p.feed(EV_ABS, ABS_Y, y, &mut out);
    p.feed(EV_SYN, SYN_REPORT, 0, &mut out);
    out
}

fn lift(p: &mut Pen) -> Vec<Touch> {
    let mut out = Vec::new();
    p.feed(EV_KEY, BTN_TOUCH, 0, &mut out);
    p.feed(EV_SYN, SYN_REPORT, 0, &mut out);
    out
}

/// Position moving with nothing pressed: the pen in the air over the page.
fn hover(p: &mut Pen, x: i32, y: i32) -> Vec<Touch> {
    let mut out = Vec::new();
    p.feed(EV_ABS, ABS_X, x, &mut out);
    p.feed(EV_ABS, ABS_Y, y, &mut out);
    p.feed(EV_SYN, SYN_REPORT, 0, &mut out);
    out
}

#[test]
fn a_press_lands_where_the_nib_actually_is() {
    let mut p = detached();
    assert_eq!(
        touch_down(&mut p, 900, 1200),
        vec![Touch::Down { x: 900, y: 1200 }]
    );
    assert_eq!(lift(&mut p), vec![Touch::Up { x: 900, y: 1200 }]);
}

/// A pen held over the page reports continuously, and every one of those
/// packets would otherwise be a tap.
#[test]
fn hovering_does_nothing_at_all() {
    let mut p = detached();
    assert!(hover(&mut p, 100, 100).is_empty());
    assert!(hover(&mut p, 400, 700).is_empty());
    // And the position it left behind is not the position of the press that
    // eventually comes.
    assert_eq!(
        touch_down(&mut p, 900, 1200),
        vec![Touch::Down { x: 900, y: 1200 }]
    );
}

/// Press at one place and lift at another is a drag, which is how a
/// selection is made — the same gesture the finger panel reports.
#[test]
fn a_stroke_lifts_where_it_ended() {
    let mut p = detached();
    touch_down(&mut p, 100, 100);
    let mut out = Vec::new();
    p.feed(EV_ABS, ABS_X, 800, &mut out);
    p.feed(EV_ABS, ABS_Y, 950, &mut out);
    p.feed(EV_SYN, SYN_REPORT, 0, &mut out);
    assert!(out.is_empty(), "a stroke in progress completes nothing");
    assert_eq!(lift(&mut p), vec![Touch::Up { x: 800, y: 950 }]);
}

/// Opening the node mid-stroke means the first thing seen is a lift.
#[test]
fn a_lift_with_no_press_behind_it_is_ignored() {
    let mut p = detached();
    assert!(lift(&mut p).is_empty());
}

/// A stanza with no name of its own has none.
#[test]
fn a_name_does_not_reach_the_next_device() {
    let raw = "N: Name=\"WacomDigitizer\"\nB: EV=9\n\nI: Bus=0000\nH: Handlers=event7\n";
    assert_eq!(pick_pen(raw), None);
    let raw = "N: Name=\"stylus\"\nH: Handlers=event1\n\nI: Bus=0000\nH: Handlers=event7\n";
    assert_eq!(pick_pen(raw).as_deref(), Some("event1"));
}
