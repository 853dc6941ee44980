use karyll::evdev::{
    advertises, blocks, decode, decode_in, device_numbers, keys_in, pick_accelerometer,
    pick_keyboard, pick_touchscreen, tagged_for_x, take_events,
    KeyEvent, Sample, ABS_MT_TRACKING_ID, ABS_TILT, ABS_X, ABS_Y, ABS_Z, EVENT_BYTES, EV_ABS,
    EV_ABS_BIT, EV_KEY, EV_KEY_BIT, EV_SYN, TIME_BYTES,
};
use karyll::keymap::code;

/// The Scribe's own `/proc/bus/input/devices`, captured with a keyboard
/// present. Trimmed to the lines the parse reads.
const CAPTURE: &str = "\
I: Bus=0019 Vendor=0001 Product=0001 Version=0100
N: Name=\"bd71828-pwrkey\"
H: Handlers=event0 perfmgr
B: PROP=0
B: EV=3
B: KEY=100000 0 0 0

I: Bus=0018 Vendor=003d Product=0000 Version=0000
N: Name=\"kx132-accel\"
H: Handlers=event1 perfmgr
B: PROP=0
B: EV=9
B: ABS=1000007

I: Bus=0018 Vendor=2d1f Product=0158 Version=1827
N: Name=\"WacomDigitizer\"
H: Handlers=event2 perfmgr
B: PROP=2
B: EV=b
B: KEY=1c03 0 0 0 0 0 0 0 0 0 0
B: ABS=f000003

I: Bus=0000 Vendor=0000 Product=0000 Version=0000
N: Name=\"pt_mt\"
H: Handlers=event3 perfmgr
B: PROP=2
B: EV=f
B: KEY=0
B: REL=0
B: ABS=ee18000 0

I: Bus=0018 Vendor=2d1f Product=0158 Version=1827
N: Name=\"stylus-custom\"
H: Handlers=event4 perfmgr
B: PROP=0
B: EV=b
B: KEY=1c03 0 0 0 0 0 0 0 0 0 0
B: ABS=f000003

I: Bus=0003 Vendor=1234 Product=5678 Version=0001
N: Name=\"uinput-kbd test keyboard\"
H: Handlers=event5 perfmgr
B: PROP=0
B: EV=3
B: KEY=3ffffff fffffffc

";

#[test]
fn the_keyboard_is_picked_out_of_the_devices_this_scribe_has() {
    assert_eq!(pick_keyboard(CAPTURE).as_deref(), Some("event5"));
}

#[test]
fn the_pen_stylus_and_power_key_are_not_keyboards() {
    // All three carry EV_KEY for a few buttons, which is why the rule tests
    // for a letter rather than for EV_KEY at all.
    let baseline = CAPTURE.split("I: Bus=0003").next().unwrap();
    assert_eq!(pick_keyboard(baseline), None);
}

#[test]
fn key_q_decides_and_the_low_word_is_last() {
    // The uinput keyboard advertises keys 2..=57.
    assert!(advertises("3ffffff fffffffc", code::Q));
    // The power key advertises only KEY_POWER, three words up.
    assert!(!advertises("100000 0 0 0", code::Q));
    assert!(!advertises("1c03 0 0 0 0 0 0 0 0 0 0", code::Q));
    assert!(!advertises("0", code::Q));
}

#[test]
fn a_code_above_the_first_word_is_read_from_the_right() {
    // ABS_MT_TRACKING_ID is 57, so word 1 — the first of two — and bit 25.
    assert!(advertises("ee18000 0", ABS_MT_TRACKING_ID));
    assert!(advertises("2618000 0", ABS_MT_TRACKING_ID));
    assert!(advertises("6608000 0", ABS_MT_TRACKING_ID));
    // A bitmap too short to describe code 57 answers no rather than panics.
    assert!(!advertises("f000003", ABS_MT_TRACKING_ID));
    assert!(!advertises("", ABS_MT_TRACKING_ID));
    // `100 7` sets bit 40, not 57 — the two are eight apart in the same word.
    assert!(!advertises("100 7", ABS_MT_TRACKING_ID));
}

/// The three panels, and the two pen nodes that report absolute axes beside
/// one of them.
#[test]
fn the_finger_panel_is_picked_over_the_pen_on_every_device() {
    assert_eq!(pick_touchscreen(CAPTURE).as_deref(), Some("event3"));
    assert_eq!(pick_touchscreen(COLORSOFT).as_deref(), Some("event1"));
    assert_eq!(pick_touchscreen(OASIS2).as_deref(), Some("event9"));
}

#[test]
fn a_device_with_no_panel_is_not_a_panic() {
    assert_eq!(pick_touchscreen("I: Bus=0000\nN: Name=\"pwrkey\"\n"), None);
}

#[test]
fn the_accelerometer_is_picked_over_the_other_sensors() {
    assert_eq!(pick_accelerometer(CAPTURE).as_deref(), Some("event1"));
    // Two light sensors and an interrupt mirror are listed before the real
    // one; without the axes in the rule the first of them wins.
    assert_eq!(pick_accelerometer(OASIS2).as_deref(), Some("event7"));
}

#[test]
fn a_device_with_no_accelerometer_reports_none() {
    assert_eq!(pick_accelerometer(COLORSOFT), None);
}

#[test]
fn page_turn_buttons_are_not_a_keyboard() {
    // KEY_PAGEUP and KEY_PAGEDOWN, three words up and nowhere near Q.
    assert_eq!(pick_keyboard(OASIS2), None);
}

/// The Colorsoft's own `/proc/bus/input/devices`: a power key and a panel,
/// and nothing else at all.
const COLORSOFT: &str = "\
I: Bus=0019 Vendor=0001 Product=0001 Version=0100
N: Name=\"bd71828-pwrkey\"
H: Handlers=event0 ktch
B: PROP=0
B: EV=3
B: KEY=100000 0 0 0

I: Bus=0018 Vendor=0000 Product=0000 Version=0000
N: Name=\"fts_ts\"
H: Handlers=event1 ktch
B: PROP=2
B: EV=b
B: KEY=400 0 0 0 0 0 0 0 0 0 0
B: ABS=2618000 0

";

/// The Oasis 2's, trimmed to the blocks that decide something: two power
/// keys, the page-turn pair, two light sensors, the accelerometer in both
/// the forms it is published in, and the panel.
const OASIS2: &str = "\
I: Bus=0019 Vendor=0000 Product=0000 Version=0000
N: Name=\"30370000.snvs:snvs-powerkey\"
H: Handlers=kbd event0
B: PROP=0
B: EV=3
B: KEY=100000 0 0 0

I: Bus=0019 Vendor=0001 Product=0001 Version=0100
N: Name=\"gpio-keys\"
H: Handlers=kbd event4
B: PROP=0
B: EV=3
B: KEY=2100 0 0 0

I: Bus=0000 Vendor=0000 Product=0000 Version=0000
N: Name=\"max44009_als\"
H: Handlers=event5
B: PROP=0
B: EV=9
B: ABS=100 0

I: Bus=0000 Vendor=0000 Product=0000 Version=0000
N: Name=\"max44009_als1\"
H: Handlers=event6
B: PROP=0
B: EV=9
B: ABS=100 0

I: Bus=0018 Vendor=0000 Product=0000 Version=0000
N: Name=\"bma2x2\"
H: Handlers=event7
B: PROP=0
B: EV=9
B: ABS=100 7

I: Bus=0018 Vendor=0000 Product=0000 Version=0000
N: Name=\"bma_interrupt\"
H: Handlers=event8
B: PROP=0
B: EV=d
B: REL=3c6
B: ABS=3000000

I: Bus=0000 Vendor=0000 Product=0000 Version=0000
N: Name=\"cyttsp5_mt\"
H: Handlers=event9
B: PROP=2
B: EV=f
B: KEY=6420 0 0 0 0 0 0 0 0 0 0
B: REL=0
B: ABS=6608000 0

";

/// Build one `struct input_event` the way the kernel lays it out.
fn event(kind: u16, code: u16, value: i32) -> Vec<u8> {
    let mut buf = vec![0u8; EVENT_BYTES];
    buf[TIME_BYTES..TIME_BYTES + 2].copy_from_slice(&kind.to_ne_bytes());
    buf[TIME_BYTES + 2..TIME_BYTES + 4].copy_from_slice(&code.to_ne_bytes());
    buf[TIME_BYTES + 4..TIME_BYTES + 8].copy_from_slice(&value.to_ne_bytes());
    buf
}

#[test]
fn press_release_and_repeat_are_told_apart() {
    let down = decode(&event(EV_KEY, 35, 1)).unwrap();
    assert_eq!(
        down,
        KeyEvent {
            code: 35,
            pressed: true,
            repeat: false
        }
    );

    let up = decode(&event(EV_KEY, 35, 0)).unwrap();
    assert_eq!(
        up,
        KeyEvent {
            code: 35,
            pressed: false,
            repeat: false
        }
    );

    let held = decode(&event(EV_KEY, 35, 2)).unwrap();
    assert_eq!(
        held,
        KeyEvent {
            code: 35,
            pressed: true,
            repeat: true
        }
    );
}

#[test]
fn non_key_events_are_skipped() {
    // EV_SYN packets separate reports and carry no keystroke.
    assert_eq!(decode(&event(0, 0, 0)), None);
    // A short read is not an event yet.
    assert_eq!(decode(&[0u8; 4]), None);
}

/// The rule is "absolute axes and no keys". Against the five real
/// devices on this Scribe that picks exactly one — and picking by name
/// would have been wrong, because the udev rules ship drivers for
/// kx132, bma2x2 and bma4xy.
#[test]
fn the_accelerometer_is_the_one_device_with_axes_and_no_keys() {
    assert_eq!(pick_accelerometer(CAPTURE).as_deref(), Some("event1"));
}

/// The pen and the touchscreen both report absolute axes, so an
/// ABS-only rule would have taken whichever came first.
#[test]
fn the_pen_and_the_touchscreen_are_not_accelerometers() {
    for block in blocks(CAPTURE) {
        let picked = block.ev & EV_ABS_BIT != 0 && block.ev & EV_KEY_BIT == 0;
        assert_eq!(
            picked,
            block.handler.as_deref() == Some("event1"),
            "{:?} ev={:#x}",
            block.handler,
            block.ev
        );
    }
}

/// Every device in the dump is seen, and each keeps its own bitmaps —
/// the failure mode of a hand-rolled block parser is bleeding one
/// device's fields into the next.
#[test]
fn every_block_is_parsed_with_its_own_fields() {
    let all = blocks(CAPTURE);
    assert_eq!(all.len(), 6);
    assert_eq!(all[0].ev, 0x3, "pwrkey");
    assert_eq!(all[1].ev, 0x9, "accel");
    assert!(all[1].keys.is_empty(), "the accel advertises no keys");
    assert_eq!(all[5].keys, "3ffffff fffffffc", "the keyboard");
}

/// Axes arrive as separate events and only mean something together, so
/// a report is latched at EV_SYN and never before. Reporting on a
/// partial set is the bug that made every touch land one position
/// behind.
#[test]
fn a_report_is_latched_whole_at_syn() {
    let mut stream = Vec::new();
    for (kind, code, value) in [
        (EV_ABS, ABS_X, -16),
        (EV_ABS, ABS_Y, 1024),
        (EV_ABS, ABS_Z, 32),
        (EV_ABS, ABS_TILT, 4),
        (EV_SYN, 0, 0),
    ] {
        stream.extend_from_slice(&event(kind, code, value));
    }

    // Feed it the way a read would, then check only one sample came out
    // and it has every axis.
    let mut pending = Vec::new();
    let events = take_events(&mut pending, &stream, cfg_little());
    let mut building = Sample::default();
    let out = building.feed(&events);
    assert_eq!(
        out,
        vec![Sample {
            x: -16,
            y: 1024,
            z: 32,
            tilt: 4
        }]
    );
}

#[test]
fn the_event_struct_is_16_bytes_on_the_device() {
    // armv7 has 32-bit longs, so timeval is 8 bytes and the event is 16 —
    // which is what `od` showed when the input chain was proven.
    assert_eq!(TIME_BYTES + 8, EVENT_BYTES);
    if usize::BITS == 32 {
        assert_eq!(EVENT_BYTES, 16);
    }
}

/// Whether this machine puts the low byte first.
fn cfg_little() -> bool {
    1u16.to_ne_bytes()[0] == 1
}

/// The bytes of a device are cut into reads anywhere, and the events are the
/// same.
#[test]
fn a_read_that_cuts_an_event_loses_nothing() {
    let mut stream = Vec::new();
    for value in 0..5 {
        stream.extend_from_slice(&event(EV_KEY, 30, value));
    }
    let mut whole = Vec::new();
    let all = take_events(&mut whole, &stream, cfg_little());
    assert_eq!(all.len(), 5);
    assert!(whole.is_empty());
    for cut in 0..stream.len() {
        let mut pending = Vec::new();
        let mut got = take_events(&mut pending, &stream[..cut].to_vec(), cfg_little());
        assert_eq!(pending.len(), cut % EVENT_BYTES);
        got.extend(take_events(&mut pending, &stream[cut..].to_vec(), cfg_little()));
        assert_eq!(got, all, "cut at {cut}");
        assert!(pending.is_empty());
    }
}

/// Both byte orders are read as they are written.
#[test]
fn an_event_is_read_in_either_order() {
    let mut little = vec![0u8; EVENT_BYTES];
    little[TIME_BYTES..TIME_BYTES + 2].copy_from_slice(&3u16.to_le_bytes());
    little[TIME_BYTES + 2..TIME_BYTES + 4].copy_from_slice(&0x18u16.to_le_bytes());
    little[TIME_BYTES + 4..TIME_BYTES + 8].copy_from_slice(&(-17i32).to_le_bytes());
    assert_eq!(decode_in(&little, true), Some((3, 0x18, -17)));
    let mut big = vec![0u8; EVENT_BYTES];
    big[TIME_BYTES..TIME_BYTES + 2].copy_from_slice(&3u16.to_be_bytes());
    big[TIME_BYTES + 2..TIME_BYTES + 4].copy_from_slice(&0x18u16.to_be_bytes());
    big[TIME_BYTES + 4..TIME_BYTES + 8].copy_from_slice(&(-17i32).to_be_bytes());
    assert_eq!(decode_in(&big, false), Some((3, 0x18, -17)));
    assert_eq!(decode_in(&big[1..], false), None);
}

/// Only the key events of a stream are keys.
#[test]
fn the_keys_of_a_stream_come_out_in_order() {
    let events = vec![(EV_KEY, 30, 1), (EV_SYN, 0, 0), (EV_KEY, 30, 0), (EV_ABS, ABS_X, 9)];
    let keys = keys_in(&events);
    assert_eq!(
        keys,
        vec![
            KeyEvent { code: 30, pressed: true, repeat: false },
            KeyEvent { code: 30, pressed: false, repeat: false },
        ]
    );
}

#[test]
fn a_node_is_tagged_where_its_record_says_so() {
    assert!(tagged_for_x("I:1\nE:ID_INPUT_KEYBOARD=1\n"));
    assert!(!tagged_for_x("I:1\nE:ID_INPUT_KEYBOARD=0\n"));
    assert!(!tagged_for_x("xE:ID_INPUT_KEYBOARD=1"));
    assert_eq!(device_numbers(0x0d42), (13, 0x42));
}
