use karyll::hid::{
    body_in, connected, disconnect_request, escape, field, is_daemon, is_stale, left_pid, pair_done,
    pair_request, parse_devices, prompt_in, remove_request, same_address, scan_results, Device,
    Prompt, Scan,
};

/// Whether a process with this command line is stopped before a daemon is
/// started from `base`.
fn stops(cmdline: &str, base: &str) -> bool {
    is_stale(2, 1, cmdline, base)
}

/// What a pairing comes to, with these addresses remembered.
fn done(status: &str, paired: &[&str], address: &str) -> Option<bool> {
    let known: Vec<Device> = paired
        .iter()
        .map(|a| Device {
            address: a.to_string(),
            name: String::new(),
            protocol: "ble".into(),
        })
        .collect();
    pair_done(status, &known, address)
}

#[test]
fn reads_flat_fields() {
    let body = r#"{"ok": true, "scanning": false, "name": "Pebble Keys 2 K380s"}"#;
    assert_eq!(field(body, "ok").as_deref(), Some("true"));
    assert_eq!(field(body, "scanning").as_deref(), Some("false"));
    assert_eq!(field(body, "name").as_deref(), Some("Pebble Keys 2 K380s"));
    assert_eq!(field(body, "absent"), None);
}

#[test]
fn unescapes_quoted_values() {
    let body = r#"{"name": "a \"quoted\" name"}"#;
    assert_eq!(field(body, "name").as_deref(), Some(r#"a "quoted" name"#));
}

#[test]
fn reads_a_device_list() {
    let body = r#"{"ok": true, "devices": [
        {"address": "98:B9:EA:01:67:68", "name": "K380s", "protocol": "ble"},
        {"address": "5C:2B:3E:50:4F:04", "name": "BLE-M3", "protocol": "classic"}
    ]}"#;
    let devices = parse_devices(body);
    assert_eq!(devices.len(), 2);
    assert_eq!(devices[0].name, "K380s");
    assert_eq!(devices[0].protocol, "ble");
    assert_eq!(devices[1].address, "5C:2B:3E:50:4F:04");
}

#[test]
fn an_empty_or_absent_list_is_not_an_error() {
    assert!(
        parse_devices(r#"{"ok": true, "devices": []}"#)
            .is_empty()
    );
    assert!(parse_devices(r#"{"ok": true}"#).is_empty());
}

#[test]
fn a_device_without_a_name_falls_back_to_its_address() {
    let body = r#"{"devices": [{"address": "AA:BB:CC:DD:EE:FF", "protocol": "ble"}]}"#;
    let devices = parse_devices(body);
    assert_eq!(devices[0].name, "AA:BB:CC:DD:EE:FF");
}

#[test]
fn a_scan_result_and_a_paired_device_are_one_keyboard() {
    // The suffix is the address type, printed by one endpoint of the two.
    assert!(same_address("AA:BB:CC:DD:EE:FF/P", "AA:BB:CC:DD:EE:FF"));
    assert!(same_address("aa:bb:cc:dd:ee:ff", "AA:BB:CC:DD:EE:FF/P"));
    assert!(!same_address("AA:BB:CC:DD:EE:FF", "11:22:33:44:55:66"));
}

#[test]
fn a_daemon_with_no_link_names_no_keyboard() {
    // `devices` holds every remembered keyboard; this field names the one
    // holding the link.
    let idle = r#"{"ok": true, "connected": false, "connected_device": null,
        "devices": [{"address": "AA:BB:CC:DD:EE:FF", "protocol": "ble"}]}"#;
    assert_eq!(connected(idle), None);

    let live = r#"{"ok": true, "connected": true,
        "connected_device": "11:22:33:44:55:66", "connected_protocol": "classic"}"#;
    assert_eq!(connected(live).as_deref(), Some("11:22:33:44:55:66"));
}

#[test]
fn query_values_are_escaped() {
    // Names carry spaces, and an address carries colons.
    assert_eq!(escape("Pebble Keys 2"), "Pebble+Keys+2");
    assert_eq!(escape("98:B9:EA:01:67:68"), "98:B9:EA:01:67:68");
    assert_eq!(escape("a&b=c"), "a%26b%3Dc");
}

#[test]
fn a_keyboard_that_paired_then_dropped_still_counts_as_paired() {
    // A keyboard shared with another host: link key saved, descriptor
    // fetched, uhid node created, connection dropped a second later. The
    // daemon reconnects on its own.
    let addr = "38:09:FB:25:E4:45";
    let failed = r#"{"ok": false, "error": "Pairing failed"}"#;
    assert_eq!(done(failed, &[addr], addr), Some(true));
}

#[test]
fn a_pairing_that_never_landed_is_a_failure() {
    let addr = "38:09:FB:25:E4:45";
    assert_eq!(done(r#"{"ok": false}"#, &[], addr), Some(false));
}

#[test]
fn pairing_in_progress_is_neither() {
    let addr = "38:09:FB:25:E4:45";
    assert_eq!(done(r#"{"ok": true, "pairing": true}"#, &[], addr), None);
}

/// Verbatim from one `var/hid.log`, over a failed BLE pairing.
const PAIRING: &str = "\
2026-08-14 19:31:37,662 INFO ble_hid: [BLE] Pairing with D0:D5:E8:A1:E1:67...
2026-08-14 19:31:37,958 INFO ble_hid: [BLE] Connected to D0:D5:E8:A1:E1:67
2026-08-14 19:31:37,958 INFO ble_hid: [BLE] Initiating pairing...
2026-08-14 19:31:38,126 INFO ble_hid: Display PIN: 220862
";

#[test]
fn the_passkey_is_read_out_of_the_daemons_log() {
    // The one place the passkey appears. `/pair-status` carries only
    // `{"ok": true, "pairing": true}`.
    assert_eq!(
        prompt_in(PAIRING),
        Some(Prompt::Passkey("220862".into())),
        "a leading zero has to survive too"
    );
    assert_eq!(
        prompt_in("INFO ble_hid: Display PIN: 039102"),
        Some(Prompt::Passkey("039102".into()))
    );
}

#[test]
fn nothing_to_type_yet_is_not_a_prompt() {
    assert_eq!(prompt_in(""), None);
    assert_eq!(
        prompt_in("2026-08-14 19:31:37,958 INFO ble_hid: [BLE] Initiating pairing..."),
        None
    );
}

#[test]
fn a_failure_after_the_passkey_replaces_it() {
    // A failure after a passkey wins, and the panel stops asking.
    let log = format!(
        "{PAIRING}2026-08-14 19:31:47,710 ERROR ble_hid: [BLE] Pairing failed: \
         ProtocolError(smp/CONFIRM_VALUE_FAILED [0x4])\n"
    );
    assert_eq!(
        prompt_in(&log),
        Some(Prompt::Failed(
            "That code was not right — try again.".into()
        ))
    );
}

#[test]
fn an_unrecognised_failure_is_handed_back_as_the_daemon_said_it() {
    let log = "ERROR ble_hid: [BLE] Pairing failed: ProtocolError(smp/UNSPECIFIED [0x8])";
    assert_eq!(
        prompt_in(log),
        Some(Prompt::Failed(
            "ProtocolError(smp/UNSPECIFIED [0x8])".into()
        ))
    );
}

#[test]
fn the_daemon_is_found_by_its_install_path() {
    let base = "/mnt/us/extensions/karyll/hid";
    // The bundled interpreter, from inside the extension. The daemon's own
    // name appears nowhere in it.
    assert!(stops(
        "/mnt/us/extensions/karyll/hid/dist/main.bin --daemon",
        base
    ));
    assert!(stops(
        "/mnt/us/extensions/karyll/hid/kindle-hid-passthrough --daemon",
        base
    ));
    // A match on the binary's name sees neither of the first form.
    assert!(
        !"/mnt/us/extensions/karyll/hid/dist/main.bin --daemon"
            .contains("kindle-hid-passthrough")
    );
    // An install under another path.
    assert!(!stops(
        "/mnt/us/kindle_hid_passthrough/dist/main.bin --daemon",
        base
    ));
    // Nor is anything unrelated.
    assert!(!stops("/usr/bin/bsa_server", base));
}

#[test]
fn a_scan_that_has_not_begun_is_not_a_finished_one() {
    // `/scan` schedules the work; the reply is this error until the daemon
    // picks it up.
    assert_eq!(
        scan_results(r#"{"ok": false, "error": "No scan in progress"}"#),
        Scan::Starting
    );
}

#[test]
fn a_running_scan_reports_what_it_has_seen_so_far() {
    let body = r#"{"ok": true, "scanning": true, "devices": [
        {"address": "11:22:33:44:55:66", "name": "Keyboard", "protocol": "ble"}]}"#;
    match scan_results(body) {
        Scan::Running(devices) => assert_eq!(devices.len(), 1),
        other => panic!("expected a running scan, got {other:?}"),
    }
}

#[test]
fn a_finished_scan_carries_the_final_list() {
    let body = r#"{"ok": true, "devices": [
        {"address": "11:22:33:44:55:66", "name": "Keyboard", "protocol": "ble"}]}"#;
    match scan_results(body) {
        Scan::Done(devices) => assert_eq!(devices.len(), 1),
        other => panic!("expected a finished scan, got {other:?}"),
    }
    // Finished and empty is a real answer, unlike the not-started case.
    assert_eq!(
        scan_results(r#"{"ok": true, "devices": []}"#),
        Scan::Done(Vec::new())
    );
}

#[test]
fn a_request_carries_its_device_escaped() {
    let device = Device {
        address: "AA:BB/P".into(),
        name: "Keys & 키".into(),
        protocol: "ble".into(),
    };
    assert_eq!(
        pair_request(&device),
        "/pair?addr=AA:BB/P&protocol=ble&name=Keys+%26+%D0A4"
    );
    assert_eq!(
        disconnect_request(&device),
        "/disconnect?addr=AA:BB/P&protocol=ble"
    );
    assert_eq!(remove_request("a b"), "/remove?addr=a+b");
}

#[test]
fn the_body_follows_the_first_empty_line() {
    assert_eq!(
        body_in("HTTP/1.0 200 OK\r\nX: y\r\n\r\n{\"ok\": true}\r\n\r\nmore").as_deref(),
        Some("{\"ok\": true}\r\n\r\nmore")
    );
    assert_eq!(body_in("HTTP/1.0 200 OK\n\nbody").as_deref(), Some("body"));
    assert_eq!(body_in("a\n\nb\r\n\r\nc").as_deref(), Some("c"));
    assert_eq!(body_in("HTTP/1.0 200 OK"), None);
}

#[test]
fn a_process_is_told_by_where_it_runs() {
    assert!(is_daemon("/mnt/us/x/hid/run --daemon", "/mnt/us/x/hid"));
    assert!(!is_daemon("sh", "/mnt/us/x/hid"));
    assert!(!is_stale(7, 7, "/mnt/us/x/hid/run", "/mnt/us/x/hid"));
    assert_eq!(left_pid(" 412\n"), Some(412));
    assert_eq!(left_pid("4294967296"), None);
    assert_eq!(left_pid(""), None);
}

#[test]
fn escapes_in_a_quoted_value_stand_for_their_characters() {
    let name = |body: &str| field(body, "name");
    assert_eq!(name(r#"{"name": "caf\u00e9"}"#).as_deref(), Some("café"));
    assert_eq!(name(r#"{"name": "\uD0A4\ub4dc"}"#).as_deref(), Some("키드"));
    assert_eq!(name(r#"{"name": "\ud83d\ude00!"}"#).as_deref(), Some("😀!"));
    assert_eq!(
        name(r#"{"name": "\" \\ \/ \b \f \n \r \t"}"#).as_deref(),
        Some("\" \\ / \u{8} \u{c} \n \r \t")
    );
    // Half a pair is no character.
    assert_eq!(name(r#"{"name": "a\ud83db"}"#).as_deref(), Some("a\u{fffd}b"));
    assert_eq!(name(r#"{"name": "\ud83d\ud83d\ude00"}"#).as_deref(), Some("\u{fffd}😀"));
    assert_eq!(name(r#"{"name": "\ude00"}"#).as_deref(), Some("\u{fffd}"));
    // Too few digits are no unit.
    assert_eq!(name(r#"{"name": "\u12"}"#).as_deref(), Some("u12"));
    assert_eq!(name("{\"name\": \"\\"), None);
    assert_eq!(name(r#"{"name": "\u00e9"#), None);
}

#[test]
fn a_device_is_named_in_any_script() {
    let body = r#"{"devices": [{"address": "AA", "name": "Ta\u015f \ud83d\ude00"}]}"#;
    assert_eq!(parse_devices(body)[0].name, "Taş 😀");
}
