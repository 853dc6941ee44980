use karyll::power::latched;

/// One `lipc-get-prop com.lab126.powerd status` output, verbatim.
const REPORT: &str = "Powerd state: Active\n\
                      Remaining time in this state: 589.624499\n\
                      defer_suspend:0\n\
                      suspend_grace:0\n\
                      prevent_screen_saver:0\n";

#[test]
fn a_report_from_the_device_says_the_latch_is_open() {
    assert_eq!(latched(REPORT), Some(false));
}

#[test]
fn a_held_latch_reads_back_as_held() {
    let held = REPORT.replace("prevent_screen_saver:0", "prevent_screen_saver:1");
    assert_eq!(latched(&held), Some(true));
}

#[test]
fn a_report_without_the_field_is_not_an_answer_either_way() {
    assert_eq!(latched("Powerd state: Active\n"), None);
}

#[test]
fn the_field_is_not_confused_with_the_others_beside_it() {
    let deferred = REPORT.replace("defer_suspend:0", "defer_suspend:1");
    assert_eq!(latched(&deferred), Some(false));
}
