use monitor_helper::probe::{next_probe_action, probe_outcome, probe_timeout_message, ProbeAction};

#[test]
fn exited_probe_is_collected_even_late() {
    assert_eq!(next_probe_action(true, 0, 1500), ProbeAction::Collect);
    assert_eq!(next_probe_action(true, 9000, 1500), ProbeAction::Collect);
}

#[test]
fn running_probe_is_given_up_at_the_limit() {
    assert_eq!(next_probe_action(false, 1499, 1500), ProbeAction::Wait);
    assert_eq!(next_probe_action(false, 1500, 1500), ProbeAction::GiveUp);
    assert_eq!(next_probe_action(false, 0, 0), ProbeAction::GiveUp);
}

#[test]
fn timeout_message_names_the_limit() {
    assert_eq!(probe_timeout_message(1500), "timeout after 1500ms");
    assert_eq!(probe_timeout_message(0), "timeout after 0ms");
}

#[test]
fn failed_probe_reports_its_error_stream_trimmed() {
    assert_eq!(
        probe_outcome(0x10, false, "exit status: 1", "current=1\nmaximum=2\n", "  Failed to read brightness \n")
            .unwrap_err(),
        "Failed to read brightness"
    );
}

#[test]
fn failed_probe_without_error_text_reports_its_status() {
    assert_eq!(
        probe_outcome(0x10, false, "exit status: 1", "", " \n\t").unwrap_err(),
        "probe exited with status exit status: 1"
    );
}

#[test]
fn successful_probe_is_read_back() {
    let result = probe_outcome(0x10, true, "exit status: 0", "current=40\nmaximum=100\n", "noise").unwrap();
    assert_eq!(result.current, 40);
    assert_eq!(result.maximum, 100);
    assert_eq!(
        probe_outcome(0x10, true, "exit status: 0", "", "").unwrap_err(),
        "Invalid probe output for 0x10"
    );
}
