use monitor_helper::commands::{
    check_scan_range, get_lines, list_lines, prepare_set, probe_args, profile_lines,
    scan_entry_lines, scan_failure_lines, scan_footer_lines, scan_header_lines, set_lines,
    MonitorSummary, ScanRun,
};
use monitor_helper::profile::{resolve_feature, MonitorProfile};
use monitor_helper::readback::parse_probe_output;
use monitor_helper::selection::{DisplaySelector, FeatureArg};
use monitor_helper::tables::profiles;

fn profile(key: &str) -> &'static MonitorProfile {
    profiles().iter().find(|p| p.key == key).unwrap()
}

fn strs(lines: &[String]) -> Vec<&str> {
    lines.iter().map(|l| l.as_str()).collect()
}

fn arg(text: &str) -> FeatureArg {
    FeatureArg::from_str(text).unwrap()
}

#[test]
fn list_of_no_monitors() {
    assert_eq!(strs(&list_lines(&Vec::new())), vec!["No DDC/CI-capable external monitors found."]);
}

#[test]
fn list_shows_optional_name_and_serial() {
    let monitors = vec![
        MonitorSummary {
            index: 1,
            description: "DELL P2711".to_string(),
            controller: "dell-p2711v".to_string(),
            backend: "macos".to_string(),
            identifier: "id-1".to_string(),
            product_name: Some("DELL P2711".to_string()),
            serial_number: None,
        },
        MonitorSummary {
            index: 2,
            description: "Other".to_string(),
            controller: "generic".to_string(),
            backend: "winapi".to_string(),
            identifier: "id-2".to_string(),
            product_name: None,
            serial_number: Some("S1".to_string()),
        },
    ];
    assert_eq!(
        strs(&list_lines(&monitors)),
        vec![
            "[1] DELL P2711",
            "  controller: dell-p2711v",
            "  backend: macos",
            "  id: id-1",
            "  name: DELL P2711",
            "[2] Other",
            "  controller: generic",
            "  backend: winapi",
            "  id: id-2",
            "  serial: S1",
        ]
    );
}

#[test]
fn get_report_heads_the_value_report() {
    let input = resolve_feature(Some(profile("dell-p2711v")), "input").unwrap();
    assert_eq!(
        strs(&get_lines(2, "dell-p2711v", &input, 15, 18)),
        vec![
            "display=2",
            "controller=dell-p2711v",
            "feature=input (0x60)",
            "current=15",
            "maximum=18",
            "current_hex=0x000F",
            "current_label=dp",
            "writeback_value=15",
            "writeback_source=raw-current",
            "writeback_label=dp",
            "writeback_safe=true",
            "writeback_reason=exact-readback",
        ]
    );
}

#[test]
fn probe_arguments_name_the_selector_and_the_code() {
    let selector = DisplaySelector {
        all: false,
        display: Some(3),
        id: Some("X".to_string()),
        name: None,
    };
    assert_eq!(strs(&probe_args(&selector, 0x60)), vec!["probe", "--display", "3", "--id", "X", "0x60"]);
    let plain = DisplaySelector { all: true, display: None, id: None, name: Some("dell".to_string()) };
    assert_eq!(strs(&probe_args(&plain, 5)), vec!["probe", "--name", "dell", "0x05"]);
}

#[test]
fn set_resolves_feature_and_value() {
    let (feature, value) = prepare_set(Some(profile("dell-v2419qw")), &arg("Input"), "HDMI").unwrap();
    assert_eq!(feature.code, 0x60);
    assert_eq!(value, 17);
    assert_eq!(
        strs(&set_lines(1, "dell-v2419qw", &feature, value)),
        vec!["display=1", "controller=dell-v2419qw", "feature=input (0x60)", "set=17", "set_label=hdmi-1"]
    );
    let (brightness, level) = prepare_set(None, &arg("brightness"), "0x40").unwrap();
    assert_eq!(level, 64);
    assert_eq!(
        strs(&set_lines(1, "generic", &brightness, level)),
        vec!["display=1", "controller=generic", "feature=brightness (0x10)", "set=64"]
    );
}

#[test]
fn set_refuses_a_read_only_feature() {
    assert_eq!(
        prepare_set(None, &arg("vcp-version"), "1").unwrap_err(),
        "Feature vcp-version (0xDF) is read-only."
    );
}

#[test]
fn set_passes_on_resolution_errors() {
    assert!(prepare_set(None, &arg("no-such-feature"), "1").is_err());
    assert!(prepare_set(None, &arg("input"), "no-such-input").is_err());
}

#[test]
fn profile_report_for_an_unknown_monitor() {
    let lines = profile_lines(1, "generic", "Some Monitor", None, None);
    let all = strs(&lines);
    assert_eq!(
        &all[0..5],
        &["display=1", "controller=generic", "description=Some Monitor", "profile_key=generic", "controls:"]
    );
    assert_eq!(all[5], "  brightness 0x10 writable=true");
    assert_eq!(all[6], "  contrast 0x12 writable=true");
    assert_eq!(all[7], "  input 0x60 writable=true");
    assert_eq!(
        all[8],
        "    values: vga-1=1, dvi-1=3, displayport-1=15, displayport-2=16, hdmi-1=17, hdmi-2=18, usb-c=27"
    );
    assert_eq!(all[9], "  volume 0x62 writable=true");
    assert_eq!(all[10], "  power 0xD6 writable=true");
    assert_eq!(all[11], "    values: on=1, off=4");
    assert_eq!(all[12], "  vcp-version 0xDF writable=false");
    assert_eq!(all.len(), 13);
}

#[test]
fn profile_report_shows_write_only_values_and_observed_codes() {
    let v2419 = profile_lines(2, "dell-v2419qw", "DELL V2419", Some("DELL V2419"), Some(profile("dell-v2419qw")));
    let all = strs(&v2419);
    assert_eq!(all[3], "model=DELL V2419");
    assert_eq!(all[4], "profile_key=dell-v2419qw");
    assert!(all.contains(&"    write_values: hdmi-2=15, hdmi-1=17, source-18=18"));
    assert!(!all.iter().any(|l| l.starts_with("observed_readable_codes=")));

    let p2711 = profile_lines(1, "dell-p2711v", "DELL P2711", None, Some(profile("dell-p2711v")));
    let last = p2711.last().unwrap();
    assert!(last.starts_with("observed_readable_codes=0x02 0x04 0x05"));
    assert!(last.ends_with("0xFD 0xFE 0xFF"));
    assert!(!p2711.iter().any(|l| l.starts_with("    write_values:")));
}

#[test]
fn scan_range_must_not_be_reversed() {
    assert_eq!(check_scan_range(0, 0xFF), Ok(()));
    assert_eq!(check_scan_range(0x10, 0x10), Ok(()));
    assert_eq!(
        check_scan_range(0x20, 0x1F),
        Err("Invalid scan range: start 0x20 is greater than end 0x1F.".to_string())
    );
}

#[test]
fn scan_header_and_footer() {
    assert_eq!(
        strs(&scan_header_lines(1, "generic", 0, 0xFF, 1500)),
        vec!["display=1", "controller=generic", "scan_range=0x00-0xFF", "timeout_ms=1500"]
    );
    assert_eq!(strs(&scan_footer_lines(3, 253)), vec!["readable=3", "unreadable=253"]);
}

#[test]
fn scan_failures_are_shown_only_on_request() {
    assert_eq!(strs(&scan_failure_lines(0x0A, "timeout after 1500ms", true)), vec!["0x0A error=timeout after 1500ms"]);
    assert!(scan_failure_lines(0x0A, "timeout after 1500ms", false).is_empty());
}

#[test]
fn scan_entry_of_a_packed_reading() {
    let output = "current=768\nmaximum=65535\ncurrent_hex=0x0300\ncurrent_high_byte=3\ncurrent_low_byte=0\ndecoded_current=3\ndecoded_current_source=high-byte-zero-low-byte\nwriteback_value=3\nwriteback_source=high-byte-zero-low-byte\nwriteback_safe=false\nwriteback_reason=ambiguous-packed-readback\n";
    let result = parse_probe_output(0x60, output).unwrap();
    assert_eq!(
        strs(&scan_entry_lines(Some(profile("dell-v2419qw")), 0x60, &result)),
        vec![
            "0x60 name=input current=768 maximum=65535",
            "0x60 current_hex=0x0300",
            "0x60 current_high_byte=3",
            "0x60 current_low_byte=0",
            "0x60 decoded_current=3 source=high-byte-zero-low-byte",
            "0x60 writeback_value=3 source=high-byte-zero-low-byte safe=false",
            "0x60 writeback_reason=ambiguous-packed-readback",
        ]
    );
}

#[test]
fn scan_entry_labels_from_the_profile_when_the_probe_gave_none() {
    let result = parse_probe_output(0x60, "current=15\nmaximum=18\n").unwrap();
    assert_eq!(
        strs(&scan_entry_lines(Some(profile("dell-p2711v")), 0x60, &result)),
        vec!["0x60 name=input current=15 current_label=dp maximum=18"]
    );
    let unknown = parse_probe_output(0x99, "current=1\nmaximum=2\ndecoded_current=4\nwriteback_value=4\nwriteback_label=x\n").unwrap();
    assert_eq!(
        strs(&scan_entry_lines(None, 0x99, &unknown)),
        vec![
            "0x99 name=unknown current=1 maximum=2",
            "0x99 decoded_current=4 source=heuristic",
            "0x99 writeback_value=4 writeback_label=x source=unknown safe=false",
        ]
    );
}

#[test]
fn scan_run_probes_each_code_once_and_counts_outcomes() {
    let mut run = ScanRun::new(0x10, 0x12, true);
    let mut seen = Vec::new();
    while let Some(code) = run.next_code() {
        seen.push(code);
        let outcome = if code == 0x11 {
            Err("timeout after 5ms".to_string())
        } else {
            parse_probe_output(code, "current=1\nmaximum=2\n")
        };
        let lines = run.record(None, &outcome);
        if code == 0x11 {
            assert_eq!(strs(&lines), vec!["0x11 error=timeout after 5ms"]);
        } else {
            assert_eq!(lines.len(), 1);
        }
    }
    assert_eq!(seen, vec![0x10, 0x11, 0x12]);
    assert_eq!(strs(&run.footer_lines()), vec!["readable=2", "unreadable=1"]);
}

#[test]
fn scan_run_over_the_whole_range_ends() {
    let mut run = ScanRun::new(0x00, 0xFF, false);
    let mut count = 0;
    while let Some(code) = run.next_code() {
        assert!(run.record(None, &Err(format!("no {code}"))).is_empty());
        count += 1;
    }
    assert_eq!(count, 256);
    assert_eq!(strs(&run.footer_lines()), vec!["readable=0", "unreadable=256"]);
}
