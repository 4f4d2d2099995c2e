use monitor_helper::profile::{resolve_feature, MonitorProfile};
use monitor_helper::readback::{
    current_writeback_value, decode_current_value, parse_probe_output, value_report_lines,
};
use monitor_helper::tables::profiles;

fn profile(key: &str) -> &'static MonitorProfile {
    profiles().iter().find(|p| p.key == key).unwrap()
}

#[test]
fn packed_reading_without_labels_is_ambiguous() {
    let input = resolve_feature(Some(profile("dell-v2419qw")), "input").unwrap();
    let decoded = decode_current_value(&input, 768);
    assert_eq!(decoded.current_hex.as_deref(), Some("0x0300"));
    assert_eq!(decoded.current_high_byte, Some(3));
    assert_eq!(decoded.current_low_byte, Some(0));
    assert_eq!(decoded.decoded_current, Some(3));
    assert_eq!(decoded.decoded_current_source, Some("high-byte-zero-low-byte"));
    assert_eq!(decoded.decoded_current_label, None);

    let writeback = current_writeback_value(&input, 768, &decoded);
    assert_eq!(writeback.value, Some(3));
    assert_eq!(writeback.source, Some("high-byte-zero-low-byte"));
    assert_eq!(writeback.label, None);
    assert!(!writeback.safe);
    assert_eq!(writeback.reason, Some("ambiguous-packed-readback"));
}

#[test]
fn packed_reading_with_a_labelled_byte_is_safe() {
    let input = resolve_feature(Some(profile("dell-p2711v")), "input").unwrap();
    let decoded = decode_current_value(&input, 0x0F00);
    assert_eq!(decoded.decoded_current, Some(15));
    assert_eq!(decoded.decoded_current_source, Some("high-byte"));
    assert_eq!(decoded.decoded_current_label.as_deref(), Some("dp"));
    let writeback = current_writeback_value(&input, 0x0F00, &decoded);
    assert_eq!(writeback.value, Some(15));
    assert_eq!(writeback.label.as_deref(), Some("dp"));
    assert!(writeback.safe);
    assert_eq!(writeback.reason, Some("decoded-labeled-current"));

    let low = decode_current_value(&input, 0x0111);
    assert_eq!(low.decoded_current, Some(17));
    assert_eq!(low.decoded_current_source, Some("low-byte"));
    assert_eq!(low.decoded_current_label.as_deref(), Some("hdmi-1"));
}

#[test]
fn one_byte_reading_is_written_back_exactly() {
    let input = resolve_feature(Some(profile("dell-p2711v")), "input").unwrap();
    let decoded = decode_current_value(&input, 15);
    assert_eq!(decoded.current_hex.as_deref(), Some("0x000F"));
    assert_eq!(decoded.current_high_byte, None);
    assert_eq!(decoded.decoded_current, None);
    let writeback = current_writeback_value(&input, 15, &decoded);
    assert_eq!(writeback.value, Some(15));
    assert_eq!(writeback.source, Some("raw-current"));
    assert_eq!(writeback.label.as_deref(), Some("dp"));
    assert!(writeback.safe);
    assert_eq!(writeback.reason, Some("exact-readback"));
}

#[test]
fn reading_with_two_unlabelled_bytes_has_no_candidate() {
    let brightness = resolve_feature(None, "brightness").unwrap();
    let decoded = decode_current_value(&brightness, 0x0101);
    assert_eq!(decoded.decoded_current, None);
    let writeback = current_writeback_value(&brightness, 0x0101, &decoded);
    assert_eq!(writeback.value, None);
    assert!(!writeback.safe);
    assert_eq!(writeback.reason, Some("no-writeback-candidate"));
}

#[test]
fn report_lines_of_a_packed_reading() {
    let input = resolve_feature(Some(profile("dell-v2419qw")), "input").unwrap();
    let lines = value_report_lines(&input, 768, 65535);
    assert_eq!(
        lines,
        vec![
            "current=768",
            "maximum=65535",
            "current_hex=0x0300",
            "current_high_byte=3",
            "current_low_byte=0",
            "decoded_current=3",
            "decoded_current_source=high-byte-zero-low-byte",
            "writeback_value=3",
            "writeback_source=high-byte-zero-low-byte",
            "writeback_safe=false",
            "writeback_reason=ambiguous-packed-readback",
        ]
    );
}

#[test]
fn printed_report_reads_back() {
    for (key, feature, raw) in [
        ("dell-v2419qw", "input", 768u16),
        ("dell-p2711v", "input", 0x0F00),
        ("dell-p2711v", "input", 18),
        ("dell-p2711v", "brightness", 100),
    ] {
        let resolved = resolve_feature(Some(profile(key)), feature).unwrap();
        let mut text = String::new();
        for line in value_report_lines(&resolved, raw, 100) {
            text.push_str(&line);
            text.push('\n');
        }
        let result = parse_probe_output(resolved.code, &text).unwrap();
        let decoded = decode_current_value(&resolved, raw);
        let writeback = current_writeback_value(&resolved, raw, &decoded);
        assert_eq!(result.current, raw);
        assert_eq!(result.maximum, 100);
        assert_eq!(result.current_hex, decoded.current_hex);
        assert_eq!(result.current_high_byte, decoded.current_high_byte);
        assert_eq!(result.current_low_byte, decoded.current_low_byte);
        assert_eq!(result.decoded_current, decoded.decoded_current);
        assert_eq!(result.decoded_current_source.as_deref(), decoded.decoded_current_source);
        assert_eq!(result.decoded_current_label, decoded.decoded_current_label);
        assert_eq!(result.writeback_value, writeback.value);
        assert_eq!(result.writeback_source.as_deref(), writeback.source);
        assert_eq!(result.writeback_label, writeback.label);
        assert_eq!(result.writeback_safe, writeback.safe);
        assert_eq!(result.writeback_reason.as_deref(), writeback.reason);
    }
}

#[test]
fn probe_output_tolerates_crlf_and_unknown_lines() {
    let text = "noise\r\ncurrent=5\r\nmaximum=10\r\ncurrent_label=on\r\nwriteback_safe=TRUE\r\nother=1";
    let result = parse_probe_output(0xD6, text).unwrap();
    assert_eq!(result.current, 5);
    assert_eq!(result.maximum, 10);
    assert_eq!(result.current_label.as_deref(), Some("on"));
    assert!(result.writeback_safe);
    assert_eq!(result.current_hex, None);
}

#[test]
fn later_lines_override_earlier_ones() {
    let result = parse_probe_output(0x10, "current=5\ncurrent=6\nmaximum=7\n").unwrap();
    assert_eq!(result.current, 6);
}

#[test]
fn probe_output_without_current_or_maximum_is_refused() {
    assert_eq!(
        parse_probe_output(0x10, "").unwrap_err(),
        "Invalid probe output for 0x10"
    );
    assert_eq!(
        parse_probe_output(0x0A, "current=5\n").unwrap_err(),
        "Invalid probe output for 0x0A"
    );
    assert!(parse_probe_output(0x0A, "current=5\nmaximum=x\n").is_err());
    assert!(parse_probe_output(0x0A, "current= 5\nmaximum=1\n").is_err());
}
