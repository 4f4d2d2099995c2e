use monitor_helper::usb::{UsbDeviceFacts, UsbSpeed};
use monitor_helper::watch::{watch_started_lines, KnownDevices};

fn device(address: u8, product: &str) -> UsbDeviceFacts {
    UsbDeviceFacts {
        bus_id: "1".to_string(),
        device_address: address,
        port_chain: vec![address],
        vendor_id: 0x1234,
        product_id: 0x5678,
        product: Some(product.to_string()),
        manufacturer: Some("Acme".to_string()),
        serial: Some("SN".to_string()),
        usb_version: 0x0200,
        device_version: 0x0100,
        class: 0x03,
        subclass: 0,
        protocol: 0,
        speed: Some(UsbSpeed::Full),
        interfaces: Vec::new(),
    }
}

#[test]
fn watch_opens_with_the_number_of_known_devices() {
    let mut known = KnownDevices::new();
    known.remember("DeviceId(1)".to_string(), device(1, "a"));
    known.remember("DeviceId(2)".to_string(), device(2, "b"));
    known.remember("DeviceId(1)".to_string(), device(1, "c"));
    assert_eq!(known.len(), 2);
    assert_eq!(
        watch_started_lines(known.len()),
        vec!["usb_watch_started=true", "known_devices=2", "waiting_for_changes=true"]
    );
}

#[test]
fn connect_then_disconnect_reports_the_connected_device() {
    let mut known = KnownDevices::new();
    let connected = known.connected("DeviceId(7)".to_string(), 100, device(7, "Keyboard"));
    assert_eq!(connected[0], "timestamp=100");
    assert_eq!(connected[1], "event=connected");
    assert_eq!(connected[7], "product=Keyboard");
    assert_eq!(known.len(), 1);

    let gone = known.disconnected("DeviceId(7)", 200);
    assert_eq!(
        gone,
        vec![
            "timestamp=200",
            "event=disconnected",
            "device_id=DeviceId(7)",
            "bus=1",
            "device_address=7",
            "port_chain=7",
            "vid=0x1234",
            "pid=0x5678",
            "product=Keyboard",
            "manufacturer=Acme",
            "serial=SN",
            "class=hid",
            "speed=full",
            "",
        ]
    );
    assert_eq!(known.len(), 0);
}

#[test]
fn second_disconnect_has_no_details() {
    let mut known = KnownDevices::new();
    known.connected("DeviceId(7)".to_string(), 1, device(7, "Keyboard"));
    known.disconnected("DeviceId(7)", 2);
    assert_eq!(
        known.disconnected("DeviceId(7)", 3),
        vec!["timestamp=3", "event=disconnected", "device_id=DeviceId(7)", "details=unavailable", ""]
    );
}

#[test]
fn reconnect_replaces_what_was_known() {
    let mut known = KnownDevices::new();
    known.connected("DeviceId(7)".to_string(), 1, device(7, "Old"));
    known.connected("DeviceId(8)".to_string(), 1, device(8, "Other"));
    known.connected("DeviceId(7)".to_string(), 2, device(7, "New"));
    assert_eq!(known.len(), 2);
    assert_eq!(known.forget("DeviceId(7)").unwrap().product.as_deref(), Some("New"));
    assert_eq!(known.forget("DeviceId(8)").unwrap().product.as_deref(), Some("Other"));
    assert!(known.forget("DeviceId(8)").is_none());
}
