use monitor_helper::usb::{
    bus_lines, device_lines, disconnect_event_lines, format_bcd, format_class,
    format_controller_type, format_port_chain, format_speed, interface_line, usb_listing,
    watch_event_lines, MacBusDetails, UsbBusFacts, UsbControllerType, UsbDeviceFacts,
    UsbInterfaceFacts, UsbSpeed,
};

fn device(bus: &str, address: u8, chain: Vec<u8>, vid: u16, pid: u16) -> UsbDeviceFacts {
    UsbDeviceFacts {
        bus_id: bus.to_string(),
        device_address: address,
        port_chain: chain,
        vendor_id: vid,
        product_id: pid,
        product: Some("Widget".to_string()),
        manufacturer: None,
        serial: None,
        usb_version: 0x0200,
        device_version: 0x0110,
        class: 0x09,
        subclass: 0,
        protocol: 1,
        speed: Some(UsbSpeed::High),
        interfaces: Vec::new(),
    }
}

fn bus(id: &str) -> UsbBusFacts {
    UsbBusFacts {
        bus_id: id.to_string(),
        system_name: None,
        controller_type: Some(UsbControllerType::Xhci),
        driver: Some("xhci_hcd".to_string()),
        mac_details: None,
    }
}

fn strs(lines: &[String]) -> Vec<&str> {
    lines.iter().map(|l| l.as_str()).collect()
}

#[test]
fn port_chain_is_dotted_or_root() {
    assert_eq!(format_port_chain(&[]), "root");
    assert_eq!(format_port_chain(&[4]), "4");
    assert_eq!(format_port_chain(&[1, 2, 13]), "1.2.13");
}

#[test]
fn bcd_shows_major_minor_patch_and_raw_value() {
    assert_eq!(format_bcd(0x0210), "2.10 (0x0210)");
    assert_eq!(format_bcd(0x0300), "3.00 (0x0300)");
    assert_eq!(format_bcd(0x1234), "18.34 (0x1234)");
    assert_eq!(format_bcd(0x00ab), "0.1011 (0x00AB)");
}

#[test]
fn names_of_speeds_controllers_and_classes() {
    assert_eq!(format_speed(Some(UsbSpeed::Low)), "low");
    assert_eq!(format_speed(Some(UsbSpeed::SuperPlus)), "super+");
    assert_eq!(format_speed(Some(UsbSpeed::Other)), "unknown");
    assert_eq!(format_speed(None), "unknown");
    assert_eq!(format_controller_type(Some(UsbControllerType::Ehci)), "ehci");
    assert_eq!(format_controller_type(Some(UsbControllerType::Other)), "unknown");
    assert_eq!(format_controller_type(None), "unknown");
    assert_eq!(format_class(0x00), "per-interface");
    assert_eq!(format_class(0x09), "hub");
    assert_eq!(format_class(0xFF), "vendor-specific");
    assert_eq!(format_class(0x04), "unknown");
}

#[test]
fn bus_lines_with_and_without_platform_details() {
    let plain = bus("1");
    assert_eq!(
        strs(&bus_lines(&plain)),
        vec!["bus=1", "  system_name=unknown", "  controller_type=xhci", "  driver=xhci_hcd"]
    );
    let mut mac = bus("2");
    mac.mac_details = Some(MacBusDetails {
        class_name: "AppleT8103USBXHCI".to_string(),
        provider_class_name: "AppleT8103USBXHCIPort".to_string(),
        location_id: 0x0100_0000,
    });
    let lines = bus_lines(&mac);
    assert_eq!(lines.len(), 7);
    assert_eq!(lines[4], "  class_name=AppleT8103USBXHCI");
    assert_eq!(lines[5], "  provider_class_name=AppleT8103USBXHCIPort");
    assert_eq!(lines[6], "  location_id=0x01000000");
}

#[test]
fn interface_line_shows_every_field() {
    let interface = UsbInterfaceFacts {
        interface_number: 2,
        class: 0x03,
        subclass: 0x01,
        protocol: 0x02,
        name: None,
    };
    assert_eq!(
        interface_line(&interface),
        "    interface number=2 class=hid subclass=0x01 protocol=0x02 name=unknown"
    );
}

#[test]
fn device_lines_without_interfaces() {
    let d = device("1", 5, vec![1, 3], 0x05ac, 0x1460);
    assert_eq!(
        strs(&device_lines(&d)),
        vec![
            "  device address=5 port_chain=1.3 vid=0x05AC pid=0x1460",
            "    product=Widget",
            "    manufacturer=unknown",
            "    serial=unknown",
            "    usb_version=2.00 (0x0200)",
            "    device_version=1.10 (0x0110)",
            "    class=hub subclass=0x00 protocol=0x01",
            "    speed=high",
            "    interfaces=none",
        ]
    );
}

#[test]
fn device_lines_list_interfaces_in_order() {
    let mut d = device("1", 5, vec![], 1, 2);
    for n in 0..2u8 {
        d.interfaces.push(UsbInterfaceFacts {
            interface_number: n,
            class: 0xFF,
            subclass: 0,
            protocol: 0,
            name: Some(format!("if{n}")),
        });
    }
    let lines = device_lines(&d);
    assert_eq!(lines.len(), 10);
    assert_eq!(lines[0], "  device address=5 port_chain=root vid=0x0001 pid=0x0002");
    assert_eq!(
        lines[8],
        "    interface number=0 class=vendor-specific subclass=0x00 protocol=0x00 name=if0"
    );
    assert_eq!(
        lines[9],
        "    interface number=1 class=vendor-specific subclass=0x00 protocol=0x00 name=if1"
    );
}

#[test]
fn watch_event_reports_device_details() {
    let d = device("3", 7, vec![2], 0x1234, 0xabcd);
    assert_eq!(
        strs(&watch_event_lines("connected", 1700000000, &d)),
        vec![
            "timestamp=1700000000",
            "event=connected",
            "bus=3",
            "device_address=7",
            "port_chain=2",
            "vid=0x1234",
            "pid=0xABCD",
            "product=Widget",
            "manufacturer=unknown",
            "serial=unknown",
            "class=hub",
            "speed=high",
            "",
        ]
    );
}

#[test]
fn disconnect_of_unknown_device_has_no_details() {
    assert_eq!(
        strs(&disconnect_event_lines(0, "DeviceId(42)", None)),
        vec![
            "timestamp=0",
            "event=disconnected",
            "device_id=DeviceId(42)",
            "details=unavailable",
            "",
        ]
    );
}

#[test]
fn disconnect_of_known_device_has_details() {
    let d = device("3", 7, vec![2], 1, 2);
    let lines = disconnect_event_lines(9, "DeviceId(1)", Some(&d));
    assert_eq!(lines.len(), 14);
    assert_eq!(lines[2], "device_id=DeviceId(1)");
    assert_eq!(lines[3], "bus=3");
    assert_eq!(lines[12], "speed=high");
    assert_eq!(lines[13], "");
}

#[test]
fn listing_of_nothing() {
    assert_eq!(
        strs(&usb_listing(&Vec::new(), &Vec::new())),
        vec!["No USB buses or devices detected."]
    );
}

#[test]
fn listing_without_buses_groups_devices_by_sorted_bus_id() {
    let devices = vec![device("2", 1, vec![], 1, 1), device("1", 4, vec![], 2, 2)];
    let lines = usb_listing(&Vec::new(), &devices);
    assert_eq!(lines[0], "bus=1");
    assert_eq!(lines[1], "  controller=unknown");
    assert_eq!(lines[2], "  device address=4 port_chain=root vid=0x0002 pid=0x0002");
    assert_eq!(lines[11], "");
    assert_eq!(lines[12], "bus=2");
    assert_eq!(lines[13], "  controller=unknown");
    assert_eq!(lines[14], "  device address=1 port_chain=root vid=0x0001 pid=0x0001");
    assert_eq!(lines.len(), 23);
}

#[test]
fn listing_sorts_devices_within_a_bus() {
    let devices = vec![
        device("1", 3, vec![2], 1, 1),
        device("1", 3, vec![1, 5], 1, 1),
        device("1", 2, vec![], 9, 9),
        device("1", 3, vec![1, 5], 1, 0),
    ];
    let lines = usb_listing(&vec![bus("1")], &devices);
    let heads: Vec<&str> = lines
        .iter()
        .filter(|l| l.starts_with("  device address="))
        .map(|l| l.as_str())
        .collect();
    assert_eq!(
        heads,
        vec![
            "  device address=2 port_chain=root vid=0x0009 pid=0x0009",
            "  device address=3 port_chain=1.5 vid=0x0001 pid=0x0000",
            "  device address=3 port_chain=1.5 vid=0x0001 pid=0x0001",
            "  device address=3 port_chain=2 vid=0x0001 pid=0x0001",
        ]
    );
}

#[test]
fn listing_with_buses_marks_empty_buses_and_unmatched_devices() {
    let devices = vec![device("9", 1, vec![], 1, 1), device("1", 2, vec![], 2, 2)];
    let lines = usb_listing(&vec![bus("1"), bus("4")], &devices);
    let all = strs(&lines);
    assert_eq!(&all[0..4], &["bus=1", "  system_name=unknown", "  controller_type=xhci", "  driver=xhci_hcd"]);
    assert_eq!(all[4], "  device address=2 port_chain=root vid=0x0002 pid=0x0002");
    assert_eq!(all[13], "");
    assert_eq!(all[14], "bus=4");
    assert_eq!(all[18], "  devices=none");
    assert_eq!(all[19], "");
    assert_eq!(all[20], "unmatched_buses:");
    assert_eq!(all[21], "bus=9");
    assert_eq!(all[22], "  device address=1 port_chain=root vid=0x0001 pid=0x0001");
    assert_eq!(all.len(), 31);
}

#[test]
fn listing_shows_a_bus_named_twice_with_devices_once() {
    let devices = vec![device("1", 2, vec![], 2, 2)];
    let lines = usb_listing(&vec![bus("1"), bus("1")], &devices);
    let all = strs(&lines);
    assert_eq!(all[4], "  device address=2 port_chain=root vid=0x0002 pid=0x0002");
    assert_eq!(all[13], "");
    assert_eq!(all[14], "bus=1");
    assert_eq!(all[18], "  devices=none");
    assert_eq!(all.len(), 19);
}
