//! The USB report: how buses, devices, interfaces and hot-plug events are
//! shown, and how devices are grouped under their buses and ordered.

use vstd::prelude::*;

use crate::lines::{append_lines, cat2, push_line};
use crate::readback::{chars_seqs_view, strings_view};
use crate::tables::fingerprint;
use crate::text::{chars_eq, chars_of, string_of};
use crate::text::{
    decimal, decimal_string, hex_padded, join, join_strings, owned, push_decimal, push_hex,
};

verus! {

/// A USB link speed.
#[derive(Clone, Copy, Debug, PartialEq, Eq, Structural)]
pub enum UsbSpeed {
    Low,
    Full,
    High,
    Super,
    SuperPlus,
    /// A speed that this report has no name for.
    Other,
}

/// A USB host controller interface.
#[derive(Clone, Copy, Debug, PartialEq, Eq, Structural)]
pub enum UsbControllerType {
    Xhci,
    Ehci,
    Ohci,
    Uhci,
    Vhci,
    /// A controller type that this report has no name for.
    Other,
}

/// Details of a bus that only macOS reports.
#[derive(Debug)]
pub struct MacBusDetails {
    pub class_name: String,
    pub provider_class_name: String,
    pub location_id: u32,
}

/// What the report shows of a USB bus.
#[derive(Debug)]
pub struct UsbBusFacts {
    pub bus_id: String,
    pub system_name: Option<String>,
    pub controller_type: Option<UsbControllerType>,
    pub driver: Option<String>,
    pub mac_details: Option<MacBusDetails>,
}

/// What the report shows of a USB interface.
#[derive(Debug)]
pub struct UsbInterfaceFacts {
    pub interface_number: u8,
    pub class: u8,
    pub subclass: u8,
    pub protocol: u8,
    pub name: Option<String>,
}

/// What the report shows of a USB device.
#[derive(Debug)]
pub struct UsbDeviceFacts {
    pub bus_id: String,
    pub device_address: u8,
    pub port_chain: Vec<u8>,
    pub vendor_id: u16,
    pub product_id: u16,
    pub product: Option<String>,
    pub manufacturer: Option<String>,
    pub serial: Option<String>,
    pub usb_version: u16,
    pub device_version: u16,
    pub class: u8,
    pub subclass: u8,
    pub protocol: u8,
    pub speed: Option<UsbSpeed>,
    pub interfaces: Vec<UsbInterfaceFacts>,
}

// ---------------------------------------------------------------------
// Formatting of single values
// ---------------------------------------------------------------------

/// `0x` followed by `width` upper-case hex digits at least.
pub open spec fn hex_text(n: nat, width: nat) -> Seq<char> {
    "0x"@ + hex_padded(n, width)
}

fn hex_string(n: u64, width: u64) -> (r: String)
    requires
        width <= 16,
    ensures
        r@ == hex_text(n as nat, width as nat),
{
    let mut s = owned("0x");
    push_hex(&mut s, n, width);
    s
}

/// A port chain as dotted port numbers, or `root` when empty.
pub open spec fn spec_port_chain(chain: Seq<u8>) -> Seq<char> {
    if chain.len() == 0 {
        "root"@
    } else {
        join(chain.map_values(|p: u8| decimal(p as nat)), "."@)
    }
}

/// Shows a port chain as dotted port numbers, or `root` when empty.
pub fn format_port_chain(port_chain: &[u8]) -> (r: String)
    ensures
        r@ == spec_port_chain(port_chain@),
{
    if port_chain.len() == 0 {
        return owned("root");
    }
    let mut parts: Vec<String> = Vec::new();
    let mut i: usize = 0;
    while i < port_chain.len()
        invariant
            i <= port_chain@.len(),
            strings_view(parts@) == port_chain@.take(i as int).map_values(|p: u8| decimal(p as nat)),
        decreases port_chain@.len() - i,
    {
        let ghost before = strings_view(parts@);
        let part = decimal_string(port_chain[i] as u64);
        parts.push(part);
        assert(strings_view(parts@) =~= before.push(decimal(port_chain@[i as int] as nat)));
        assert(port_chain@.take(i + 1) =~= port_chain@.take(i as int).push(port_chain@[i as int]));
        assert(strings_view(parts@) =~= port_chain@.take(i + 1).map_values(|p: u8| decimal(p as nat)));
        i = i + 1;
    }
    assert(port_chain@.take(port_chain@.len() as int) =~= port_chain@);
    assert(strings_view(parts@) == parts@.map_values(|p: String| p@));
    join_strings(&parts, ".")
}

/// A binary-coded version: major, then minor and patch digits, then the
/// raw value in hex, as in `2.10 (0x0210)`.
pub open spec fn spec_bcd(value: u16) -> Seq<char> {
    decimal((value / 256) as nat) + "."@ + decimal(((value / 16) % 16) as nat) + decimal((value % 16) as nat)
        + " ("@ + hex_text(value as nat, 4) + ")"@
}

/// Shows a binary-coded version (see [`spec_bcd`]).
pub fn format_bcd(value: u16) -> (r: String)
    ensures
        r@ == spec_bcd(value),
{
    let major: u16 = (value >> 8) & 0xff;
    let minor: u16 = (value >> 4) & 0x0f;
    let patch: u16 = value & 0x0f;
    assert(major == value / 256 && minor == (value / 16) % 16 && patch == value % 16) by (bit_vector)
        requires
            major == (value >> 8) & 0xff,
            minor == (value >> 4) & 0x0f,
            patch == value & 0x0f,
    ;
    let mut s = decimal_string(major as u64);
    s.append(".");
    push_decimal(&mut s, minor as u64);
    push_decimal(&mut s, patch as u64);
    s.append(" (");
    s.append(hex_string(value as u64, 4).as_str());
    s.append(")");
    s
}

pub open spec fn spec_speed_name(speed: Option<UsbSpeed>) -> Seq<char> {
    match speed {
        Some(UsbSpeed::Low) => "low"@,
        Some(UsbSpeed::Full) => "full"@,
        Some(UsbSpeed::High) => "high"@,
        Some(UsbSpeed::Super) => "super"@,
        Some(UsbSpeed::SuperPlus) => "super+"@,
        _ => "unknown"@,
    }
}

/// The name of a link speed.
pub fn format_speed(speed: Option<UsbSpeed>) -> (r: &'static str)
    ensures
        r@ == spec_speed_name(speed),
{
    match speed {
        Some(UsbSpeed::Low) => "low",
        Some(UsbSpeed::Full) => "full",
        Some(UsbSpeed::High) => "high",
        Some(UsbSpeed::Super) => "super",
        Some(UsbSpeed::SuperPlus) => "super+",
        _ => "unknown",
    }
}

pub open spec fn spec_controller_type_name(t: Option<UsbControllerType>) -> Seq<char> {
    match t {
        Some(UsbControllerType::Xhci) => "xhci"@,
        Some(UsbControllerType::Ehci) => "ehci"@,
        Some(UsbControllerType::Ohci) => "ohci"@,
        Some(UsbControllerType::Uhci) => "uhci"@,
        Some(UsbControllerType::Vhci) => "vhci"@,
        _ => "unknown"@,
    }
}

/// The name of a host controller interface.
pub fn format_controller_type(controller_type: Option<UsbControllerType>) -> (r: &'static str)
    ensures
        r@ == spec_controller_type_name(controller_type),
{
    match controller_type {
        Some(UsbControllerType::Xhci) => "xhci",
        Some(UsbControllerType::Ehci) => "ehci",
        Some(UsbControllerType::Ohci) => "ohci",
        Some(UsbControllerType::Uhci) => "uhci",
        Some(UsbControllerType::Vhci) => "vhci",
        _ => "unknown",
    }
}

/// The name of a USB class code.
pub open spec fn spec_class_name(class: u8) -> Seq<char> {
    if class == 0x00 {
        "per-interface"@
    } else if class == 0x01 {
        "audio"@
    } else if class == 0x02 {
        "communications"@
    } else if class == 0x03 {
        "hid"@
    } else if class == 0x05 {
        "physical"@
    } else if class == 0x06 {
        "image"@
    } else if class == 0x07 {
        "printer"@
    } else if class == 0x08 {
        "mass-storage"@
    } else if class == 0x09 {
        "hub"@
    } else if class == 0x0A {
        "cdc-data"@
    } else if class == 0x0B {
        "smart-card"@
    } else if class == 0x0D {
        "content-security"@
    } else if class == 0x0E {
        "video"@
    } else if class == 0x0F {
        "personal-healthcare"@
    } else if class == 0x10 {
        "audio-video"@
    } else if class == 0x11 {
        "billboard"@
    } else if class == 0x12 {
        "usb-type-c-bridge"@
    } else if class == 0xDC {
        "diagnostic"@
    } else if class == 0xE0 {
        "wireless"@
    } else if class == 0xEF {
        "miscellaneous"@
    } else if class == 0xFE {
        "application-specific"@
    } else if class == 0xFF {
        "vendor-specific"@
    } else {
        "unknown"@
    }
}

/// The name of a USB class code.
pub fn format_class(class: u8) -> (r: &'static str)
    ensures
        r@ == spec_class_name(class),
{
    match class {
        0x00 => "per-interface",
        0x01 => "audio",
        0x02 => "communications",
        0x03 => "hid",
        0x05 => "physical",
        0x06 => "image",
        0x07 => "printer",
        0x08 => "mass-storage",
        0x09 => "hub",
        0x0A => "cdc-data",
        0x0B => "smart-card",
        0x0D => "content-security",
        0x0E => "video",
        0x0F => "personal-healthcare",
        0x10 => "audio-video",
        0x11 => "billboard",
        0x12 => "usb-type-c-bridge",
        0xDC => "diagnostic",
        0xE0 => "wireless",
        0xEF => "miscellaneous",
        0xFE => "application-specific",
        0xFF => "vendor-specific",
        _ => "unknown",
    }
}

// ---------------------------------------------------------------------
// Buses, devices, interfaces and events
// ---------------------------------------------------------------------

pub open spec fn or_unknown(v: Option<String>) -> Seq<char> {
    match v {
        Some(t) => t@,
        None => "unknown"@,
    }
}

fn str_or_unknown<'a>(v: &'a Option<String>) -> (r: &'a str)
    ensures
        r@ == or_unknown(*v),
{
    match v {
        Some(t) => t.as_str(),
        None => "unknown",
    }
}

/// The lines that show a bus.
pub open spec fn spec_bus_lines(b: UsbBusFacts) -> Seq<Seq<char>> {
    seq![
        "bus="@ + b.bus_id@,
        "  system_name="@ + or_unknown(b.system_name),
        "  controller_type="@ + spec_controller_type_name(b.controller_type),
        "  driver="@ + or_unknown(b.driver),
    ] + match b.mac_details {
        Some(m) => seq![
            "  class_name="@ + m.class_name@,
            "  provider_class_name="@ + m.provider_class_name@,
            "  location_id="@ + hex_text(m.location_id as nat, 8),
        ],
        None => Seq::empty(),
    }
}

/// The lines that show a bus (see [`spec_bus_lines`]).
pub fn bus_lines(bus: &UsbBusFacts) -> (r: Vec<String>)
    ensures
        strings_view(r@) == spec_bus_lines(*bus),
{
    let mut lines: Vec<String> = Vec::new();
    push_line(&mut lines, cat2("bus=", bus.bus_id.as_str()));
    push_line(&mut lines, cat2("  system_name=", str_or_unknown(&bus.system_name)));
    push_line(&mut lines, cat2("  controller_type=", format_controller_type(bus.controller_type)));
    push_line(&mut lines, cat2("  driver=", str_or_unknown(&bus.driver)));
    let ghost l0 = strings_view(lines@);
    if let Some(m) = &bus.mac_details {
        push_line(&mut lines, cat2("  class_name=", m.class_name.as_str()));
        push_line(&mut lines, cat2("  provider_class_name=", m.provider_class_name.as_str()));
        push_line(&mut lines, cat2("  location_id=", hex_string(m.location_id as u64, 8).as_str()));
    }
    assert(strings_view(lines@) =~= spec_bus_lines(*bus));
    lines
}

/// The line that shows an interface.
pub open spec fn spec_interface_line(i: UsbInterfaceFacts) -> Seq<char> {
    "    interface number="@ + decimal(i.interface_number as nat) + " class="@ + spec_class_name(i.class)
        + " subclass="@ + hex_text(i.subclass as nat, 2) + " protocol="@ + hex_text(i.protocol as nat, 2)
        + " name="@ + or_unknown(i.name)
}

/// The line that shows an interface (see [`spec_interface_line`]).
pub fn interface_line(interface: &UsbInterfaceFacts) -> (r: String)
    ensures
        r@ == spec_interface_line(*interface),
{
    let mut s = owned("    interface number=");
    s.append(decimal_string(interface.interface_number as u64).as_str());
    s.append(" class=");
    s.append(format_class(interface.class));
    s.append(" subclass=");
    s.append(hex_string(interface.subclass as u64, 2).as_str());
    s.append(" protocol=");
    s.append(hex_string(interface.protocol as u64, 2).as_str());
    s.append(" name=");
    s.append(str_or_unknown(&interface.name));
    s
}

pub open spec fn interface_lines(is: Seq<UsbInterfaceFacts>) -> Seq<Seq<char>> {
    is.map_values(|i: UsbInterfaceFacts| spec_interface_line(i))
}

/// The lines that show a device, its interfaces included.
pub open spec fn spec_device_lines(d: UsbDeviceFacts) -> Seq<Seq<char>> {
    seq![
        "  device address="@ + decimal(d.device_address as nat) + " port_chain="@ + spec_port_chain(d.port_chain@)
            + " vid="@ + hex_text(d.vendor_id as nat, 4) + " pid="@ + hex_text(d.product_id as nat, 4),
        "    product="@ + or_unknown(d.product),
        "    manufacturer="@ + or_unknown(d.manufacturer),
        "    serial="@ + or_unknown(d.serial),
        "    usb_version="@ + spec_bcd(d.usb_version),
        "    device_version="@ + spec_bcd(d.device_version),
        "    class="@ + spec_class_name(d.class) + " subclass="@ + hex_text(d.subclass as nat, 2) + " protocol="@
            + hex_text(d.protocol as nat, 2),
        "    speed="@ + spec_speed_name(d.speed),
    ] + if d.interfaces@.len() == 0 {
        seq!["    interfaces=none"@]
    } else {
        interface_lines(d.interfaces@)
    }
}

/// The lines that show a device (see [`spec_device_lines`]).
pub fn device_lines(device: &UsbDeviceFacts) -> (r: Vec<String>)
    ensures
        strings_view(r@) == spec_device_lines(*device),
{
    let mut lines: Vec<String> = Vec::new();
    let mut first = owned("  device address=");
    first.append(decimal_string(device.device_address as u64).as_str());
    first.append(" port_chain=");
    first.append(format_port_chain(device.port_chain.as_slice()).as_str());
    first.append(" vid=");
    first.append(hex_string(device.vendor_id as u64, 4).as_str());
    first.append(" pid=");
    first.append(hex_string(device.product_id as u64, 4).as_str());
    push_line(&mut lines, first);
    push_line(&mut lines, cat2("    product=", str_or_unknown(&device.product)));
    push_line(&mut lines, cat2("    manufacturer=", str_or_unknown(&device.manufacturer)));
    push_line(&mut lines, cat2("    serial=", str_or_unknown(&device.serial)));
    push_line(&mut lines, cat2("    usb_version=", format_bcd(device.usb_version).as_str()));
    push_line(&mut lines, cat2("    device_version=", format_bcd(device.device_version).as_str()));
    let mut class_line = owned("    class=");
    class_line.append(format_class(device.class));
    class_line.append(" subclass=");
    class_line.append(hex_string(device.subclass as u64, 2).as_str());
    class_line.append(" protocol=");
    class_line.append(hex_string(device.protocol as u64, 2).as_str());
    push_line(&mut lines, class_line);
    push_line(&mut lines, cat2("    speed=", format_speed(device.speed)));
    let ghost head = strings_view(lines@);
    if device.interfaces.len() == 0 {
        push_line(&mut lines, owned("    interfaces=none"));
    } else {
        let mut i: usize = 0;
        while i < device.interfaces.len()
            invariant
                i <= device.interfaces@.len(),
                strings_view(lines@) == head + interface_lines(device.interfaces@.take(i as int)),
            decreases device.interfaces@.len() - i,
        {
            push_line(&mut lines, interface_line(&device.interfaces[i]));
            assert(device.interfaces@.take(i + 1) =~= device.interfaces@.take(i as int).push(
                device.interfaces@[i as int],
            ));
            assert(strings_view(lines@) =~= head + interface_lines(device.interfaces@.take(i + 1)));
            i = i + 1;
        }
        assert(device.interfaces@.take(device.interfaces@.len() as int) =~= device.interfaces@);
    }
    assert(strings_view(lines@) =~= spec_device_lines(*device));
    lines
}

/// The details of a device that an event shows.
pub open spec fn event_details(d: UsbDeviceFacts) -> Seq<Seq<char>> {
    seq![
        "bus="@ + d.bus_id@,
        "device_address="@ + decimal(d.device_address as nat),
        "port_chain="@ + spec_port_chain(d.port_chain@),
        "vid="@ + hex_text(d.vendor_id as nat, 4),
        "pid="@ + hex_text(d.product_id as nat, 4),
        "product="@ + or_unknown(d.product),
        "manufacturer="@ + or_unknown(d.manufacturer),
        "serial="@ + or_unknown(d.serial),
        "class="@ + spec_class_name(d.class),
        "speed="@ + spec_speed_name(d.speed),
    ]
}

fn event_detail_lines(lines: &mut Vec<String>, device: &UsbDeviceFacts)
    ensures
        strings_view(final(lines)@) == strings_view(old(lines)@) + event_details(*device),
{
    let ghost before = strings_view(lines@);
    push_line(lines, cat2("bus=", device.bus_id.as_str()));
    push_line(lines, cat2("device_address=", decimal_string(device.device_address as u64).as_str()));
    push_line(lines, cat2("port_chain=", format_port_chain(device.port_chain.as_slice()).as_str()));
    push_line(lines, cat2("vid=", hex_string(device.vendor_id as u64, 4).as_str()));
    push_line(lines, cat2("pid=", hex_string(device.product_id as u64, 4).as_str()));
    push_line(lines, cat2("product=", str_or_unknown(&device.product)));
    push_line(lines, cat2("manufacturer=", str_or_unknown(&device.manufacturer)));
    push_line(lines, cat2("serial=", str_or_unknown(&device.serial)));
    push_line(lines, cat2("class=", format_class(device.class)));
    push_line(lines, cat2("speed=", format_speed(device.speed)));
    assert(strings_view(lines@) =~= before + event_details(*device));
}

/// The lines that report a device that appeared (or any named event).
pub open spec fn spec_watch_event_lines(event: Seq<char>, timestamp: u64, d: UsbDeviceFacts) -> Seq<Seq<char>> {
    seq!["timestamp="@ + decimal(timestamp as nat), "event="@ + event] + event_details(d) + seq![Seq::<char>::empty()]
}

/// The lines that report a hot-plug event of a known device; the last one
/// is empty.
pub fn watch_event_lines(event: &str, timestamp: u64, device: &UsbDeviceFacts) -> (r: Vec<String>)
    ensures
        strings_view(r@) == spec_watch_event_lines(event@, timestamp, *device),
{
    let mut lines: Vec<String> = Vec::new();
    push_line(&mut lines, cat2("timestamp=", decimal_string(timestamp).as_str()));
    push_line(&mut lines, cat2("event=", event));
    assert(strings_view(lines@) =~= seq!["timestamp="@ + decimal(timestamp as nat), "event="@ + event@]);
    event_detail_lines(&mut lines, device);
    push_line(&mut lines, String::new());
    lines
}

/// The lines that report a disconnected device: its identifier, and its
/// details when it was known; the last one is empty.
pub open spec fn spec_disconnect_lines(timestamp: u64, device_id: Seq<char>, d: Option<UsbDeviceFacts>) -> Seq<Seq<char>> {
    seq!["timestamp="@ + decimal(timestamp as nat), "event=disconnected"@, "device_id="@ + device_id] + match d {
        Some(d) => event_details(d),
        None => seq!["details=unavailable"@],
    } + seq![Seq::<char>::empty()]
}

/// The lines that report a disconnected device (see
/// [`spec_disconnect_lines`]).
pub fn disconnect_event_lines(timestamp: u64, device_id: &str, device: Option<&UsbDeviceFacts>) -> (r: Vec<String>)
    ensures
        strings_view(r@) == spec_disconnect_lines(
            timestamp,
            device_id@,
            match device {
                Some(d) => Some(*d),
                None => None,
            },
        ),
{
    let mut lines: Vec<String> = Vec::new();
    push_line(&mut lines, cat2("timestamp=", decimal_string(timestamp).as_str()));
    push_line(&mut lines, owned("event=disconnected"));
    push_line(&mut lines, cat2("device_id=", device_id));
    let ghost head = strings_view(lines@);
    assert(head =~= seq!["timestamp="@ + decimal(timestamp as nat), "event=disconnected"@, "device_id="@ + device_id@]);
    match device {
        Some(d) => event_detail_lines(&mut lines, d),
        None => push_line(&mut lines, owned("details=unavailable")),
    }
    push_line(&mut lines, String::new());
    assert(strings_view(lines@) =~= spec_disconnect_lines(
        timestamp,
        device_id@,
        match device {
            Some(d) => Some(*d),
            None => None,
        },
    ));
    lines
}

// ---------------------------------------------------------------------
// Grouping devices under buses
// ---------------------------------------------------------------------

/// The order of `String`: lexicographic by character (UTF-8 byte order
/// and code point order agree).
pub open spec fn text_lt(a: Seq<char>, b: Seq<char>) -> bool
    decreases a.len(),
{
    if a.len() == 0 {
        b.len() > 0
    } else if b.len() == 0 {
        false
    } else if a[0] != b[0] {
        a[0] < b[0]
    } else {
        text_lt(a.drop_first(), b.drop_first())
    }
}

/// The order of byte slices: lexicographic.
pub open spec fn bytes_lt(a: Seq<u8>, b: Seq<u8>) -> bool
    decreases a.len(),
{
    if a.len() == 0 {
        b.len() > 0
    } else if b.len() == 0 {
        false
    } else if a[0] != b[0] {
        a[0] < b[0]
    } else {
        bytes_lt(a.drop_first(), b.drop_first())
    }
}

/// The order of devices on a bus: by address, then port chain, vendor and
/// product.
pub open spec fn device_before(a: UsbDeviceFacts, b: UsbDeviceFacts) -> bool {
    ||| a.device_address < b.device_address
    ||| a.device_address == b.device_address && bytes_lt(a.port_chain@, b.port_chain@)
    ||| a.device_address == b.device_address && a.port_chain@ == b.port_chain@ && a.vendor_id < b.vendor_id
    ||| a.device_address == b.device_address && a.port_chain@ == b.port_chain@ && a.vendor_id == b.vendor_id
        && a.product_id < b.product_id
}

/// Device `i` put into `sorted`, after every device that does not come
/// after it: one step of a stable sort.
pub open spec fn insert_by_order(ds: Seq<UsbDeviceFacts>, sorted: Seq<usize>, i: usize) -> Seq<usize>
    decreases sorted.len(),
{
    if sorted.len() == 0 {
        seq![i]
    } else if device_before(ds[i as int], ds[sorted.last() as int]) {
        insert_by_order(ds, sorted.drop_last(), i).push(sorted.last())
    } else {
        sorted.push(i)
    }
}

/// The devices `idx` in device order, devices that compare equal keeping
/// their order (the stable sort of `sort_by`).
pub open spec fn sort_by_order(ds: Seq<UsbDeviceFacts>, idx: Seq<usize>) -> Seq<usize>
    decreases idx.len(),
{
    if idx.len() == 0 {
        Seq::empty()
    } else {
        insert_by_order(ds, sort_by_order(ds, idx.drop_last()), idx.last())
    }
}

/// The positions, among the first `n` devices, of those on bus `id`.
pub open spec fn members(ds: Seq<UsbDeviceFacts>, id: Seq<char>, n: int) -> Seq<usize>
    decreases n,
{
    if n <= 0 {
        Seq::empty()
    } else if ds[n - 1].bus_id@ == id {
        members(ds, id, n - 1).push((n - 1) as usize)
    } else {
        members(ds, id, n - 1)
    }
}

/// The devices of bus `id`, in device order.
pub open spec fn group(ds: Seq<UsbDeviceFacts>, id: Seq<char>) -> Seq<usize> {
    sort_by_order(ds, members(ds, id, ds.len() as int))
}

/// `id` put into the ascending, duplicate-free `sorted`.
pub open spec fn insert_id(sorted: Seq<Seq<char>>, id: Seq<char>) -> Seq<Seq<char>>
    decreases sorted.len(),
{
    if sorted.len() == 0 {
        seq![id]
    } else if sorted.last() == id {
        sorted
    } else if text_lt(id, sorted.last()) {
        insert_id(sorted.drop_last(), id).push(sorted.last())
    } else {
        sorted.push(id)
    }
}

/// The bus identifiers of the first `n` devices, once each, in ascending
/// order (the keys of a `BTreeMap`).
pub open spec fn bus_ids(ds: Seq<UsbDeviceFacts>, n: int) -> Seq<Seq<char>>
    decreases n,
{
    if n <= 0 {
        Seq::empty()
    } else {
        insert_id(bus_ids(ds, n - 1), ds[n - 1].bus_id@)
    }
}

/// The lines of the devices `g`, in that order.
pub open spec fn devices_block(ds: Seq<UsbDeviceFacts>, g: Seq<usize>) -> Seq<Seq<char>>
    decreases g.len(),
{
    if g.len() == 0 {
        Seq::empty()
    } else {
        devices_block(ds, g.drop_last()) + spec_device_lines(ds[g.last() as int])
    }
}

/// Without any bus reported: one section per bus identifier of the devices,
/// separated by empty lines.
pub open spec fn unknown_bus_sections(ds: Seq<UsbDeviceFacts>, ids: Seq<Seq<char>>) -> Seq<Seq<char>>
    decreases ids.len(),
{
    if ids.len() == 0 {
        Seq::empty()
    } else {
        unknown_bus_sections(ds, ids.drop_last()) + (if ids.len() > 1 {
            seq![Seq::<char>::empty()]
        } else {
            Seq::empty()
        }) + seq!["bus="@ + ids.last(), "  controller=unknown"@] + devices_block(ds, group(ds, ids.last()))
    }
}

/// Some of the first `k` buses has identifier `id`.
pub open spec fn bus_named(buses: Seq<UsbBusFacts>, k: int, id: Seq<char>) -> bool {
    exists|j: int| 0 <= j < k && buses[j].bus_id@ == id
}

/// The section of bus `k`: the bus, then its devices, unless no device is
/// on it or an earlier bus with the same identifier took them.
pub open spec fn bus_section(buses: Seq<UsbBusFacts>, ds: Seq<UsbDeviceFacts>, ids: Seq<Seq<char>>, k: int) -> Seq<Seq<char>> {
    let id = buses[k].bus_id@;
    (if k > 0 {
        seq![Seq::<char>::empty()]
    } else {
        Seq::empty()
    }) + spec_bus_lines(buses[k]) + (if ids.contains(id) && !bus_named(buses, k, id) {
        devices_block(ds, group(ds, id))
    } else {
        seq!["  devices=none"@]
    })
}

pub open spec fn bus_sections(buses: Seq<UsbBusFacts>, ds: Seq<UsbDeviceFacts>, ids: Seq<Seq<char>>, k: int) -> Seq<Seq<char>>
    decreases k,
{
    if k <= 0 {
        Seq::empty()
    } else {
        bus_sections(buses, ds, ids, k - 1) + bus_section(buses, ds, ids, k - 1)
    }
}

/// The bus identifiers among the first `n` of `ids` that no bus has.
pub open spec fn unmatched_ids(ids: Seq<Seq<char>>, buses: Seq<UsbBusFacts>, n: int) -> Seq<Seq<char>>
    decreases n,
{
    if n <= 0 {
        Seq::empty()
    } else if bus_named(buses, buses.len() as int, ids[n - 1]) {
        unmatched_ids(ids, buses, n - 1)
    } else {
        unmatched_ids(ids, buses, n - 1).push(ids[n - 1])
    }
}

pub open spec fn unmatched_sections(ds: Seq<UsbDeviceFacts>, um: Seq<Seq<char>>) -> Seq<Seq<char>>
    decreases um.len(),
{
    if um.len() == 0 {
        Seq::empty()
    } else {
        unmatched_sections(ds, um.drop_last()) + seq!["bus="@ + um.last()] + devices_block(ds, group(ds, um.last()))
    }
}

/// The USB report: each bus with the devices on it, then the devices whose
/// bus was not reported; or, with no bus reported, the devices by bus
/// identifier.
pub open spec fn spec_usb_listing(buses: Seq<UsbBusFacts>, ds: Seq<UsbDeviceFacts>) -> Seq<Seq<char>> {
    let ids = bus_ids(ds, ds.len() as int);
    if buses.len() == 0 && ds.len() == 0 {
        seq!["No USB buses or devices detected."@]
    } else if buses.len() == 0 {
        unknown_bus_sections(ds, ids)
    } else {
        let um = unmatched_ids(ids, buses, ids.len() as int);
        bus_sections(buses, ds, ids, buses.len() as int) + (if um.len() > 0 {
            seq![Seq::<char>::empty(), "unmatched_buses:"@] + unmatched_sections(ds, um)
        } else {
            Seq::empty()
        })
    }
}

fn text_less(a: &Vec<char>, b: &Vec<char>) -> (r: bool)
    ensures
        r == text_lt(a@, b@),
{
    let mut i: usize = 0;
    assert(a@.skip(0) =~= a@);
    assert(b@.skip(0) =~= b@);
    loop
        invariant
            i <= a@.len(),
            i <= b@.len(),
            text_lt(a@, b@) == text_lt(a@.skip(i as int), b@.skip(i as int)),
        decreases a@.len() - i,
    {
        if i == a.len() {
            return b.len() > i;
        }
        if i == b.len() {
            return false;
        }
        assert(a@.skip(i as int)[0] == a@[i as int]);
        assert(b@.skip(i as int)[0] == b@[i as int]);
        if a[i] != b[i] {
            return a[i] < b[i];
        }
        assert(a@.skip(i as int).drop_first() =~= a@.skip(i + 1));
        assert(b@.skip(i as int).drop_first() =~= b@.skip(i + 1));
        i = i + 1;
    }
}

fn bytes_less(a: &Vec<u8>, b: &Vec<u8>) -> (r: bool)
    ensures
        r == bytes_lt(a@, b@),
{
    let mut i: usize = 0;
    assert(a@.skip(0) =~= a@);
    assert(b@.skip(0) =~= b@);
    loop
        invariant
            i <= a@.len(),
            i <= b@.len(),
            bytes_lt(a@, b@) == bytes_lt(a@.skip(i as int), b@.skip(i as int)),
        decreases a@.len() - i,
    {
        if i == a.len() {
            return b.len() > i;
        }
        if i == b.len() {
            return false;
        }
        assert(a@.skip(i as int)[0] == a@[i as int]);
        assert(b@.skip(i as int)[0] == b@[i as int]);
        if a[i] != b[i] {
            return a[i] < b[i];
        }
        assert(a@.skip(i as int).drop_first() =~= a@.skip(i + 1));
        assert(b@.skip(i as int).drop_first() =~= b@.skip(i + 1));
        i = i + 1;
    }
}

fn bytes_equal(a: &Vec<u8>, b: &Vec<u8>) -> (r: bool)
    ensures
        r == (a@ == b@),
{
    if a.len() != b.len() {
        return false;
    }
    let mut i: usize = 0;
    while i < a.len()
        invariant
            a@.len() == b@.len(),
            i <= a@.len(),
            forall|k: int| 0 <= k < i ==> a@[k] == b@[k],
        decreases a@.len() - i,
    {
        if a[i] != b[i] {
            return false;
        }
        i = i + 1;
    }
    assert(a@ =~= b@);
    true
}

proof fn lemma_bytes_lt_irreflexive(a: Seq<u8>)
    ensures
        !bytes_lt(a, a),
    decreases a.len(),
{
    if a.len() > 0 {
        lemma_bytes_lt_irreflexive(a.drop_first());
    }
}

fn device_comes_before(a: &UsbDeviceFacts, b: &UsbDeviceFacts) -> (r: bool)
    ensures
        r == device_before(*a, *b),
{
    proof {
        lemma_bytes_lt_irreflexive(a.port_chain@);
    }
    if a.device_address != b.device_address {
        return a.device_address < b.device_address;
    }
    if !bytes_equal(&a.port_chain, &b.port_chain) {
        return bytes_less(&a.port_chain, &b.port_chain);
    }
    if a.vendor_id != b.vendor_id {
        return a.vendor_id < b.vendor_id;
    }
    a.product_id < b.product_id
}

pub open spec fn all_below(s: Seq<usize>, n: int) -> bool {
    forall|k: int| 0 <= k < s.len() ==> #[trigger] s[k] < n
}

fn insert_sorted(ds: &Vec<UsbDeviceFacts>, sorted: Vec<usize>, i: usize) -> (r: Vec<usize>)
    requires
        i < ds@.len(),
        all_below(sorted@, ds@.len() as int),
    ensures
        r@ == insert_by_order(ds@, sorted@, i),
        all_below(r@, ds@.len() as int),
    decreases sorted@.len(),
{
    let mut sorted = sorted;
    if sorted.len() == 0 {
        let mut r: Vec<usize> = Vec::new();
        r.push(i);
        return r;
    }
    let ghost before = sorted@;
    let last = sorted.pop().unwrap();
    assert(sorted@ == before.drop_last() && last == before.last());
    assert(all_below(sorted@, ds@.len() as int)) by {
        assert forall|k: int| 0 <= k < sorted@.len() implies #[trigger] sorted@[k] < ds@.len() by {
            assert(sorted@[k] == before[k]);
        }
    }
    assert(before[before.len() - 1] < ds@.len());
    if device_comes_before(&ds[i], &ds[last]) {
        let mut r = insert_sorted(ds, sorted, i);
        r.push(last);
        assert(all_below(r@, ds@.len() as int)) by {
            assert forall|k: int| 0 <= k < r@.len() implies #[trigger] r@[k] < ds@.len() by {
                if k < r@.len() - 1 {
                    assert(r@[k] == r@.drop_last()[k]);
                }
            }
        }
        r
    } else {
        sorted.push(last);
        sorted.push(i);
        assert(sorted@ =~= before.push(i));
        sorted
    }
}

fn insert_id_exec(sorted: Vec<Vec<char>>, id: Vec<char>) -> (r: Vec<Vec<char>>)
    ensures
        chars_seqs_view(r@) == insert_id(chars_seqs_view(sorted@), id@),
    decreases sorted@.len(),
{
    let mut sorted = sorted;
    let ghost before = chars_seqs_view(sorted@);
    if sorted.len() == 0 {
        let mut r: Vec<Vec<char>> = Vec::new();
        r.push(id);
        assert(chars_seqs_view(r@) =~= seq![id@]);
        return r;
    }
    let last = sorted.pop().unwrap();
    assert(chars_seqs_view(sorted@) =~= before.drop_last());
    assert(last@ == before.last());
    if chars_eq(&last, &id) {
        sorted.push(last);
        assert(chars_seqs_view(sorted@) =~= before);
        return sorted;
    }
    if text_less(&id, &last) {
        let mut r = insert_id_exec(sorted, id);
        let ghost rv = chars_seqs_view(r@);
        r.push(last);
        assert(chars_seqs_view(r@) =~= rv.push(before.last()));
        r
    } else {
        sorted.push(last);
        sorted.push(id);
        assert(chars_seqs_view(sorted@) =~= before.push(id@));
        sorted
    }
}

/// The devices of bus `id`, in device order.
fn group_exec(ds: &Vec<UsbDeviceFacts>, id: &Vec<char>) -> (r: Vec<usize>)
    ensures
        r@ == group(ds@, id@),
        all_below(r@, ds@.len() as int),
{
    let mut found: Vec<usize> = Vec::new();
    let mut i: usize = 0;
    while i < ds.len()
        invariant
            i <= ds@.len(),
            found@ == members(ds@, id@, i as int),
            all_below(found@, i as int),
        decreases ds@.len() - i,
    {
        if chars_eq(&chars_of(ds[i].bus_id.as_str()), id) {
            found.push(i);
        }
        i = i + 1;
    }
    let mut sorted: Vec<usize> = Vec::new();
    let mut k: usize = 0;
    while k < found.len()
        invariant
            k <= found@.len(),
            found@ == members(ds@, id@, ds@.len() as int),
            all_below(found@, ds@.len() as int),
            sorted@ == sort_by_order(ds@, found@.take(k as int)),
            all_below(sorted@, ds@.len() as int),
        decreases found@.len() - k,
    {
        assert(found@.take(k + 1).drop_last() =~= found@.take(k as int));
        assert(found@.take(k + 1).last() == found@[k as int]);
        sorted = insert_sorted(ds, sorted, found[k]);
        k = k + 1;
    }
    assert(found@.take(found@.len() as int) =~= found@);
    sorted
}

fn push_devices(lines: &mut Vec<String>, ds: &Vec<UsbDeviceFacts>, g: &Vec<usize>)
    requires
        all_below(g@, ds@.len() as int),
    ensures
        strings_view(final(lines)@) == strings_view(old(lines)@) + devices_block(ds@, g@),
{
    let ghost start = strings_view(lines@);
    let mut k: usize = 0;
    while k < g.len()
        invariant
            k <= g@.len(),
            all_below(g@, ds@.len() as int),
            strings_view(lines@) == start + devices_block(ds@, g@.take(k as int)),
        decreases g@.len() - k,
    {
        let ghost before = strings_view(lines@);
        assert(g@[k as int] < ds@.len());
        append_lines(lines, device_lines(&ds[g[k]]));
        assert(g@.take(k + 1).drop_last() =~= g@.take(k as int));
        assert(g@.take(k + 1).last() == g@[k as int]);
        assert(strings_view(lines@) =~= start + devices_block(ds@, g@.take(k + 1)));
        k = k + 1;
    }
    assert(g@.take(g@.len() as int) =~= g@);
}

fn bus_named_exec(buses: &Vec<UsbBusFacts>, k: usize, id: &Vec<char>) -> (r: bool)
    requires
        k <= buses@.len(),
    ensures
        r == bus_named(buses@, k as int, id@),
{
    let mut j: usize = 0;
    while j < k
        invariant
            j <= k <= buses@.len(),
            forall|m: int| 0 <= m < j ==> buses@[m].bus_id@ != id@,
        decreases k - j,
    {
        if chars_eq(&chars_of(buses[j].bus_id.as_str()), id) {
            return true;
        }
        j = j + 1;
    }
    false
}

fn ids_contain(ids: &Vec<Vec<char>>, id: &Vec<char>) -> (r: bool)
    ensures
        r == chars_seqs_view(ids@).contains(id@),
{
    let ghost v = chars_seqs_view(ids@);
    let mut i: usize = 0;
    while i < ids.len()
        invariant
            i <= ids@.len(),
            v == chars_seqs_view(ids@),
            forall|m: int| 0 <= m < i ==> v[m] != id@,
        decreases ids@.len() - i,
    {
        if chars_eq(&ids[i], id) {
            assert(v[i as int] == id@);
            return true;
        }
        i = i + 1;
    }
    false
}

/// The USB report (see [`spec_usb_listing`]).
pub fn usb_listing(buses: &Vec<UsbBusFacts>, devices: &Vec<UsbDeviceFacts>) -> (r: Vec<String>)
    ensures
        strings_view(r@) == spec_usb_listing(buses@, devices@),
{
    let mut lines: Vec<String> = Vec::new();
    if buses.len() == 0 && devices.len() == 0 {
        push_line(&mut lines, owned("No USB buses or devices detected."));
        assert(strings_view(lines@) =~= seq!["No USB buses or devices detected."@]);
        return lines;
    }
    let mut ids: Vec<Vec<char>> = Vec::new();
    let mut i: usize = 0;
    while i < devices.len()
        invariant
            i <= devices@.len(),
            chars_seqs_view(ids@) == bus_ids(devices@, i as int),
        decreases devices@.len() - i,
    {
        ids = insert_id_exec(ids, chars_of(devices[i].bus_id.as_str()));
        i = i + 1;
    }
    let ghost idv = chars_seqs_view(ids@);
    assert(idv == bus_ids(devices@, devices@.len() as int));
    if buses.len() == 0 {
        let mut k: usize = 0;
        while k < ids.len()
            invariant
                k <= ids@.len(),
                idv == chars_seqs_view(ids@),
                strings_view(lines@) == unknown_bus_sections(devices@, idv.take(k as int)),
            decreases ids@.len() - k,
        {
            let ghost before = strings_view(lines@);
            if k > 0 {
                push_line(&mut lines, String::new());
            }
            push_line(&mut lines, cat2("bus=", string_of(&ids[k]).as_str()));
            push_line(&mut lines, owned("  controller=unknown"));
            let g = group_exec(devices, &ids[k]);
            push_devices(&mut lines, devices, &g);
            assert(idv.take(k + 1).drop_last() =~= idv.take(k as int));
            assert(idv.take(k + 1).last() == ids@[k as int]@);
            assert(strings_view(lines@) =~= unknown_bus_sections(devices@, idv.take(k + 1)));
            k = k + 1;
        }
        assert(idv.take(ids@.len() as int) =~= idv);
        return lines;
    }
    let mut k: usize = 0;
    while k < buses.len()
        invariant
            k <= buses@.len(),
            idv == chars_seqs_view(ids@),
            strings_view(lines@) == bus_sections(buses@, devices@, idv, k as int),
        decreases buses@.len() - k,
    {
        let ghost before = strings_view(lines@);
        if k > 0 {
            push_line(&mut lines, String::new());
        }
        append_lines(&mut lines, bus_lines(&buses[k]));
        let id = chars_of(buses[k].bus_id.as_str());
        if ids_contain(&ids, &id) && !bus_named_exec(buses, k, &id) {
            let g = group_exec(devices, &id);
            push_devices(&mut lines, devices, &g);
        } else {
            push_line(&mut lines, owned("  devices=none"));
        }
        assert(strings_view(lines@) =~= before + bus_section(buses@, devices@, idv, k as int));
        k = k + 1;
    }
    let mut um: Vec<Vec<char>> = Vec::new();
    let mut n: usize = 0;
    while n < ids.len()
        invariant
            n <= ids@.len(),
            idv == chars_seqs_view(ids@),
            chars_seqs_view(um@) == unmatched_ids(idv, buses@, n as int),
        decreases ids@.len() - n,
    {
        let ghost before = chars_seqs_view(um@);
        if !bus_named_exec(buses, buses.len(), &ids[n]) {
            um.push(ids[n].clone());
            assert(chars_seqs_view(um@) =~= before.push(idv[n as int]));
        }
        n = n + 1;
    }
    let ghost umv = chars_seqs_view(um@);
    let ghost head = strings_view(lines@);
    if um.len() > 0 {
        push_line(&mut lines, String::new());
        push_line(&mut lines, owned("unmatched_buses:"));
        assert(strings_view(lines@) =~= head + seq![Seq::<char>::empty(), "unmatched_buses:"@]);
        let ghost mid = strings_view(lines@);
        let mut m: usize = 0;
        while m < um.len()
            invariant
                m <= um@.len(),
                umv == chars_seqs_view(um@),
                strings_view(lines@) == mid + unmatched_sections(devices@, umv.take(m as int)),
            decreases um@.len() - m,
        {
            push_line(&mut lines, cat2("bus=", string_of(&um[m]).as_str()));
            let g = group_exec(devices, &um[m]);
            push_devices(&mut lines, devices, &g);
            assert(umv.take(m + 1).drop_last() =~= umv.take(m as int));
            assert(umv.take(m + 1).last() == um@[m as int]@);
            assert(strings_view(lines@) =~= mid + unmatched_sections(devices@, umv.take(m + 1)));
            m = m + 1;
        }
        assert(umv.take(um@.len() as int) =~= umv);
    }
    assert(strings_view(lines@) =~= spec_usb_listing(buses@, devices@));
    lines
}

// ---------------------------------------------------------------------
// Laws
// ---------------------------------------------------------------------

proof fn lemma_bytes_lt_asymmetric(a: Seq<u8>, b: Seq<u8>)
    ensures
        bytes_lt(a, b) ==> !bytes_lt(b, a),
    decreases a.len(),
{
    if a.len() > 0 && b.len() > 0 && a[0] == b[0] {
        lemma_bytes_lt_asymmetric(a.drop_first(), b.drop_first());
    }
}

proof fn lemma_device_before_asymmetric(a: UsbDeviceFacts, b: UsbDeviceFacts)
    ensures
        device_before(a, b) ==> !device_before(b, a),
{
    lemma_bytes_lt_asymmetric(a.port_chain@, b.port_chain@);
    lemma_bytes_lt_irreflexive(a.port_chain@);
}

/// Device positions `r` in device order: no device comes before the one
/// listed ahead of it.
pub open spec fn in_device_order(ds: Seq<UsbDeviceFacts>, r: Seq<usize>) -> bool {
    forall|k: int| 0 <= k < r.len() - 1 ==> !device_before(ds[r[k + 1] as int], ds[#[trigger] r[k] as int])
}

proof fn lemma_insert_by_order(ds: Seq<UsbDeviceFacts>, sorted: Seq<usize>, i: usize)
    requires
        in_device_order(ds, sorted),
    ensures
        in_device_order(ds, insert_by_order(ds, sorted, i)),
        insert_by_order(ds, sorted, i).to_multiset() =~= sorted.to_multiset().insert(i),
        insert_by_order(ds, sorted, i).len() > 0,
        insert_by_order(ds, sorted, i).last() == i || (sorted.len() > 0 && insert_by_order(ds, sorted, i).last()
            == sorted.last()),
    decreases sorted.len(),
{
    broadcast use vstd::seq_lib::group_to_multiset_ensures;

    let r = insert_by_order(ds, sorted, i);
    if sorted.len() == 0 {
        assert(seq![i] =~= Seq::<usize>::empty().push(i));
    } else if device_before(ds[i as int], ds[sorted.last() as int]) {
        let rest = sorted.drop_last();
        let last = sorted.last();
        assert(in_device_order(ds, rest)) by {
            assert forall|k: int| 0 <= k < rest.len() - 1 implies !device_before(
                ds[rest[k + 1] as int],
                ds[#[trigger] rest[k] as int],
            ) by {
                assert(rest[k] == sorted[k] && rest[k + 1] == sorted[k + 1]);
            }
        }
        lemma_insert_by_order(ds, rest, i);
        let inner = insert_by_order(ds, rest, i);
        assert(r == inner.push(last));
        lemma_device_before_asymmetric(ds[i as int], ds[last as int]);
        assert forall|k: int| 0 <= k < r.len() - 1 implies !device_before(
            ds[r[k + 1] as int],
            ds[#[trigger] r[k] as int],
        ) by {
            if k < inner.len() - 1 {
                assert(r[k] == inner[k] && r[k + 1] == inner[k + 1]);
            } else {
                assert(r[k] == inner.last() && r[k + 1] == last);
                if inner.last() != i {
                    assert(rest.len() > 0 && inner.last() == rest.last());
                    assert(rest.last() == sorted[sorted.len() - 2]);
                }
            }
        }
        assert(sorted == rest.push(last));
        assert(sorted.to_multiset() =~= rest.to_multiset().insert(last));
    } else {
        assert forall|k: int| 0 <= k < r.len() - 1 implies !device_before(
            ds[r[k + 1] as int],
            ds[#[trigger] r[k] as int],
        ) by {
            if k < sorted.len() - 1 {
                assert(r[k] == sorted[k] && r[k + 1] == sorted[k + 1]);
            }
        }
    }
}

/// Sorting the devices of a bus keeps each of them exactly once and puts
/// them in device order.
pub proof fn law_sort_keeps_devices_in_order(ds: Seq<UsbDeviceFacts>, idx: Seq<usize>)
    ensures
        sort_by_order(ds, idx).to_multiset() =~= idx.to_multiset(),
        in_device_order(ds, sort_by_order(ds, idx)),
    decreases idx.len(),
{
    broadcast use vstd::seq_lib::group_to_multiset_ensures;

    if idx.len() > 0 {
        law_sort_keeps_devices_in_order(ds, idx.drop_last());
        lemma_insert_by_order(ds, sort_by_order(ds, idx.drop_last()), idx.last());
        assert(idx == idx.drop_last().push(idx.last()));
    } else {
        assert(idx.to_multiset() =~= Seq::<usize>::empty().to_multiset());
    }
}

proof fn lemma_members(ds: Seq<UsbDeviceFacts>, id: Seq<char>, n: int)
    requires
        0 <= n <= ds.len(),
        ds.len() <= usize::MAX,
    ensures
        forall|k: int|
            0 <= k < members(ds, id, n).len() ==> #[trigger] members(ds, id, n)[k] < n && ds[members(
                ds,
                id,
                n,
            )[k] as int].bus_id@ == id,
        forall|j: int| 0 <= j < n && ds[j].bus_id@ == id ==> #[trigger] members(ds, id, n).contains(j as usize),
    decreases n,
{
    if n > 0 {
        lemma_members(ds, id, n - 1);
        let prev = members(ds, id, n - 1);
        let cur = members(ds, id, n);
        if ds[n - 1].bus_id@ == id {
            assert(cur == prev.push((n - 1) as usize));
        } else {
            assert(cur == prev);
        }
        assert forall|k: int| 0 <= k < cur.len() implies #[trigger] cur[k] < n && ds[cur[k] as int].bus_id@ == id by {
            if k < prev.len() {
                assert(cur[k] == prev[k]);
            }
        }
        assert forall|j: int| 0 <= j < n && ds[j].bus_id@ == id implies #[trigger] cur.contains(j as usize) by {
            if j < n - 1 {
                assert(prev.contains(j as usize));
                let k = choose|k: int| 0 <= k < prev.len() && prev[k] == j as usize;
                assert(cur[k] == prev[k]);
                assert(cur[k] == j as usize);
            } else {
                assert(cur[cur.len() - 1] == j as usize);
            }
        }
    }
}

/// The devices listed under a bus are exactly the devices on that bus, in
/// device order.
pub proof fn law_group_lists_its_devices(ds: Seq<UsbDeviceFacts>, id: Seq<char>)
    requires
        ds.len() <= usize::MAX,
    ensures
        in_device_order(ds, group(ds, id)),
        forall|j: int| 0 <= j < ds.len() && ds[j].bus_id@ == id ==> #[trigger] group(ds, id).contains(j as usize),
        forall|x: usize| #[trigger] group(ds, id).contains(x) ==> x < ds.len() && ds[x as int].bus_id@ == id,
{
    broadcast use vstd::seq_lib::group_to_multiset_ensures;

    let m = members(ds, id, ds.len() as int);
    lemma_members(ds, id, ds.len() as int);
    law_sort_keeps_devices_in_order(ds, m);
    let g = group(ds, id);
    assert forall|j: int| 0 <= j < ds.len() && ds[j].bus_id@ == id implies #[trigger] g.contains(j as usize) by {
        assert(m.contains(j as usize));
        assert(m.to_multiset().count(j as usize) > 0);
        assert(g.to_multiset().count(j as usize) > 0);
    }
    assert forall|x: usize| #[trigger] g.contains(x) implies x < ds.len() && ds[x as int].bus_id@ == id by {
        assert(g.to_multiset().count(x) > 0);
        assert(m.to_multiset().count(x) > 0);
        assert(m.contains(x));
        let k = choose|k: int| 0 <= k < m.len() && m[k] == x;
        assert(m[k] < ds.len());
    }
}


// ---------------------------------------------------------------------
// Laws on names
// ---------------------------------------------------------------------

/// A link speed that has a name of its own.
pub open spec fn named_speed(s: Option<UsbSpeed>) -> bool {
    s matches Some(x) && x != UsbSpeed::Other
}

/// The speed that a speed name spells, as nusb's own parser of speed
/// names reads it (`low`, `full`, `high`, `super`, `super+`).
pub open spec fn speed_of_name(s: Seq<char>) -> Option<UsbSpeed> {
    if s == "low"@ {
        Some(UsbSpeed::Low)
    } else if s == "full"@ {
        Some(UsbSpeed::Full)
    } else if s == "high"@ {
        Some(UsbSpeed::High)
    } else if s == "super"@ {
        Some(UsbSpeed::Super)
    } else if s == "super+"@ {
        Some(UsbSpeed::SuperPlus)
    } else {
        None
    }
}

spec fn speed_rank(s: Option<UsbSpeed>) -> int {
    match s {
        Some(UsbSpeed::Low) => 0,
        Some(UsbSpeed::Full) => 1,
        Some(UsbSpeed::High) => 2,
        Some(UsbSpeed::Super) => 3,
        Some(UsbSpeed::SuperPlus) => 4,
        _ => -1,
    }
}

spec fn speed_rank_by_fingerprint(f: (nat, char, char, char)) -> int {
    if f == (3nat, 'l', 'w', 'o') {
        0
    } else if f == (4nat, 'f', 'l', 'l') {
        1
    } else if f == (4nat, 'h', 'h', 'g') {
        2
    } else if f == (5nat, 's', 'r', 'e') {
        3
    } else if f == (6nat, 's', '+', 'r') {
        4
    } else {
        -1
    }
}

proof fn lemma_speed_name_rank(a: Option<UsbSpeed>)
    ensures
        spec_speed_name(a).len() >= 2,
        speed_rank_by_fingerprint(fingerprint(spec_speed_name(a))) == speed_rank(a),
{
    reveal_strlit("low");
    reveal_strlit("full");
    reveal_strlit("high");
    reveal_strlit("super");
    reveal_strlit("super+");
    reveal_strlit("unknown");
}

/// Each link speed that has a name is shown by a name of its own, which
/// reads back as that speed under nusb's spelling of speeds and differs
/// from every other speed's name and from `unknown`; any other speed is
/// shown as `unknown`.
pub proof fn law_speed_names_distinct(a: Option<UsbSpeed>, b: Option<UsbSpeed>)
    ensures
        named_speed(a) ==> speed_of_name(spec_speed_name(a)) == a,
        named_speed(a) && named_speed(b) && a != b ==> spec_speed_name(a) != spec_speed_name(b),
        named_speed(a) ==> spec_speed_name(a) != "unknown"@,
        !named_speed(a) ==> spec_speed_name(a) == "unknown"@,
{
    lemma_speed_name_rank(a);
    lemma_speed_name_rank(b);
    lemma_speed_name_rank(None);
    reveal_strlit("low");
    reveal_strlit("full");
    reveal_strlit("high");
    reveal_strlit("super");
    reveal_strlit("super+");
    reveal_strlit("unknown");
    if named_speed(a) {
        let n = spec_speed_name(a);
        if n == "low"@ {
            assert(speed_rank(a) == 0);
        } else if n == "full"@ {
            assert(speed_rank(a) == 1);
        } else if n == "high"@ {
            assert(speed_rank(a) == 2);
        } else if n == "super"@ {
            assert(speed_rank(a) == 3);
        } else if n == "super+"@ {
            assert(speed_rank(a) == 4);
        }
    }
}

/// A class code that the class table lists.
pub open spec fn listed_class(c: u8) -> bool {
    c == 0x00 || c == 0x01 || c == 0x02 || c == 0x03 || c == 0x05 || c == 0x06 || c == 0x07 || c == 0x08 || c == 0x09 || c == 0x0A || c == 0x0B || c == 0x0D || c == 0x0E || c == 0x0F || c == 0x10 || c == 0x11 || c == 0x12 || c == 0xDC || c == 0xE0 || c == 0xEF || c == 0xFE || c == 0xFF
}

/// The class code whose name has this fingerprint, or -1.
spec fn class_code_by_fingerprint(f: (nat, char, char, char)) -> int {
    if f == (13nat, 'p', 'e', 'c') {
        0
    } else if f == (5nat, 'a', 'o', 'i') {
        1
    } else if f == (14nat, 'c', 's', 'n') {
        2
    } else if f == (3nat, 'h', 'd', 'i') {
        3
    } else if f == (8nat, 'p', 'l', 'a') {
        5
    } else if f == (5nat, 'i', 'e', 'g') {
        6
    } else if f == (7nat, 'p', 'r', 'e') {
        7
    } else if f == (12nat, 'm', 'e', 'g') {
        8
    } else if f == (3nat, 'h', 'b', 'u') {
        9
    } else if f == (8nat, 'c', 'a', 't') {
        10
    } else if f == (10nat, 's', 'd', 'r') {
        11
    } else if f == (16nat, 'c', 'y', 't') {
        13
    } else if f == (5nat, 'v', 'o', 'e') {
        14
    } else if f == (19nat, 'p', 'e', 'r') {
        15
    } else if f == (11nat, 'a', 'o', 'e') {
        16
    } else if f == (9nat, 'b', 'd', 'r') {
        17
    } else if f == (17nat, 'u', 'e', 'g') {
        18
    } else if f == (10nat, 'd', 'c', 'i') {
        220
    } else if f == (8nat, 'w', 's', 's') {
        224
    } else if f == (13nat, 'm', 's', 'u') {
        239
    } else if f == (20nat, 'a', 'c', 'i') {
        254
    } else if f == (15nat, 'v', 'c', 'i') {
        255
    } else {
        -1
    }
}

proof fn lemma_class_name_code(c: u8)
    ensures
        spec_class_name(c).len() >= 2,
        listed_class(c) ==> class_code_by_fingerprint(fingerprint(spec_class_name(c))) == c as int,
        !listed_class(c) ==> spec_class_name(c) == "unknown"@,
        class_code_by_fingerprint(fingerprint("unknown"@)) == -1,
{
    reveal_strlit("per-interface");
    reveal_strlit("audio");
    reveal_strlit("communications");
    reveal_strlit("hid");
    reveal_strlit("physical");
    reveal_strlit("image");
    reveal_strlit("printer");
    reveal_strlit("mass-storage");
    reveal_strlit("hub");
    reveal_strlit("cdc-data");
    reveal_strlit("smart-card");
    reveal_strlit("content-security");
    reveal_strlit("video");
    reveal_strlit("personal-healthcare");
    reveal_strlit("audio-video");
    reveal_strlit("billboard");
    reveal_strlit("usb-type-c-bridge");
    reveal_strlit("diagnostic");
    reveal_strlit("wireless");
    reveal_strlit("miscellaneous");
    reveal_strlit("application-specific");
    reveal_strlit("vendor-specific");
    reveal_strlit("unknown");
}

/// Every class code that the class table lists is shown by a name of its
/// own, different from every other listed code's name; `unknown` is shown
/// exactly for the codes that the table does not list.
pub proof fn law_class_names_distinct(a: u8, b: u8)
    ensures
        listed_class(a) <==> spec_class_name(a) != "unknown"@,
        listed_class(a) && listed_class(b) && a != b ==> spec_class_name(a) != spec_class_name(b),
{
    lemma_class_name_code(a);
    lemma_class_name_code(b);
}

} // verus!
