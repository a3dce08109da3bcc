use serial_logger::listing::count_header;
use serial_logger::listing::kind_line;
use serial_logger::listing::listing_failure_message;
use serial_logger::listing::optional_info_line;
use serial_logger::listing::port_lines;
use serial_logger::listing::port_listing;
use serial_logger::listing::usb_id_line;
use serial_logger::listing::usb_info_lines;
use serial_logger::listing::PortDescriptor;
use serial_logger::listing::PortKind;
use serial_logger::listing::UsbInfo;
use serial_logger::listing::LABEL_WIDTH;

fn plain(name: &str, kind: PortKind) -> PortDescriptor {
    PortDescriptor { name: name.to_string(), kind }
}

fn ftdi() -> UsbInfo {
    UsbInfo {
        vid: 0x0403,
        pid: 0x6001,
        serial_number: Some("A50285BI".to_string()),
        manufacturer: Some("FTDI".to_string()),
        product: None,
    }
}

#[test]
fn header_counts_the_ports() {
    assert_eq!(count_header(0), "No ports found.");
    assert_eq!(count_header(1), "Found 1 port:");
    assert_eq!(count_header(3), "Found 3 ports:");
}

#[test]
fn header_for_larger_counts() {
    assert_eq!(count_header(2), "Found 2 ports:");
    assert_eq!(count_header(10), "Found 10 ports:");
    assert_eq!(count_header(128), "Found 128 ports:");
    assert_eq!(count_header(usize::MAX), format!("Found {} ports:", usize::MAX));
}

#[test]
fn listing_headers_follow_the_number_of_ports() {
    let none: Vec<PortDescriptor> = vec![];
    assert_eq!(port_listing(&none)[0], "No ports found.");
    let one = vec![plain("/dev/ttyS0", PortKind::Unknown)];
    assert_eq!(port_listing(&one)[0], "Found 1 port:");
    let three = vec![
        plain("/dev/ttyS0", PortKind::Unknown),
        plain("/dev/ttyS1", PortKind::Pci),
        plain("/dev/rfcomm0", PortKind::Bluetooth),
    ];
    assert_eq!(port_listing(&three)[0], "Found 3 ports:");
}

#[test]
fn usb_identifiers_are_four_hex_digits() {
    assert_eq!(usb_id_line(0x0403, 0x6001), "    VID:0403 PID:6001");
    assert_eq!(usb_id_line(0, 0), "    VID:0000 PID:0000");
    assert_eq!(usb_id_line(0xffff, 0xabcd), "    VID:ffff PID:abcd");
    assert_eq!(usb_id_line(0x1a, 0x2), "    VID:001a PID:0002");
}

#[test]
fn absent_optional_text_is_shown_empty() {
    assert_eq!(optional_info_line("Product", &None), "    Product        : ");
    assert_eq!(optional_info_line("Serial Number", &None), "    Serial Number  : ");
    assert_eq!(optional_info_line("Manufacturer", &None), "    Manufacturer   : ");
}

#[test]
fn present_optional_text_is_shown() {
    assert_eq!(
        optional_info_line("Manufacturer", &Some("FTDI".to_string())),
        "    Manufacturer   : FTDI"
    );
    assert_eq!(
        optional_info_line("Serial Number", &Some(String::new())),
        "    Serial Number  : "
    );
}

#[test]
fn label_is_padded_to_fifteen_characters() {
    assert_eq!(LABEL_WIDTH, 15);
    for label in ["", "a", "Product", "exactly fifteen", "a label longer than fifteen"] {
        let value = Some("v".to_string());
        assert_eq!(
            optional_info_line(label, &value),
            format!("    {:<15}: {}", label, "v")
        );
    }
}

#[test]
fn usb_device_has_four_lines() {
    let lines = usb_info_lines(&ftdi());
    assert_eq!(
        lines,
        vec![
            "    VID:0403 PID:6001".to_string(),
            "    Serial Number  : A50285BI".to_string(),
            "    Manufacturer   : FTDI".to_string(),
            "    Product        : ".to_string(),
        ]
    );
}

#[test]
fn usb_device_without_texts_shows_them_empty() {
    let info = UsbInfo {
        vid: 0x0403,
        pid: 0x6001,
        serial_number: None,
        manufacturer: None,
        product: None,
    };
    let lines = usb_info_lines(&info);
    assert_eq!(lines[0], "    VID:0403 PID:6001");
    assert_eq!(lines[1], "    Serial Number  : ");
    assert_eq!(lines[2], "    Manufacturer   : ");
    assert_eq!(lines[3], "    Product        : ");
    for line in &lines {
        assert!(!line.contains("null"));
        assert!(!line.contains("None"));
    }
}

#[test]
fn kinds_are_named() {
    assert_eq!(kind_line(&PortKind::Usb(ftdi())), "    Type: USB");
    assert_eq!(kind_line(&PortKind::Bluetooth), "    Type: Bluetooth");
    assert_eq!(kind_line(&PortKind::Pci), "    Type: PCI");
    assert_eq!(kind_line(&PortKind::Unknown), "    Type: Unknown");
}

#[test]
fn port_without_usb_has_two_lines() {
    let lines = port_lines(&plain("/dev/ttyS4", PortKind::Pci));
    assert_eq!(lines, vec!["  /dev/ttyS4".to_string(), "    Type: PCI".to_string()]);
}

#[test]
fn usb_port_has_six_lines() {
    let lines = port_lines(&plain("/dev/ttyUSB0", PortKind::Usb(ftdi())));
    assert_eq!(
        lines,
        vec![
            "  /dev/ttyUSB0".to_string(),
            "    Type: USB".to_string(),
            "    VID:0403 PID:6001".to_string(),
            "    Serial Number  : A50285BI".to_string(),
            "    Manufacturer   : FTDI".to_string(),
            "    Product        : ".to_string(),
        ]
    );
}

#[test]
fn empty_listing_is_the_header_alone() {
    let none: Vec<PortDescriptor> = vec![];
    assert_eq!(port_listing(&none), vec!["No ports found.".to_string()]);
}

#[test]
fn listing_shows_ports_in_order() {
    let ports = vec![
        plain("/dev/ttyUSB0", PortKind::Usb(ftdi())),
        plain("/dev/rfcomm0", PortKind::Bluetooth),
        plain("COM3", PortKind::Unknown),
    ];
    let lines = port_listing(&ports);
    assert_eq!(
        lines,
        vec![
            "Found 3 ports:".to_string(),
            "  /dev/ttyUSB0".to_string(),
            "    Type: USB".to_string(),
            "    VID:0403 PID:6001".to_string(),
            "    Serial Number  : A50285BI".to_string(),
            "    Manufacturer   : FTDI".to_string(),
            "    Product        : ".to_string(),
            "  /dev/rfcomm0".to_string(),
            "    Type: Bluetooth".to_string(),
            "  COM3".to_string(),
            "    Type: Unknown".to_string(),
        ]
    );
}

#[test]
fn listing_failure_has_its_message() {
    assert_eq!(listing_failure_message(), "Error listing serial ports");
}
