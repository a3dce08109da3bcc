//! The listing of serial ports.
//!
//! The ports themselves are found by the caller. This module says how what
//! was found is shown: a header with the count, then for every port its
//! name and its kind, and for a USB port its identifiers.

use crate::text::decimal_text;
use crate::text::option_view;
use crate::text::padded_right;
use crate::text::push_padded_right;
use crate::text::push_decimal;
use crate::text::push_zero_padded_hex;
use crate::text::zero_padded_hex;
use vstd::prelude::*;
use vstd::string::*;

verus! {

/// What a USB port tells about the device behind it. The three texts are
/// optional: a device need not have them.
#[derive(Debug, PartialEq, Eq)]
pub struct UsbInfo {
    pub vid: u16,
    pub pid: u16,
    pub serial_number: Option<String>,
    pub manufacturer: Option<String>,
    pub product: Option<String>,
}

/// How a port is attached.
#[derive(Debug, PartialEq, Eq)]
pub enum PortKind {
    Usb(UsbInfo),
    Bluetooth,
    Pci,
    Unknown,
}

/// A serial port as the listing shows it.
#[derive(Debug, PartialEq, Eq)]
pub struct PortDescriptor {
    pub name: String,
    pub kind: PortKind,
}

/// A [`UsbInfo`] with its texts as sequences.
pub struct UsbInfoView {
    pub vid: u16,
    pub pid: u16,
    pub serial_number: Option<Seq<char>>,
    pub manufacturer: Option<Seq<char>>,
    pub product: Option<Seq<char>>,
}

/// A [`PortKind`] with its texts as sequences.
pub enum PortKindView {
    Usb(UsbInfoView),
    Bluetooth,
    Pci,
    Unknown,
}

/// A [`PortDescriptor`] with its texts as sequences.
pub struct PortDescriptorView {
    pub name: Seq<char>,
    pub kind: PortKindView,
}

impl View for UsbInfo {
    type V = UsbInfoView;

    open spec fn view(&self) -> UsbInfoView {
        UsbInfoView {
            vid: self.vid,
            pid: self.pid,
            serial_number: option_view(self.serial_number),
            manufacturer: option_view(self.manufacturer),
            product: option_view(self.product),
        }
    }
}

impl View for PortKind {
    type V = PortKindView;

    open spec fn view(&self) -> PortKindView {
        match self {
            PortKind::Usb(info) => PortKindView::Usb(info@),
            PortKind::Bluetooth => PortKindView::Bluetooth,
            PortKind::Pci => PortKindView::Pci,
            PortKind::Unknown => PortKindView::Unknown,
        }
    }
}

impl View for PortDescriptor {
    type V = PortDescriptorView;

    open spec fn view(&self) -> PortDescriptorView {
        PortDescriptorView { name: self.name@, kind: self.kind@ }
    }
}

impl DeepView for PortDescriptor {
    type V = PortDescriptorView;

    open spec fn deep_view(&self) -> PortDescriptorView {
        self@
    }
}

/// The width to which the label of an optional text is padded.
pub const LABEL_WIDTH: usize = 15;

/// The header of a listing of `count` ports.
pub open spec fn count_header_text(count: nat) -> Seq<char> {
    if count == 0 {
        "No ports found."@
    } else if count == 1 {
        "Found 1 port:"@
    } else {
        "Found "@ + decimal_text(count) + " ports:"@
    }
}

/// An optional text as it is shown: the text itself, or nothing at all when
/// it is absent.
pub open spec fn optional_text(value: Option<Seq<char>>) -> Seq<char> {
    match value {
        Some(text) => text,
        None => Seq::empty(),
    }
}

/// The line for an optional text: four spaces, the label with spaces
/// behind it up to fifteen characters, a colon, a space and the text.
pub open spec fn optional_info_text(label: Seq<char>, value: Option<Seq<char>>) -> Seq<char> {
    "    "@ + padded_right(label, LABEL_WIDTH as nat, ' ') + ": "@ + optional_text(value)
}

/// The line for the identifiers of a USB device: vendor and product, each
/// as four lower-case hexadecimal digits.
pub open spec fn usb_id_text(vid: u16, pid: u16) -> Seq<char> {
    "    VID:"@ + zero_padded_hex(vid as nat, 4) + " PID:"@ + zero_padded_hex(pid as nat, 4)
}

/// The lines for a USB device: its identifiers, then serial number,
/// manufacturer and product.
pub open spec fn usb_info_texts(info: UsbInfoView) -> Seq<Seq<char>> {
    seq![
        usb_id_text(info.vid, info.pid),
        optional_info_text("Serial Number"@, info.serial_number),
        optional_info_text("Manufacturer"@, info.manufacturer),
        optional_info_text("Product"@, info.product),
    ]
}

/// The line that names the kind of a port.
pub open spec fn kind_text(kind: PortKindView) -> Seq<char> {
    match kind {
        PortKindView::Usb(_) => "    Type: USB"@,
        PortKindView::Bluetooth => "    Type: Bluetooth"@,
        PortKindView::Pci => "    Type: PCI"@,
        PortKindView::Unknown => "    Type: Unknown"@,
    }
}

/// The lines for one port: its name behind two spaces, its kind, and for a
/// USB port the lines of the device.
pub open spec fn port_texts(port: PortDescriptorView) -> Seq<Seq<char>> {
    let head = seq!["  "@ + port.name, kind_text(port.kind)];
    match port.kind {
        PortKindView::Usb(info) => head + usb_info_texts(info),
        _ => head,
    }
}

/// The whole listing: the header, then the lines of every port in the
/// order given.
pub open spec fn listing_texts(ports: Seq<PortDescriptorView>) -> Seq<Seq<char>> {
    seq![count_header_text(ports.len())] + ports.map_values(
        |port: PortDescriptorView| port_texts(port),
    ).flatten()
}

/// What is reported when the ports cannot be listed.
pub open spec fn listing_failure_text() -> Seq<char> {
    "Error listing serial ports"@
}

/// Builds the header of a listing of `count` ports.
pub fn count_header(count: usize) -> (line: String)
    ensures
        line@ == count_header_text(count as nat),
{
    let mut line = String::new();
    if count == 0 {
        line.append("No ports found.");
    } else if count == 1 {
        line.append("Found 1 port:");
    } else {
        line.append("Found ");
        push_decimal(&mut line, count as u64);
        line.append(" ports:");
    }
    assert(line@ =~= count_header_text(count as nat));
    line
}

/// Builds the line for an optional text under `label`.
pub fn optional_info_line(label: &str, value: &Option<String>) -> (line: String)
    ensures
        line@ == optional_info_text(label@, option_view(*value)),
{
    let mut line = String::new();
    line.append("    ");
    push_padded_right(&mut line, label, LABEL_WIDTH);
    line.append(": ");
    match value {
        Some(text) => line.append(text.as_str()),
        None => {},
    }
    assert(line@ =~= optional_info_text(label@, option_view(*value)));
    line
}

/// Builds the line for the identifiers of a USB device.
pub fn usb_id_line(vid: u16, pid: u16) -> (line: String)
    ensures
        line@ == usb_id_text(vid, pid),
{
    let mut line = String::new();
    line.append("    VID:");
    push_zero_padded_hex(&mut line, vid as u64, 4);
    line.append(" PID:");
    push_zero_padded_hex(&mut line, pid as u64, 4);
    assert(line@ =~= usb_id_text(vid, pid));
    line
}

/// Builds the lines for a USB device.
pub fn usb_info_lines(info: &UsbInfo) -> (lines: Vec<String>)
    ensures
        lines.deep_view() == usb_info_texts(info@),
{
    let mut lines: Vec<String> = Vec::new();
    lines.push(usb_id_line(info.vid, info.pid));
    lines.push(optional_info_line("Serial Number", &info.serial_number));
    lines.push(optional_info_line("Manufacturer", &info.manufacturer));
    lines.push(optional_info_line("Product", &info.product));
    assert(lines.deep_view() =~= usb_info_texts(info@));
    lines
}

/// Builds the line that names the kind of a port.
pub fn kind_line(kind: &PortKind) -> (line: String)
    ensures
        line@ == kind_text(kind@),
{
    let mut line = String::new();
    match kind {
        PortKind::Usb(_) => line.append("    Type: USB"),
        PortKind::Bluetooth => line.append("    Type: Bluetooth"),
        PortKind::Pci => line.append("    Type: PCI"),
        PortKind::Unknown => line.append("    Type: Unknown"),
    }
    assert(line@ =~= kind_text(kind@));
    line
}

/// Builds the lines for one port.
pub fn port_lines(port: &PortDescriptor) -> (lines: Vec<String>)
    ensures
        lines.deep_view() == port_texts(port@),
{
    let mut name = String::new();
    name.append("  ");
    name.append(port.name.as_str());
    assert(name@ =~= "  "@ + port.name@);
    let mut lines: Vec<String> = Vec::new();
    lines.push(name);
    lines.push(kind_line(&port.kind));
    assert(lines.deep_view() =~= seq!["  "@ + port.name@, kind_text(port.kind@)]);
    match &port.kind {
        PortKind::Usb(info) => {
            let ghost head = lines.deep_view();
            let mut more = usb_info_lines(info);
            let ghost tail = more.deep_view();
            lines.append(&mut more);
            assert(lines.deep_view() =~= head + tail);
        },
        _ => {},
    }
    lines
}

/// Builds the listing of `ports`: the header with their count, then the
/// lines of each port in the order given.
pub fn port_listing(ports: &[PortDescriptor]) -> (lines: Vec<String>)
    ensures
        lines.deep_view() == listing_texts(ports.deep_view()),
{
    let ghost shown = |port: PortDescriptorView| port_texts(port);
    let ghost models = ports.deep_view();
    let mut lines: Vec<String> = Vec::new();
    lines.push(count_header(ports.len()));
    let ghost header = lines.deep_view();
    assert(header =~= seq![count_header_text(models.len())]);
    let n: usize = ports.len();
    let mut k: usize = 0;
    assert(lines.deep_view() =~= header + models.take(0).map_values(shown).flatten());
    while k < n
        invariant
            n == ports@.len(),
            k <= n,
            models == ports.deep_view(),
            shown == |port: PortDescriptorView| port_texts(port),
            header == seq![count_header_text(models.len())],
            lines.deep_view() == header + models.take(k as int).map_values(shown).flatten(),
        decreases n - k,
    {
        let ghost before = lines.deep_view();
        let mut more = port_lines(&ports[k]);
        let ghost added = more.deep_view();
        lines.append(&mut more);
        proof {
            assert(lines.deep_view() =~= before + added);
            assert(models[k as int] == ports@[k as int]@);
            let done = models.take(k as int).map_values(shown);
            assert(models.take(k + 1).map_values(shown) =~= done.push(port_texts(models[k as int])));
            done.lemma_flatten_push(port_texts(models[k as int]));
        }
        k += 1;
    }
    assert(models.take(n as int) =~= models);
    lines
}

/// Builds the report for ports that cannot be listed.
pub fn listing_failure_message() -> (text: String)
    ensures
        text@ == listing_failure_text(),
{
    let mut text = String::new();
    text.append("Error listing serial ports");
    assert(text@ =~= listing_failure_text());
    text
}

} // verus!
