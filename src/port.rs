//! Serial devices: how a device is described in the listing, and the name
//! under which a device is opened where ports are called `COMn`.
use vstd::prelude::*;
use vstd::string::*;
use vstd::utf8::encode_utf8;
use crate::baud::{lower_of, lowercase};
use crate::text::{append_bytes, decimal, hex4, push_decimal, push_hex4};

verus! {

/// How a serial device is attached.
#[derive(Debug)]
pub enum PortKind {
    Usb { vid: u16, pid: u16, product: Option<String>, manufacturer: Option<String> },
    Pci,
    Bluetooth,
    Unknown,
}

/// One device found on the machine.
#[derive(Debug)]
pub struct PortInfo {
    pub port_name: String,
    pub port_type: PortKind,
}

/// The UTF-8 bytes of an optional text; nothing for `None`.
pub open spec fn optional_text(s: Option<String>) -> Seq<u8> {
    match s {
        Some(t) => encode_utf8(t@),
        None => Seq::empty(),
    }
}

/// The description of a device's attachment in the listing.
pub open spec fn kind_text(k: PortKind) -> Seq<u8> {
    match k {
        PortKind::Usb { vid, pid, product, manufacturer } => seq![85u8, 83u8, 66u8, 32u8] + hex4(vid) + seq![58u8]
            + hex4(pid) + seq![32u8] + optional_text(product) + seq![32u8] + optional_text(manufacturer),
        PortKind::Pci => seq![80u8, 67u8, 73u8],
        PortKind::Bluetooth => seq![66u8, 108u8, 117u8, 101u8, 116u8, 111u8, 111u8, 116u8, 104u8],
        PortKind::Unknown => seq![85u8, 110u8, 107u8, 110u8, 111u8, 119u8, 110u8],
    }
}

/// `<index>: [<name>] <kind>` and a line end.
pub open spec fn port_line(index: nat, name: Seq<char>, k: PortKind) -> Seq<u8> {
    decimal(index) + seq![58u8, 32u8, 91u8] + encode_utf8(name) + seq![93u8, 32u8] + kind_text(k) + seq![10u8]
}

fn push_optional(out: &mut Vec<u8>, s: &Option<String>)
    ensures
        final(out)@ == old(out)@ + optional_text(*s),
{
    match s {
        Some(t) => {
            let bytes = t.as_str().as_bytes_vec();
            append_bytes(out, &bytes);
        },
        None => {
            assert(out@ =~= old(out)@ + optional_text(*s));
        },
    }
}

fn push_kind(out: &mut Vec<u8>, k: &PortKind)
    ensures
        final(out)@ == old(out)@ + kind_text(*k),
{
    match k {
        PortKind::Usb { vid, pid, product, manufacturer } => {
            out.push(85u8);
            out.push(83u8);
            out.push(66u8);
            out.push(32u8);
            push_hex4(out, *vid);
            out.push(58u8);
            push_hex4(out, *pid);
            out.push(32u8);
            push_optional(out, product);
            out.push(32u8);
            push_optional(out, manufacturer);
        },
        PortKind::Pci => {
            out.push(80u8);
            out.push(67u8);
            out.push(73u8);
        },
        PortKind::Bluetooth => {
            out.push(66u8);
            out.push(108u8);
            out.push(117u8);
            out.push(101u8);
            out.push(116u8);
            out.push(111u8);
            out.push(111u8);
            out.push(116u8);
            out.push(104u8);
        },
        PortKind::Unknown => {
            out.push(85u8);
            out.push(110u8);
            out.push(107u8);
            out.push(110u8);
            out.push(111u8);
            out.push(119u8);
            out.push(110u8);
        },
    }
    assert(out@ =~= old(out)@ + kind_text(*k));
}

/// The listing line for the device at position `index`.
pub fn describe_port(index: usize, port: &PortInfo) -> (r: Vec<u8>)
    ensures
        r@ == port_line(index as nat, port.port_name@, port.port_type),
{
    let mut out: Vec<u8> = Vec::new();
    push_decimal(&mut out, index as u64);
    out.push(58u8);
    out.push(32u8);
    out.push(91u8);
    let name = port.port_name.as_str().as_bytes_vec();
    append_bytes(&mut out, &name);
    out.push(93u8);
    out.push(32u8);
    push_kind(&mut out, &port.port_type);
    out.push(10u8);
    assert(out@ =~= port_line(index as nat, port.port_name@, port.port_type));
    out
}

/// The listing of all devices, one line each, numbered from zero.
pub open spec fn listing(ports: Seq<PortInfo>) -> Seq<u8>
    decreases ports.len(),
{
    if ports.len() == 0 {
        Seq::empty()
    } else {
        listing(ports.drop_last()) + port_line(
            (ports.len() - 1) as nat,
            ports.last().port_name@,
            ports.last().port_type,
        )
    }
}

/// The device listing.
pub fn list_devices(ports: &Vec<PortInfo>) -> (r: Vec<u8>)
    ensures
        r@ == listing(ports@),
{
    let mut out: Vec<u8> = Vec::new();
    let mut i: usize = 0;
    while i < ports.len()
        invariant
            i <= ports.len(),
            out@ == listing(ports@.subrange(0, i as int)),
        decreases ports.len() - i,
    {
        let line = describe_port(i, &ports[i]);
        append_bytes(&mut out, &line);
        i = i + 1;
        assert(ports@.subrange(0, i as int).drop_last() =~= ports@.subrange(0, i - 1));
    }
    assert(ports@.subrange(0, ports.len() as int) =~= ports@);
    out
}

/// The text starts with `com`.
pub open spec fn starts_with_com(s: Seq<char>) -> bool {
    s.len() >= 3 && s[0] == 'c' && s[1] == 'o' && s[2] == 'm'
}

/// Whether an already lower-case device name starts with `com`.
pub fn has_com_prefix(lowered: &str) -> (r: bool)
    ensures
        r == starts_with_com(lowered@),
{
    lowered.unicode_len() >= 3 && lowered.get_char(0) == 'c' && lowered.get_char(1) == 'o'
        && lowered.get_char(2) == 'm'
}

/// The device name with `COM` put before it, unless it starts with `com`
/// in any case (`5` becomes `COM5`; `com5` stays).
pub fn add_com_prefix(path: &str) -> (r: String)
    ensures
        r@ == if starts_with_com(lower_of(path@)) {
            path@
        } else {
            "COM"@ + path@
        },
{
    let lowered = lowercase(path);
    if has_com_prefix(lowered.as_str()) {
        String::from_str(path)
    } else {
        let mut r = String::from_str("COM");
        r.append(path);
        r
    }
}

} // verus!
