use serial_monitor::baud::{is_white_space_char, parse_baud_rate, parse_normalized_baud, trimmed};
use serial_monitor::clock::{
    clock_reading, get_log_file_name, get_timestamp, local_now, local_time_of, log_file_name,
    log_file_name_of, timestamp, timestamp_of, LocalTime, LAST_CLOCK_SECOND,
};
use serial_monitor::port::{add_com_prefix, describe_port, has_com_prefix, list_devices, PortInfo, PortKind};
use serial_monitor::text::{push_decimal, push_hex4, push_padded};

#[test]
fn baud_rate_scenarios() {
    assert_eq!(parse_baud_rate("1.5m"), Ok(1_500_000));
    assert_eq!(parse_baud_rate("9600"), Ok(9600));
    assert_eq!(parse_baud_rate("abc"), Err("Invalid baud rate format: abc".to_string()));
}

#[test]
fn baud_rate_forms() {
    assert_eq!(parse_baud_rate(" 115200\n"), Ok(115200));
    assert_eq!(parse_baud_rate("2M"), Ok(2_000_000));
    assert_eq!(parse_baud_rate("+9600"), Ok(9600));
    assert_eq!(parse_baud_rate(".5m"), Ok(500_000));
    assert_eq!(parse_baud_rate("1.m"), Ok(1_000_000));
    assert_eq!(parse_baud_rate("1.5mm"), Ok(1_500_000));
    assert_eq!(parse_baud_rate("0.0000019m"), Ok(1));
    assert_eq!(parse_baud_rate("4294967295"), Ok(u32::MAX));
    assert_eq!(parse_baud_rate("5000m"), Ok(u32::MAX));
}

#[test]
fn baud_rate_rejections() {
    for s in ["", "m", ".", ".m", "4294967296", "-9600", "1.2.3m", "1,5m", "9600k", "12 34", "+"] {
        assert_eq!(parse_baud_rate(s), Err(format!("Invalid baud rate format: {}", s)), "{}", s);
    }
}

#[test]
fn baud_rate_unicode_white_space() {
    assert_eq!(parse_baud_rate("\u{a0}9600\u{3000}"), Ok(9600));
    assert_eq!(parse_baud_rate("\t\u{2009}1.5M\u{85}"), Ok(1_500_000));
}

#[test]
fn local_now_in_range() {
    let t = local_now().unwrap();
    assert!((1..=12).contains(&t.month) && (1..=31).contains(&t.day));
    assert!(t.hour < 24 && t.minute < 60 && t.second < 60 && t.nanosecond < 2_000_000_000);
    assert!(t.year >= 1970);
}

#[test]
fn normalized_baud() {
    assert_eq!(parse_normalized_baud("1.5m"), Some(1_500_000));
    assert_eq!(parse_normalized_baud("1.5M"), None);
    assert_eq!(parse_normalized_baud(" 9600"), None);
}

fn sample_time() -> LocalTime {
    LocalTime { year: 2024, month: 6, day: 15, hour: 14, minute: 23, second: 5, nanosecond: 123_456_789 }
}

#[test]
fn timestamp_text() {
    assert_eq!(timestamp(&sample_time()), b"06-15 14:23:05.123 ".to_vec());
    let leap = LocalTime { nanosecond: 1_500_000_000, second: 59, ..sample_time() };
    assert_eq!(timestamp(&leap), b"06-15 14:23:60.500 ".to_vec());
    assert_eq!(log_file_name(&leap), b"Serial_Log_2024-06-15_14_23_60.log".to_vec());
}

#[test]
fn log_file_names() {
    assert_eq!(log_file_name(&sample_time()), b"Serial_Log_2024-06-15_14_23_05.log".to_vec());
    let early = LocalTime { year: 5, ..sample_time() };
    assert_eq!(log_file_name(&early), b"Serial_Log_0005-06-15_14_23_05.log".to_vec());
    let bc = LocalTime { year: -5, ..sample_time() };
    assert_eq!(log_file_name(&bc), b"Serial_Log_-0005-06-15_14_23_05.log".to_vec());
    let far = LocalTime { year: 12345, ..sample_time() };
    assert_eq!(log_file_name(&far), b"Serial_Log_+12345-06-15_14_23_05.log".to_vec());
}

#[test]
fn clock_texts_have_their_shape() {
    let ts = get_timestamp().unwrap();
    assert_eq!(ts.len(), 19);
    assert_eq!((ts[2], ts[5], ts[8], ts[11], ts[14], ts[18]), (b'-', b' ', b':', b':', b'.', b' '));
    let name = String::from_utf8(get_log_file_name().unwrap()).unwrap();
    assert!(name.starts_with("Serial_Log_") && name.ends_with(".log"));
    assert_eq!(name.len(), "Serial_Log_2024-06-15_14_23_05.log".len());
}

#[test]
fn usb_port_line() {
    let port = PortInfo {
        port_name: "/dev/ttyUSB0".to_string(),
        port_type: PortKind::Usb {
            vid: 0x1a86,
            pid: 0x7523,
            product: Some("USB Serial".to_string()),
            manufacturer: None,
        },
    };
    assert_eq!(describe_port(0, &port), b"0: [/dev/ttyUSB0] USB 1A86:7523 USB Serial \n".to_vec());
}

#[test]
fn device_listing() {
    let ports = vec![
        PortInfo { port_name: "COM1".to_string(), port_type: PortKind::Pci },
        PortInfo { port_name: "COM2".to_string(), port_type: PortKind::Bluetooth },
        PortInfo { port_name: "COM3".to_string(), port_type: PortKind::Unknown },
        PortInfo {
            port_name: "COM4".to_string(),
            port_type: PortKind::Usb {
                vid: 0x0403,
                pid: 0x6001,
                product: Some("FT232R".to_string()),
                manufacturer: Some("FTDI".to_string()),
            },
        },
    ];
    let text = String::from_utf8(list_devices(&ports)).unwrap();
    assert_eq!(
        text,
        "0: [COM1] PCI\n1: [COM2] Bluetooth\n2: [COM3] Unknown\n3: [COM4] USB 0403:6001 FT232R FTDI\n"
    );
    assert!(list_devices(&Vec::new()).is_empty());
}

#[test]
fn com_prefix() {
    assert_eq!(add_com_prefix("5"), "COM5");
    assert_eq!(add_com_prefix("com3"), "com3");
    assert_eq!(add_com_prefix("CoM7"), "CoM7");
    assert_eq!(add_com_prefix("co"), "COMco");
    assert!(has_com_prefix("com12"));
    assert!(!has_com_prefix("COM12"));
}

#[test]
fn number_texts() {
    let mut out = Vec::new();
    push_decimal(&mut out, 0);
    push_decimal(&mut out, 907);
    push_padded(&mut out, 7, 3);
    push_padded(&mut out, 12345, 2);
    push_hex4(&mut out, 0xBEEF);
    push_hex4(&mut out, 0x000a);
    assert_eq!(out, b"090700712345BEEF000A".to_vec());
}

#[test]
fn trim_white_space() {
    assert_eq!(trimmed("  a b\t\n"), "a b");
    assert_eq!(trimmed("\u{3000}\u{202f}x\u{2028}"), "x");
    assert_eq!(trimmed(" \u{a0} "), "");
    assert_eq!(trimmed("\u{200b}x"), "\u{200b}x");
    assert!(is_white_space_char('\u{85}') && is_white_space_char('\u{c}'));
    assert!(!is_white_space_char('\u{200b}') && !is_white_space_char('x'));
}

#[test]
fn local_time_of_readings() {
    assert_eq!(local_time_of(None), None);
    assert_eq!(local_time_of(Some((LAST_CLOCK_SECOND + 1, 0))), None);
    let t = local_time_of(Some((1_700_000_000, 250_000_000))).unwrap();
    assert_eq!(t.nanosecond, 250_000_000);
    assert!(t.year == 2023 && t.month == 11 && (13..=15).contains(&t.day));
    let last = local_time_of(Some((LAST_CLOCK_SECOND, 0))).unwrap();
    assert!(last.year == 9999 || last.year == 10000);
    assert!(clock_reading().is_some());
}

#[test]
fn clock_texts_of_readings() {
    assert_eq!(timestamp_of(None), None);
    assert_eq!(log_file_name_of(Some((u64::MAX, 0))), None);
    let ts = timestamp_of(Some((1_700_000_000, 987_000_000))).unwrap();
    assert_eq!(ts.len(), 19);
    assert_eq!(&ts[14..19], b".987 ");
    let name = log_file_name_of(Some((1_700_000_000, 0))).unwrap();
    assert!(name.starts_with(b"Serial_Log_2023-11-1"));
    assert!(name.ends_with(b".log"));
}
