use serial_monitor::relay::{
    console_error_report, is_line_end_byte, is_text, line_step, next_action, opened_report,
    read_error_report,
    Action, Event, LineRelay, PLACEHOLDER,
};

fn stamp() -> Vec<u8> {
    b"<ts>".to_vec()
}

fn count_stamps(out: &[u8]) -> usize {
    out.windows(4).filter(|w| *w == b"<ts>").count()
}

#[test]
fn two_lines_get_two_stamps() {
    let mut relay = LineRelay::new(true, false);
    let out = relay.process_bytes(&b"AB\nCD".to_vec(), &stamp());
    assert_eq!(out.console, b"<ts>AB\n<ts>CD".to_vec());
    assert!(out.log.is_empty());
    assert!(!relay.at_line_start);
}

#[test]
fn blank_lines_get_no_stamp() {
    let mut relay = LineRelay::new(true, true);
    let out = relay.process_bytes(&b"\r\n\r\n".to_vec(), &stamp());
    assert_eq!(out.console, b"\r\n\r\n".to_vec());
    assert_eq!(out.log, b"\r\n\r\n".to_vec());
    assert_eq!(count_stamps(&out.console), 0);
    assert!(relay.at_line_start);
}

#[test]
fn single_line_one_stamp_first() {
    let mut relay = LineRelay::new(true, false);
    let out = relay.process_bytes(&b"hello world".to_vec(), &stamp());
    assert_eq!(out.console, b"<ts>hello world".to_vec());
    assert_eq!(count_stamps(&out.console), 1);
}

#[test]
fn stamps_follow_runs_not_line_ends() {
    let mut relay = LineRelay::new(true, false);
    let out = relay.process_bytes(&b"a\n\n\nbc\r\nd\r".to_vec(), &stamp());
    assert_eq!(out.console, b"<ts>a\n\n\n<ts>bc\r\n<ts>d\r".to_vec());
    assert_eq!(count_stamps(&out.console), 3);
}

#[test]
fn empty_input_changes_nothing() {
    let mut relay = LineRelay::new(true, true);
    let out = relay.process_bytes(&Vec::new(), &stamp());
    assert!(out.console.is_empty());
    assert!(out.log.is_empty());
    assert!(relay.at_line_start);
    assert!(relay.config.timestamps && relay.config.logging);
}

#[test]
fn console_keeps_text_bytes_in_order() {
    let mut relay = LineRelay::new(false, false);
    let out = relay.process_bytes(&vec![b'x', 0xC3, 0xA9, b'\n', b'y'], &stamp());
    assert_eq!(out.console, vec![b'x', PLACEHOLDER, PLACEHOLDER, b'\n', b'y']);
}

#[test]
fn placeholder_after_stamp_for_non_text_line_start() {
    let mut relay = LineRelay::new(true, true);
    let out = relay.process_bytes(&vec![0xFF, b'a'], &stamp());
    assert_eq!(out.console, b"<ts>*a".to_vec());
    assert_eq!(out.log, vec![b'<', b't', b's', b'>', 0xFF, b'a']);
}

#[test]
fn log_gets_every_byte() {
    let input = vec![b'A', b'\r', b'\n', 0x80, 0xFE, b'B'];
    let mut relay = LineRelay::new(false, true);
    let out = relay.process_bytes(&input, &stamp());
    assert_eq!(out.log, input);
    assert_eq!(out.console, vec![b'A', b'\r', b'\n', b'*', b'*', b'B']);
}

#[test]
fn log_gets_stamps_too() {
    let mut relay = LineRelay::new(true, true);
    let out = relay.process_bytes(&b"AB\nCD".to_vec(), &stamp());
    assert_eq!(out.log, b"<ts>AB\n<ts>CD".to_vec());
}

#[test]
fn read_failure_after_ok() {
    let mut relay = LineRelay::new(true, false);
    let mut console = relay.process_bytes(&b"OK".to_vec(), &stamp()).console;
    let report = read_error_report("device disconnected");
    assert_eq!(report, "Error occured when reading: device disconnected");
    console.extend_from_slice(report.as_bytes());
    assert_eq!(console, b"<ts>OKError occured when reading: device disconnected".to_vec());
}

#[test]
fn console_failure_report() {
    assert_eq!(console_error_report("broken pipe"), "#ERR: broken pipe");
}

#[test]
fn tracker_steps() {
    assert_eq!(line_step(true, b'a'), (false, true));
    assert_eq!(line_step(false, b'a'), (false, false));
    assert_eq!(line_step(true, b'\n'), (true, false));
    assert_eq!(line_step(false, b'\r'), (true, false));
    assert!(is_line_end_byte(b'\n') && is_line_end_byte(b'\r') && !is_line_end_byte(b' '));
    assert!(is_text(0x7F) && !is_text(0x80));
}

#[test]
fn process_byte_one_at_a_time() {
    let mut relay = LineRelay::new(true, false);
    assert!(relay.needs_timestamp(b'x'));
    assert!(!relay.needs_timestamp(b'\n'));
    let first = relay.process_byte(b'x', &stamp());
    assert_eq!(first.console, b"<ts>x".to_vec());
    assert!(!relay.needs_timestamp(b'y'));
    let second = relay.process_byte(b'y', &stamp());
    assert_eq!(second.console, b"y".to_vec());
}

#[test]
fn stamps_off_means_no_stamps() {
    let mut relay = LineRelay::new(false, false);
    let out = relay.process_bytes(&b"AB\nCD".to_vec(), &stamp());
    assert_eq!(out.console, b"AB\nCD".to_vec());
}

#[test]
fn relay_byte_stamps_with_clock() {
    let mut relay = LineRelay::new(true, true);
    let out = relay.relay_byte(b'Q');
    assert_eq!(out.console.len(), 20);
    assert_eq!(out.console[19], b'Q');
    assert_eq!(out.console[18], b' ');
    assert_eq!(out.log, out.console);
    let next = relay.relay_byte(b'R');
    assert_eq!(next.console, b"R".to_vec());
}

#[test]
fn loop_policy() {
    assert_eq!(next_action(Event::ByteRead(b'z')), Action::Relay(b'z'));
    assert_eq!(next_action(Event::NothingRead), Action::Continue);
    assert_eq!(next_action(Event::ReadFailed), Action::ReportAndStop);
    assert_eq!(next_action(Event::ConsoleWriteFailed), Action::ReportAndContinue);
    assert_eq!(next_action(Event::LogWriteFailed), Action::Continue);
}

#[test]
fn opened_banner() {
    assert_eq!(opened_report("/dev/ttyUSB0", "1.5m"), "Opened serial port: /dev/ttyUSB0 baudrate: 1.5m");
}

#[test]
fn relay_byte_at_readings() {
    let mut relay = LineRelay::new(true, true);
    let none = relay.relay_byte_at(b'a', None);
    assert_eq!(none.console, b"a".to_vec());
    assert_eq!(none.log, b"a".to_vec());
    relay.relay_byte_at(b'\n', Some((1_700_000_000, 0)));
    let out = relay.relay_byte_at(b'b', Some((1_700_000_000, 123_000_000)));
    assert_eq!(out.console.len(), 20);
    assert_eq!(&out.console[14..], b".123 b");
    assert_eq!(out.log, out.console);
    let late = relay.relay_byte_at(b'c', Some((1_700_000_000, 0)));
    assert_eq!(late.console, b"c".to_vec());
}
