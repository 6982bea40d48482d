use arksync_sensor::bytes::find_byte_from;
use arksync_sensor::bytes::parse_u64_digits;
use arksync_sensor::bytes::starts_with;
use arksync_sensor::bytes::trim;
use arksync_sensor::decimal::parse_decimal;
use arksync_sensor::decimal::Decimal;
use arksync_sensor::serial_port::SerialPort;
use arksync_sensor::transport::frame_command;
use arksync_sensor::transport::SerialPortConnection;
use arksync_sensor::transport::BAUD_RATE;
use arksync_sensor::transport::READ_TIMEOUT_MS;

fn test_port() -> SerialPort {
    SerialPort {
        port_name: "/dev/ttyUSB1".to_string(),
        serial_number: "DK0HFBFB".to_string(),
    }
}

#[test]
fn frame_appends_single_terminator() {
    assert_eq!(frame_command(b"i"), b"i\r".to_vec());
    assert_eq!(frame_command(b""), b"\r".to_vec());
    assert_eq!(frame_command(b"Cal,?"), b"Cal,?\r".to_vec());
}

#[test]
fn open_uses_fixed_configuration() {
    let c = SerialPortConnection::open(test_port());
    assert_eq!(c.baud_rate, 9600);
    assert_eq!(c.timeout_ms, 1000);
    assert_eq!(BAUD_RATE, 9600);
    assert_eq!(READ_TIMEOUT_MS, 1000);
    assert!(c.rx_buffer.is_empty());
}

#[test]
fn receive_accumulates_until_terminator_and_trims() {
    let mut c = SerialPortConnection::open(test_port());
    for b in b" 14.50 " {
        assert_eq!(c.receive_byte(*b), None);
    }
    let line = c.receive_byte(b'\r').expect("terminator closes the line");
    assert_eq!(line, b"14.50".to_vec());
    // the buffer is reset for the next exchange
    assert!(c.rx_buffer.is_empty());
    assert_eq!(c.receive_byte(b'9'), None);
    assert_eq!(c.receive_byte(b'\r'), Some(b"9".to_vec()));
}

#[test]
fn send_command_discards_stale_input() {
    let mut c = SerialPortConnection::open(test_port());
    assert_eq!(c.receive_byte(b'x'), None);
    assert!(!c.rx_buffer.is_empty());
    let frame = c.send_command(b"Status");
    assert_eq!(frame, b"Status\r".to_vec());
    assert!(c.rx_buffer.is_empty());
}

#[test]
fn decimal_accepts_plain_literals() {
    assert_eq!(
        parse_decimal(b"14.50"),
        Some(Decimal { negative: false, mantissa: 1450, scale: 2 })
    );
    assert_eq!(parse_decimal(b"3"), Some(Decimal { negative: false, mantissa: 3, scale: 0 }));
    assert_eq!(
        parse_decimal(b"-3.5"),
        Some(Decimal { negative: true, mantissa: 35, scale: 1 })
    );
    assert_eq!(parse_decimal(b"+2"), Some(Decimal { negative: false, mantissa: 2, scale: 0 }));
    assert_eq!(parse_decimal(b"14."), Some(Decimal { negative: false, mantissa: 14, scale: 0 }));
    assert_eq!(parse_decimal(b".5"), Some(Decimal { negative: false, mantissa: 5, scale: 1 }));
    assert_eq!(parse_decimal(b"0.0"), Some(Decimal { negative: false, mantissa: 0, scale: 1 }));
}

#[test]
fn decimal_rejects_malformed_literals() {
    assert_eq!(parse_decimal(b""), None);
    assert_eq!(parse_decimal(b"."), None);
    assert_eq!(parse_decimal(b"abc"), None);
    assert_eq!(parse_decimal(b"1.2.3"), None);
    assert_eq!(parse_decimal(b"-"), None);
    assert_eq!(parse_decimal(b"1e3"), None);
    // mantissa beyond u64
    assert_eq!(parse_decimal(b"99999999999999999999999999"), None);
}

#[test]
fn zero_is_the_parse_fallback_value() {
    assert_eq!(Decimal::zero(), Decimal { negative: false, mantissa: 0, scale: 0 });
}

#[test]
fn trim_removes_ascii_whitespace_at_both_ends() {
    assert_eq!(trim(b"  a b\t\r\n"), b"a b".to_vec());
    assert_eq!(trim(b"\r\n\t "), Vec::<u8>::new());
    assert_eq!(trim(b"x"), b"x".to_vec());
    assert_eq!(trim(b""), Vec::<u8>::new());
}

#[test]
fn byte_helpers_search_and_parse() {
    assert!(starts_with(b"?STATUS,P", b"?STATUS,"));
    assert!(!starts_with(b"?STAT", b"?STATUS,"));
    assert_eq!(find_byte_from(b"a,b,c", 0, b','), Some(1));
    assert_eq!(find_byte_from(b"a,b,c", 2, b','), Some(3));
    assert_eq!(find_byte_from(b"abc", 0, b','), None);
    assert_eq!(parse_u64_digits(b"007"), Some(7));
    assert_eq!(parse_u64_digits(b"18446744073709551615"), Some(u64::MAX));
    assert_eq!(parse_u64_digits(b"18446744073709551616"), None);
    assert_eq!(parse_u64_digits(b"1x"), None);
    assert_eq!(parse_u64_digits(b""), None);
}
