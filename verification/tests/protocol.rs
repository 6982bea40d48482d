use arksync_sensor::commands::DeviceInfoStep;
use arksync_sensor::commands::StatusCode;
use arksync_sensor::commands::UartCommand;
use arksync_sensor::commands::MAX_RETRIES;
use arksync_sensor::decimal::Decimal;
use arksync_sensor::errors::ProtocolError;
use arksync_sensor::serial_port::SerialPort;

fn test_uart() -> UartCommand {
    UartCommand::connect(SerialPort {
        port_name: "/dev/ttyUSB0".to_string(),
        serial_number: "DP065KS3".to_string(),
    })
}

/// Feed a raw byte stream into the command layer; return the last
/// completed response line.
fn feed(uart: &mut UartCommand, bytes: &[u8]) -> Option<Vec<u8>> {
    let mut line = None;
    for b in bytes {
        if let Some(l) = uart.receive_byte(*b) {
            line = Some(l);
        }
    }
    line
}

#[test]
fn test_device_info_parsing() {
    let mut uart = test_uart();
    let request = uart.device_info_request();
    assert_eq!(request, b"i\r".to_vec());
    let line = feed(&mut uart, b"?I,RTD,1.0\r").expect("terminator closes the line");
    match uart.device_info(&line) {
        DeviceInfoStep::Done(info) => {
            assert_eq!(info.device_type, "RTD");
            assert_eq!(
                info.firmware_version,
                Decimal { negative: false, mantissa: 10, scale: 1 }
            );
        }
        other => panic!("expected identification to succeed, got {:?}", other),
    }
}

#[test]
fn device_info_decodes_non_utf8_type_lossily() {
    let mut uart = test_uart();
    let response: Vec<u8> = vec![b'?', b'I', b',', 0xFF, b'X', b',', b'1', b'.', b'0'];
    match uart.device_info(&response) {
        DeviceInfoStep::Done(info) => {
            assert_eq!(info.device_type, "\u{FFFD}X");
        }
        other => panic!("expected identification to succeed, got {:?}", other),
    }
}

#[test]
fn device_info_needs_two_fields() {
    let mut uart = test_uart();
    assert!(matches!(uart.device_info(b"?I,RTD"), DeviceInfoStep::Retry));
}

#[test]
fn device_info_bad_firmware_defaults_to_zero() {
    let mut uart = test_uart();
    match uart.device_info(b"?I,RTD,abc") {
        DeviceInfoStep::Done(info) => {
            assert_eq!(info.firmware_version, Decimal { negative: false, mantissa: 0, scale: 0 });
        }
        other => panic!("expected identification to succeed, got {:?}", other),
    }
}

#[test]
fn device_info_retries_exactly_three_times() {
    assert_eq!(MAX_RETRIES, 3);
    let mut uart = test_uart();
    // a stale temperature reading instead of an identification, thrice
    assert!(matches!(uart.device_info(b"72.5"), DeviceInfoStep::Retry));
    assert!(matches!(uart.device_info(b"72.5"), DeviceInfoStep::Retry));
    assert!(matches!(uart.device_info(b"72.5"), DeviceInfoStep::Failed));
    // the budget resets after failure: the next attempt retries again
    assert!(matches!(uart.device_info(b"72.5"), DeviceInfoStep::Retry));
}

#[test]
fn device_info_succeeds_on_second_attempt() {
    let mut uart = test_uart();
    assert!(matches!(uart.device_info(b"72.5"), DeviceInfoStep::Retry));
    assert!(matches!(uart.device_info(b"?I,RTD,1.0"), DeviceInfoStep::Done(_)));
    // the budget is reset by success: three fresh failures are needed now
    assert!(matches!(uart.device_info(b"junk"), DeviceInfoStep::Retry));
    assert!(matches!(uart.device_info(b"junk"), DeviceInfoStep::Retry));
    assert!(matches!(uart.device_info(b"junk"), DeviceInfoStep::Failed));
}

#[test]
fn read_temperature_parses_decimal() {
    let mut uart = test_uart();
    assert_eq!(uart.read_request(), b"R\r".to_vec());
    let line = feed(&mut uart, b"14.50\r").expect("terminator closes the line");
    assert_eq!(
        uart.read_temperature(&line),
        Ok(Decimal { negative: false, mantissa: 1450, scale: 2 })
    );
}

#[test]
fn read_temperature_rejects_non_numeric() {
    let uart = test_uart();
    assert_eq!(uart.read_temperature(b"*ER"), Err(ProtocolError::InvalidNumber));
    assert_eq!(uart.read_temperature(b""), Err(ProtocolError::InvalidNumber));
}

#[test]
fn check_status_maps_every_code() {
    let uart = test_uart();
    assert_eq!(uart.check_status(b"?STATUS,P"), Ok(StatusCode::PoweredOn));
    assert_eq!(uart.check_status(b"?STATUS,S"), Ok(StatusCode::SoftwareReset));
    assert_eq!(uart.check_status(b"?STATUS,B"), Ok(StatusCode::BrownOut));
    assert_eq!(uart.check_status(b"?STATUS,W"), Ok(StatusCode::Watchdog));
    assert_eq!(uart.check_status(b"?STATUS,Z"), Ok(StatusCode::Unknown));
    assert_eq!(uart.check_status(b"?STATUS,"), Ok(StatusCode::Unknown));
}

#[test]
fn check_status_rejects_missing_marker() {
    let uart = test_uart();
    assert_eq!(uart.check_status(b"72.5"), Err(ProtocolError::InvalidStatusResponse));
    assert_eq!(uart.check_status(b""), Err(ProtocolError::InvalidStatusResponse));
}

#[test]
fn get_calibration_parses_points() {
    let uart = test_uart();
    let cal = uart.get_calibration(b"?Cal,2").expect("marker present");
    assert_eq!(cal.calibration_points, 2);
}

#[test]
fn get_calibration_defaults_to_zero_on_bad_count() {
    let uart = test_uart();
    let cal = uart.get_calibration(b"?Cal,abc").expect("marker present");
    assert_eq!(cal.calibration_points, 0);
    let cal = uart.get_calibration(b"?Cal,999").expect("marker present");
    assert_eq!(cal.calibration_points, 0);
}

#[test]
fn get_calibration_rejects_missing_marker() {
    let uart = test_uart();
    assert_eq!(
        uart.get_calibration(b"Cal,2"),
        Err(ProtocolError::InvalidCalibrationResponse)
    );
}

#[test]
fn requests_are_framed_with_carriage_return() {
    let mut uart = test_uart();
    assert_eq!(uart.status_request(), b"Status\r".to_vec());
    assert_eq!(uart.sleep(), b"Sleep\r".to_vec());
    assert_eq!(uart.calibration_request(), b"Cal,?\r".to_vec());
    assert_eq!(uart.send_raw(b"Cal,clear"), b"Cal,clear\r".to_vec());
}
