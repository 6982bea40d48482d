use arksync_sensor::commands::DeviceInfoStep;
use arksync_sensor::commands::UartCommand;
use arksync_sensor::decimal::Decimal;
use arksync_sensor::errors::DiscoveryError;
use arksync_sensor::sensor::LivenessEvent;
use arksync_sensor::sensor::Sensor;
use arksync_sensor::sensor::SensorKind;
use arksync_sensor::sensor::SensorState;
use arksync_sensor::serial_port::find_atlas_sc_port;
use arksync_sensor::serial_port::is_atlas_sc_device;
use arksync_sensor::serial_port::port_identity;
use arksync_sensor::serial_port::SerialPortInfo;
use arksync_sensor::serial_port::SerialPortType;
use arksync_sensor::service::detect_new_ports;
use arksync_sensor::service::healthcheck_partition;
use arksync_sensor::service::ServiceCommand;
use arksync_sensor::service::ServiceReply;
use arksync_sensor::service::UartService;
use arksync_sensor::service::GRACE_WINDOW_MS;

fn usb_port(name: &str, vid: u16, pid: u16, serial: Option<&str>) -> SerialPortInfo {
    SerialPortInfo {
        port_name: name.to_string(),
        port_type: SerialPortType::UsbPort {
            vid,
            pid,
            serial_number: serial.map(|s| s.to_string()),
        },
    }
}

#[test]
fn discovery_filters_to_the_supported_family() {
    assert!(is_atlas_sc_device(&usb_port("/dev/ttyUSB0", 0x0403, 0x6001, Some("A"))));
    assert!(is_atlas_sc_device(&usb_port("/dev/ttyUSB1", 0x0403, 0x6015, Some("B"))));
    assert!(!is_atlas_sc_device(&usb_port("/dev/ttyUSB2", 0x0403, 0x9999, Some("C"))));
    assert!(!is_atlas_sc_device(&usb_port("/dev/ttyUSB3", 0x1a86, 0x6001, Some("D"))));
    assert!(!is_atlas_sc_device(&SerialPortInfo {
        port_name: "/dev/ttyS0".to_string(),
        port_type: SerialPortType::Other,
    }));

    let all = vec![
        usb_port("/dev/ttyUSB0", 0x0403, 0x6001, Some("A")),
        usb_port("/dev/ttyUSB2", 0x0403, 0x9999, Some("C")),
        usb_port("/dev/ttyUSB1", 0x0403, 0x6015, Some("B")),
    ];
    let matching = find_atlas_sc_port(all);
    let names: Vec<String> = matching.iter().map(|p| p.port_name.clone()).collect();
    assert_eq!(names, vec!["/dev/ttyUSB0".to_string(), "/dev/ttyUSB1".to_string()]);
}

#[test]
fn port_without_serial_number_is_excluded() {
    let good = usb_port("/dev/ttyUSB0", 0x0403, 0x6001, Some("DP065KS3"));
    let identity = port_identity(&good).expect("tracked uniquely");
    assert_eq!(identity.port_name, "/dev/ttyUSB0");
    assert_eq!(identity.serial_number, "DP065KS3");

    let bad = usb_port("/dev/ttyUSB1", 0x0403, 0x6001, None);
    match port_identity(&bad) {
        Err(e) => assert_eq!(e, DiscoveryError::MissingSerialNumber),
        Ok(sp) => panic!("expected exclusion, got {}", sp.serial_number),
    }
}

#[test]
fn liveness_state_machine_transitions() {
    let mut s = bring_up("/dev/ttyUSB0", "DP065KS3");
    assert_eq!(s.state, SensorState::Initializing);
    s.apply_liveness(LivenessEvent::ActivityConfirmed);
    assert_eq!(s.state, SensorState::Active);
    s.apply_liveness(LivenessEvent::ActivityConfirmed);
    assert_eq!(s.state, SensorState::Active);
    s.apply_liveness(LivenessEvent::HealthCycleSilent);
    assert_eq!(s.state, SensorState::Unreachable);
    s.apply_liveness(LivenessEvent::HealthCycleSilent);
    assert_eq!(s.state, SensorState::Unreachable);
    s.apply_liveness(LivenessEvent::ActivityConfirmed);
    assert_eq!(s.state, SensorState::Active);

    let mut init = bring_up("/dev/ttyUSB1", "DK0HFBFB");
    init.apply_liveness(LivenessEvent::HealthCycleSilent);
    assert_eq!(init.state, SensorState::Initializing);
}

/// Simulate bring-up of one port whose device answers `?I,RTD,1.0` to the
/// first identification query.
fn bring_up(port_name: &str, serial: &str) -> Sensor {
    let identity = port_identity(&usb_port(port_name, 0x0403, 0x6001, Some(serial)))
        .expect("tracked uniquely");
    let mut uart = UartCommand::connect(identity.clone());
    let request = uart.device_info_request();
    assert_eq!(request, b"i\r".to_vec());
    let mut line = None;
    for b in b"?I,RTD,1.0\r" {
        if let Some(l) = uart.receive_byte(*b) {
            line = Some(l);
        }
    }
    match uart.device_info(&line.expect("terminator closes the line")) {
        DeviceInfoStep::Done(info) => Sensor::from_device(identity, &info, 0),
        other => panic!("bring-up failed: {:?}", other),
    }
}

#[test]
fn bring_up_records_identity_and_initializing_state() {
    let s = bring_up("/dev/ttyUSB0", "DP065KS3");
    assert_eq!(s.serial, "DP065KS3");
    assert_eq!(s.kind, SensorKind::Rtd);
    assert_eq!(s.firmware, Decimal { negative: false, mantissa: 10, scale: 1 });
    assert!(s.name.is_none());
    assert_eq!(s.state, SensorState::Initializing);
    assert_eq!(s.last_activity, 0);
}

#[test]
fn two_sensors_end_to_end() {
    // one detector cycle over two supported ports and one foreign port
    let enumeration = vec![
        usb_port("/dev/ttyUSB0", 0x0403, 0x6001, Some("DP065KS3")),
        usb_port("/dev/ttyACM0", 0x2341, 0x0043, Some("UNRELATED")),
        usb_port("/dev/ttyUSB1", 0x0403, 0x6015, Some("DK0HFBFB")),
    ];
    let supported = find_atlas_sc_port(enumeration);
    let identities: Vec<_> = supported
        .iter()
        .map(|p| port_identity(p).expect("tracked uniquely"))
        .collect();

    let mut service = UartService::new();
    let snapshot = match service.handle_cmd(ServiceCommand::AllSensors, 0) {
        ServiceReply::Sensors(s) => s,
        other => panic!("expected a snapshot, got {:?}", other),
    };
    let fresh = detect_new_ports(&identities, &snapshot);
    assert_eq!(fresh.len(), 2);

    // bring-up succeeds on the first query for both; batch one upsert
    let t0 = 10_000;
    let brought: Vec<Sensor> = fresh
        .iter()
        .map(|p| bring_up(&p.port_name, &p.serial_number))
        .collect();
    service.handle_cmd(ServiceCommand::UpsertSensors(brought), t0);

    let all = match service.handle_cmd(ServiceCommand::AllSensors, t0) {
        ServiceReply::Sensors(s) => s,
        other => panic!("expected a snapshot, got {:?}", other),
    };
    assert_eq!(all.len(), 2);
    let mut serials: Vec<String> = all.iter().map(|s| s.serial.clone()).collect();
    serials.sort();
    assert_eq!(serials, vec!["DK0HFBFB".to_string(), "DP065KS3".to_string()]);
    assert!(all.iter().all(|s| s.state == SensorState::Active));

    // a second detector cycle proposes nothing new
    assert!(detect_new_ports(&identities, &all).is_empty());

    // one sensor is forced unreachable and stays silent past the grace
    // window; the other remains active
    let now = t0 + GRACE_WINDOW_MS + 1;
    let mut snapshot = all;
    for s in snapshot.iter_mut() {
        if s.serial == "DP065KS3" {
            s.apply_liveness(LivenessEvent::HealthCycleSilent);
        }
    }
    let (expired, retained) = healthcheck_partition(&snapshot, now, GRACE_WINDOW_MS);
    assert_eq!(expired, vec!["DP065KS3".to_string()]);
    service.handle_cmd(ServiceCommand::RemoveSensors(expired), now);
    service.handle_cmd(ServiceCommand::UpsertSensors(retained), now);

    let left = match service.handle_cmd(ServiceCommand::AllSensors, now) {
        ServiceReply::Sensors(s) => s,
        other => panic!("expected a snapshot, got {:?}", other),
    };
    assert_eq!(left.len(), 1);
    assert_eq!(left[0].serial, "DK0HFBFB");
    assert_eq!(left[0].state, SensorState::Active);
}
