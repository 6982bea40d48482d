use arksync_sensor::decimal::Decimal;
use arksync_sensor::fleet::Fleet;
use arksync_sensor::sensor::Sensor;
use arksync_sensor::sensor::SensorKind;
use arksync_sensor::sensor::SensorState;
use arksync_sensor::sensor::SensorType;
use arksync_sensor::serial_port::SerialPort;
use arksync_sensor::service::detect_new_ports;
use arksync_sensor::service::healthcheck_partition;
use arksync_sensor::service::ServiceCommand;
use arksync_sensor::service::ServiceReply;
use arksync_sensor::service::UartService;
use arksync_sensor::service::GRACE_WINDOW_MS;

fn sensor(serial: &str, state: SensorState, last_activity: u64) -> Sensor {
    Sensor {
        serial: serial.to_string(),
        kind: SensorKind::Rtd,
        firmware: Decimal { negative: false, mantissa: 10, scale: 1 },
        name: None,
        state,
        sensor_type: SensorType::Uart {
            port: SerialPort {
                port_name: format!("/dev/tty-{serial}"),
                serial_number: serial.to_string(),
            },
        },
        last_activity,
    }
}

#[test]
fn upsert_same_serial_twice_keeps_one_entry_with_latest_values() {
    let mut fleet = Fleet::new();
    let mut first = sensor("DP065KS3", SensorState::Initializing, 0);
    first.firmware = Decimal { negative: false, mantissa: 10, scale: 1 };
    fleet.upsert_sensor(first, 1000);
    let mut second = sensor("DP065KS3", SensorState::Initializing, 0);
    second.firmware = Decimal { negative: false, mantissa: 11, scale: 1 };
    fleet.upsert_sensor(second, 2000);

    assert_eq!(fleet.len(), 1);
    let entry = fleet.find_sensor(&"DP065KS3".to_string()).expect("tracked");
    assert_eq!(entry.firmware, Decimal { negative: false, mantissa: 11, scale: 1 });
    assert_eq!(entry.last_activity, 2000);
    assert_eq!(entry.state, SensorState::Active);
}

#[test]
fn upsert_asserts_liveness() {
    let mut fleet = Fleet::new();
    fleet.upsert_sensor(sensor("DK0HFBFB", SensorState::Unreachable, 7), 500);
    let entry = fleet.find_sensor(&"DK0HFBFB".to_string()).expect("tracked");
    assert_eq!(entry.state, SensorState::Active);
    assert_eq!(entry.last_activity, 500);
}

#[test]
fn remove_of_absent_key_is_a_noop() {
    let mut fleet = Fleet::new();
    fleet.upsert_sensor(sensor("DP065KS3", SensorState::Initializing, 0), 1);
    fleet.remove_sensors(&vec!["UNSEEN".to_string()]);
    assert_eq!(fleet.len(), 1);
    fleet.remove_sensors(&vec!["DP065KS3".to_string(), "UNSEEN".to_string()]);
    assert_eq!(fleet.len(), 0);
}

#[test]
fn find_of_absent_key_is_none() {
    let fleet = Fleet::new();
    assert!(fleet.find_sensor(&"DP065KS3".to_string()).is_none());
}

#[test]
fn snapshot_is_not_a_live_view() {
    let mut fleet = Fleet::new();
    fleet.upsert_sensor(sensor("DP065KS3", SensorState::Initializing, 0), 1);
    let snapshot = fleet.all_sensors();
    fleet.upsert_sensor(sensor("DK0HFBFB", SensorState::Initializing, 0), 2);
    assert_eq!(snapshot.len(), 1);
    assert_eq!(fleet.len(), 2);
}

#[test]
fn handle_cmd_covers_every_command() {
    let mut service = UartService::new();
    let reply = service.handle_cmd(
        ServiceCommand::UpsertSensors(vec![
            sensor("DP065KS3", SensorState::Initializing, 0),
            sensor("DK0HFBFB", SensorState::Initializing, 0),
        ]),
        100,
    );
    assert!(matches!(reply, ServiceReply::Done));

    match service.handle_cmd(ServiceCommand::AllSensors, 101) {
        ServiceReply::Sensors(all) => {
            assert_eq!(all.len(), 2);
            assert!(all.iter().all(|s| s.state == SensorState::Active));
            assert!(all.iter().all(|s| s.last_activity == 100));
        }
        other => panic!("expected a snapshot, got {:?}", other),
    }

    match service.handle_cmd(ServiceCommand::FindSensor("DP065KS3".to_string()), 102) {
        ServiceReply::FoundSensor(Some(s)) => assert_eq!(s.serial, "DP065KS3"),
        other => panic!("expected a point lookup hit, got {:?}", other),
    }

    let reply = service.handle_cmd(
        ServiceCommand::RemoveSensors(vec!["DP065KS3".to_string()]),
        103,
    );
    assert!(matches!(reply, ServiceReply::Done));
    match service.handle_cmd(ServiceCommand::FindSensor("DP065KS3".to_string()), 104) {
        ServiceReply::FoundSensor(None) => {}
        other => panic!("expected the entry to be gone, got {:?}", other),
    }
}

#[test]
fn healthcheck_removes_only_unreachable_past_grace() {
    let now = 1_000_000;
    let snapshot = vec![
        // unreachable and silent past the grace window: expired
        sensor("OLD-UNREACHABLE", SensorState::Unreachable, now - GRACE_WINDOW_MS - 1),
        // unreachable but still inside the window: retained
        sensor("YOUNG-UNREACHABLE", SensorState::Unreachable, now - GRACE_WINDOW_MS),
        // active, no matter how old: retained
        sensor("ANCIENT-ACTIVE", SensorState::Active, 0),
        // freshly active: retained
        sensor("FRESH-ACTIVE", SensorState::Active, now),
    ];
    let (expired, retained) = healthcheck_partition(&snapshot, now, GRACE_WINDOW_MS);
    assert_eq!(expired, vec!["OLD-UNREACHABLE".to_string()]);
    let kept: Vec<String> = retained.iter().map(|s| s.serial.clone()).collect();
    assert_eq!(
        kept,
        vec![
            "YOUNG-UNREACHABLE".to_string(),
            "ANCIENT-ACTIVE".to_string(),
            "FRESH-ACTIVE".to_string()
        ]
    );
}

#[test]
fn healthcheck_boundary_is_strictly_greater() {
    let now = GRACE_WINDOW_MS + 50;
    // exactly at the window: retained; one past it: expired
    let snapshot = vec![
        sensor("AT-BOUNDARY", SensorState::Unreachable, 50),
        sensor("PAST-BOUNDARY", SensorState::Unreachable, 49),
    ];
    let (expired, retained) = healthcheck_partition(&snapshot, now, GRACE_WINDOW_MS);
    assert_eq!(expired, vec!["PAST-BOUNDARY".to_string()]);
    assert_eq!(retained.len(), 1);
    assert_eq!(retained[0].serial, "AT-BOUNDARY");
}

#[test]
fn detector_skips_serials_already_tracked() {
    let snapshot = vec![sensor("DP065KS3", SensorState::Active, 0)];
    let discovered = vec![
        SerialPort {
            port_name: "/dev/ttyUSB0".to_string(),
            serial_number: "DP065KS3".to_string(),
        },
        SerialPort {
            port_name: "/dev/ttyUSB1".to_string(),
            serial_number: "DK0HFBFB".to_string(),
        },
    ];
    let fresh = detect_new_ports(&discovered, &snapshot);
    assert_eq!(fresh.len(), 1);
    assert_eq!(fresh[0].serial_number, "DK0HFBFB");

    // nothing new: nothing proposed, even across repeated cycles
    let none = detect_new_ports(
        &vec![SerialPort {
            port_name: "/dev/ttyUSB9".to_string(),
            serial_number: "DP065KS3".to_string(),
        }],
        &snapshot,
    );
    assert!(none.is_empty());
}
