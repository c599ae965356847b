use rkbpf::event::{
    EventHeader, GpioEvent, ImuEvent, MotorEvent, RkEvent, SafetyAction, SafetyEvent, SafetyType,
    TimeSeriesEvent, EVENT_HEADER_SIZE,
};

fn header(event_type: u32) -> EventHeader {
    EventHeader {
        timestamp_ns: 1234567890,
        event_type,
        cpu: 0,
        pid: 100,
        reserved: 0,
    }
}

#[test]
fn test_event_header_size() {
    assert_eq!(EVENT_HEADER_SIZE, 24);
}

#[test]
fn test_imu_event_parse() {
    let event = ImuEvent {
        header: header(1),
        accel_x: 100,
        accel_y: -200,
        accel_z: 9800,
        gyro_x: 10,
        gyro_y: -5,
        gyro_z: 0,
        temperature: 2500,
        sensor_id: 1,
    };

    let bytes = event.to_bytes();

    let parsed = RkEvent::from_bytes(&bytes).unwrap();
    match parsed {
        RkEvent::Imu(e) => {
            assert_eq!(e.accel_x, 100);
            assert_eq!(e.accel_z, 9800);
        }
        _ => panic!("expected an IMU event"),
    }
}

#[test]
fn test_safety_type_conversion() {
    assert!(matches!(SafetyType::from(0), SafetyType::LimitSwitch));
    assert!(matches!(SafetyType::from(1), SafetyType::EmergencyStop));
    assert!(matches!(SafetyType::from(99), SafetyType::Unknown));
}

#[test]
fn safety_action_conversion() {
    assert!(matches!(SafetyAction::from(0), SafetyAction::NoAction));
    assert!(matches!(SafetyAction::from(1), SafetyAction::MotorStop));
    assert!(matches!(SafetyAction::from(2), SafetyAction::SystemHalt));
    assert!(matches!(SafetyAction::from(3), SafetyAction::Alert));
    assert!(matches!(SafetyAction::from(77), SafetyAction::Unknown));
}

#[test]
fn every_event_round_trips() {
    let imu = ImuEvent {
        header: header(1),
        accel_x: -1,
        accel_y: 2,
        accel_z: -3,
        gyro_x: 4,
        gyro_y: -5,
        gyro_z: 6,
        temperature: -7,
        sensor_id: 8,
    };
    assert!(matches!(
        RkEvent::from_bytes(&imu.to_bytes()).unwrap(),
        RkEvent::Imu(e) if e == imu
    ));

    let motor = MotorEvent {
        header: header(2),
        channel: 3,
        duty_cycle: 32768,
        period_ns: 20000,
        polarity: 1,
        enabled: 1,
        reserved2: 0,
    };
    assert!(matches!(
        RkEvent::from_bytes(&motor.to_bytes()).unwrap(),
        RkEvent::Motor(e) if e == motor
    ));

    let safety = SafetyEvent {
        header: header(3),
        safety_type: 2,
        source_id: 1,
        value: 9900,
        action: 3,
    };
    assert!(matches!(
        RkEvent::from_bytes(&safety.to_bytes()).unwrap(),
        RkEvent::Safety(e) if e == safety
    ));

    let gpio = GpioEvent {
        header: header(4),
        chip: 0,
        line: 17,
        edge: 1,
        value: 1,
    };
    assert!(matches!(
        RkEvent::from_bytes(&gpio.to_bytes()).unwrap(),
        RkEvent::Gpio(e) if e == gpio
    ));

    let ts = TimeSeriesEvent {
        header: header(5),
        series_id: 9,
        pad: 0,
        value: -123456789,
        tag: 7,
        reserved2: 0,
    };
    assert!(matches!(
        RkEvent::from_bytes(&ts.to_bytes()).unwrap(),
        RkEvent::TimeSeries(e) if e == ts
    ));
}

#[test]
fn unknown_discriminator_is_preserved() {
    let ev = MotorEvent {
        header: header(42),
        channel: 0,
        duty_cycle: 0,
        period_ns: 0,
        polarity: 0,
        enabled: 0,
        reserved2: 0,
    };
    let bytes = ev.to_bytes();
    match RkEvent::from_bytes(&bytes).unwrap() {
        RkEvent::Unknown { event_type, data } => {
            assert_eq!(event_type, 42);
            assert_eq!(data, bytes);
        }
        _ => panic!("expected an unknown event"),
    }
}

#[test]
fn short_event_is_rejected() {
    let bytes = vec![0u8; 10];
    assert!(RkEvent::from_bytes(&bytes).is_err());
    // a known discriminator with a truncated payload is rejected too
    let mut hdr_only = header(1).clone();
    hdr_only.event_type = 1;
    let full = ImuEvent {
        header: hdr_only,
        accel_x: 0,
        accel_y: 0,
        accel_z: 0,
        gyro_x: 0,
        gyro_y: 0,
        gyro_z: 0,
        temperature: 0,
        sensor_id: 0,
    }
    .to_bytes();
    let truncated = full[..30].to_vec();
    assert!(RkEvent::from_bytes(&truncated).is_err());
}

#[test]
fn event_accessors() {
    let ev = RkEvent::Gpio(GpioEvent {
        header: header(4),
        chip: 1,
        line: 2,
        edge: 1,
        value: 0,
    });
    assert_eq!(ev.timestamp_ns(), 1234567890);
    assert_eq!(ev.event_type(), 4);
    let unk = RkEvent::Unknown { event_type: 250, data: vec![] };
    assert_eq!(unk.timestamp_ns(), 0);
    assert_eq!(unk.event_type(), 250);
}
