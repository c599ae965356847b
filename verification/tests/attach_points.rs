use rkbpf::attach::gpio::{GpioAttach, GpioEdge, GpioEvent};
use rkbpf::attach::iio::{IioAttach, IioChannel};
use rkbpf::attach::kprobe::{KprobeAttach, KprobeType};
use rkbpf::attach::pwm::{PwmAttach, PwmEvent};
use rkbpf::attach::tracepoint::TracepointAttach;
use rkbpf::attach::{AttachError, AttachType};
use rkbpf::bytecode::{BpfInsn, BpfProgType, ProgramBuilder};

#[test]
fn create_gpio_attach() {
    let gpio = GpioAttach::new("gpiochip0", 17, GpioEdge::Rising).unwrap();
    assert_eq!(gpio.chip(), "gpiochip0");
    assert_eq!(gpio.line(), 17);
    assert_eq!(gpio.edge(), GpioEdge::Rising);
}

#[test]
fn gpio_edge_from_flags() {
    assert_eq!(GpioEdge::from_flags(1), GpioEdge::Rising);
    assert_eq!(GpioEdge::from_flags(2), GpioEdge::Falling);
    assert_eq!(GpioEdge::from_flags(3), GpioEdge::Both);
    assert_eq!(GpioEdge::from_flags(0), GpioEdge::Both);
}

#[test]
fn gpio_event_helpers() {
    let rising = GpioEvent {
        timestamp: 0,
        chip_id: 0,
        line: 17,
        edge: 1,
        value: 1,
    };
    assert!(rising.is_rising());
    assert!(!rising.is_falling());
    assert!(rising.value_bool());

    let falling = GpioEvent {
        timestamp: 0,
        chip_id: 0,
        line: 17,
        edge: 2,
        value: 0,
    };
    assert!(!falling.is_rising());
    assert!(falling.is_falling());
    assert!(!falling.value_bool());
}

#[test]
fn create_iio_attach() {
    let iio = IioAttach::new("iio:device0", "in_accel_x").unwrap();
    assert_eq!(iio.device(), "iio:device0");
    assert_eq!(iio.channel(), "in_accel_x");
    assert_eq!(*iio.channel_type(), IioChannel::AccelX);
}

#[test]
fn iio_channel_parsing() {
    assert_eq!(IioChannel::parse("in_accel_x"), IioChannel::AccelX);
    assert_eq!(IioChannel::parse("in_anglvel_z"), IioChannel::AnglVelZ);
    assert_eq!(IioChannel::parse("in_voltage0"), IioChannel::Voltage(0));
    assert_eq!(IioChannel::parse("in_voltage3"), IioChannel::Voltage(3));
    assert_eq!(IioChannel::parse("voltage12"), IioChannel::Voltage(12));
    assert_eq!(IioChannel::parse("in_voltage999"), IioChannel::Voltage(0));
    assert_eq!(
        IioChannel::parse("something_else"),
        IioChannel::Generic("something_else".to_string())
    );
}

#[test]
fn create_kprobe() {
    let kprobe = KprobeAttach::new("sys_write", KprobeType::Entry).unwrap();
    assert_eq!(kprobe.function(), "sys_write");
    assert_eq!(kprobe.probe_type(), KprobeType::Entry);
    assert_eq!(kprobe.attach_type(), AttachType::Kprobe);
}

#[test]
fn create_kretprobe() {
    let kprobe = KprobeAttach::new("sys_read", KprobeType::Return).unwrap();
    assert_eq!(kprobe.attach_type(), AttachType::Kretprobe);
}

#[test]
fn invalid_function_name() {
    let result = KprobeAttach::new("", KprobeType::Entry);
    assert!(matches!(result, Err(AttachError::InvalidTarget(_))));
}

#[test]
fn create_pwm_attach() {
    let pwm = PwmAttach::new("pwmchip0", 0).unwrap();
    assert_eq!(pwm.chip(), "pwmchip0");
    assert_eq!(pwm.channel(), 0);
}

#[test]
fn pwm_event_integer_observables() {
    let event = PwmEvent {
        timestamp: 0,
        chip_id: 0,
        channel: 0,
        period_ns: 1_000_000, // 1 ms, one kilohertz
        duty_ns: 500_000,     // half duty
        polarity: 0,
        enabled: 1,
    };

    assert_eq!(event.duty_permyriad(), 5000);
    assert_eq!(event.frequency_hz(), 1000);
    assert!(event.is_enabled());
    assert!(!event.is_inverted());

    let zero_period = PwmEvent {
        timestamp: 0,
        chip_id: 0,
        channel: 0,
        period_ns: 0,
        duty_ns: 0,
        polarity: 0,
        enabled: 0,
    };

    assert_eq!(zero_period.duty_permyriad(), 0);
    assert_eq!(zero_period.frequency_hz(), 0);
    assert!(!zero_period.is_enabled());
}

#[test]
fn create_tracepoint() {
    let tp = TracepointAttach::new("syscalls", "sys_enter_write").unwrap();
    assert_eq!(tp.category(), "syscalls");
    assert_eq!(tp.name(), "sys_enter_write");
}

fn trivial_program() -> rkbpf::bytecode::BpfProgram {
    ProgramBuilder::new(BpfProgType::SocketFilter)
        .insn(BpfInsn::mov64_imm(0, 0))
        .insn(BpfInsn::exit())
        .build()
        .unwrap()
}

#[test]
fn attach_then_detach_restores_registry() {
    let program = trivial_program();
    let mut kp = KprobeAttach::new("sys_write", KprobeType::Entry).unwrap();
    let before = kp.attached_ids();
    let id = kp.attach(&program).unwrap();
    assert!(kp.is_attached(id));
    kp.detach(id).unwrap();
    assert_eq!(kp.attached_ids(), before);
    // a second detach of the same id reports resource-not-found
    assert_eq!(kp.detach(id), Err(AttachError::ResourceNotFound));
}

#[test]
fn same_program_attaches_many_times() {
    let program = trivial_program();
    let mut gp = GpioAttach::new("gpiochip0", 4, GpioEdge::Both).unwrap();
    let a = gp.attach(&program).unwrap();
    let b = gp.attach(&program).unwrap();
    let c = gp.attach(&program).unwrap();
    assert_ne!(a, b);
    assert_ne!(b, c);
    assert_eq!(gp.attached_ids(), vec![a, b, c]);
    gp.detach(b).unwrap();
    assert_eq!(gp.attached_ids(), vec![a, c]);
    assert!(!gp.is_attached(b));
}

#[test]
fn attach_errors_carry_their_target() {
    let gpio_err = GpioAttach::new("", 3, GpioEdge::Rising).err().unwrap();
    assert_eq!(gpio_err, AttachError::InvalidTarget("".to_string()));
    let iio_err = IioAttach::new("", "in_temp").err().unwrap();
    assert_eq!(iio_err, AttachError::InvalidTarget(":in_temp".to_string()));
    let kprobe_err = KprobeAttach::new("", KprobeType::Entry).err().unwrap();
    assert_eq!(kprobe_err, AttachError::InvalidTarget("".to_string()));
    let pwm_err = PwmAttach::new("", 0).err().unwrap();
    assert_eq!(pwm_err, AttachError::InvalidTarget("".to_string()));
    let tp_err = TracepointAttach::new("sched", "").err().unwrap();
    assert_eq!(tp_err, AttachError::InvalidTarget("sched:".to_string()));
}
