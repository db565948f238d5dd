use spindle_panel::codec::{command_text, Command, MachineState, SpindleState};
use spindle_panel::commands::{
    command_reply, config_write_reply, emergency_stop, get_available_ports, get_max_spindle_speed,
    get_selected_port, get_spindle_state, set_max_spindle_speed, set_port, set_spindle_target,
    spindle_state_reply, start_spindle, stop_spindle, ErrorKind,
};
use spindle_panel::communication::{Communication, Event, GateError, Step, REPLY_CAPACITY};
use spindle_panel::config::{ConfigError, Configuration};
use spindle_panel::ports::PortEntry;

/// A serial port that records what is written to it and answers reads with a
/// fixed reply.
struct Loopback {
    opens: usize,
    wire: Vec<u8>,
    reply: Vec<u8>,
    open_fails: bool,
    write_fails: bool,
    read_fails: bool,
}

impl Loopback {
    fn new(reply: &[u8]) -> Self {
        Loopback {
            opens: 0,
            wire: Vec::new(),
            reply: reply.to_vec(),
            open_fails: false,
            write_fails: false,
            read_fails: false,
        }
    }
}

fn drive(comm: &mut Communication, first: Step, port: &mut Loopback) -> Result<Vec<u8>, GateError> {
    let mut step = first;
    loop {
        assert!(comm.is_locked() || matches!(step, Step::Done(_)));
        step = match step {
            Step::Open(_) => {
                port.opens += 1;
                let e = if port.open_fails {
                    Event::OpenFailed("No such file or directory".to_string())
                } else {
                    Event::Opened
                };
                comm.advance(e)
            }
            Step::Write(bytes) => {
                if port.write_fails {
                    comm.advance(Event::WriteFailed)
                } else {
                    port.wire.extend_from_slice(&bytes);
                    comm.advance(Event::Written)
                }
            }
            Step::Read(n) => {
                if port.read_fails {
                    comm.advance(Event::ReadFailed)
                } else {
                    let mut buf = vec![0u8; n];
                    let k = port.reply.len().min(n);
                    buf[..k].copy_from_slice(&port.reply[..k]);
                    comm.advance(Event::ReadDone(buf))
                }
            }
            Step::Done(r) => {
                assert!(!comm.is_locked());
                return r;
            }
        };
    }
}

fn entry(name: &str, vid: Option<u16>) -> PortEntry {
    PortEntry { port_name: name.to_string(), usb_vendor_id: vid }
}

fn selected(path: &str) -> Communication {
    let mut comm = Communication::new();
    assert_eq!(set_port(&mut comm, Ok(vec![entry(path, Some(0x0483))]), path.to_string()), Ok(()));
    comm
}

#[test]
fn enumerate_on_empty_bus() {
    assert_eq!(get_available_ports(Ok(Vec::new())), Ok(Vec::<String>::new()));
}

#[test]
fn enumerate_with_mixed_devices() {
    let ports = vec![
        entry("/dev/ttyACM0", Some(0x0483)),
        entry("/dev/ttyUSB0", Some(0x10C4)),
        entry("/dev/ttyS0", None),
    ];
    assert_eq!(get_available_ports(Ok(ports)), Ok(vec!["/dev/ttyACM0".to_string()]));
}

#[test]
fn enumeration_failure_is_reported() {
    assert_eq!(
        get_available_ports(Err(())),
        Err("Unable to get available serial ports.".to_string())
    );
}

#[test]
fn select_unknown_port() {
    let mut comm = Communication::new();
    let r = set_port(&mut comm, Ok(Vec::new()), "/dev/ttyS99".to_string());
    assert_eq!(r, Err("Specified port is not available.".to_string()));
    assert_eq!(get_selected_port(&comm), Err(()));
}

#[test]
fn select_fails_when_enumeration_fails() {
    let mut comm = Communication::new();
    let r = set_port(&mut comm, Err(()), "/dev/ttyACM0".to_string());
    assert_eq!(r, Err("Unable to get available serial ports.".to_string()));
    assert_eq!(comm.get_serial_path(), None);
}

#[test]
fn selected_port_is_reported() {
    let mut comm = Communication::new();
    assert_eq!(get_selected_port(&comm), Err(()));
    let ports = vec![entry("/dev/ttyS0", None), entry("/dev/ttyACM1", Some(0x0483))];
    assert_eq!(set_port(&mut comm, Ok(ports), "/dev/ttyS0".to_string()), Ok(()));
    assert_eq!(get_selected_port(&comm), Ok("/dev/ttyS0".to_string()));
}

#[test]
fn start_spindle_happy_path() {
    let mut comm = selected("/dev/ttyACM0");
    let mut port = Loopback::new(b"");
    let first = start_spindle(&mut comm);
    assert!(matches!(&first, Step::Open(p) if p == "/dev/ttyACM0"));
    let done = drive(&mut comm, first, &mut port);
    assert_eq!(command_reply(Command::Start, done), Ok(()));
    assert_eq!(port.wire, b";START\n".to_vec());
    assert!(comm.is_open());
}

#[test]
fn handle_is_opened_once_and_reused() {
    let mut comm = selected("/dev/ttyACM0");
    let mut port = Loopback::new(b"");
    let first = stop_spindle(&mut comm);
    assert_eq!(command_reply(Command::Stop, drive(&mut comm, first, &mut port)), Ok(()));
    let second = emergency_stop(&mut comm);
    assert!(matches!(second, Step::Write(_)));
    assert_eq!(command_reply(Command::EmergencyStop, drive(&mut comm, second, &mut port)), Ok(()));
    assert_eq!(port.opens, 1);
    assert_eq!(port.wire, b";STOP\n;EMERG\n".to_vec());
}

#[test]
fn set_target_writes_target_frame() {
    let mut comm = selected("/dev/ttyACM0");
    let mut port = Loopback::new(b"");
    let first = set_spindle_target(&mut comm, true, 1500);
    let target = Command::Target { reverse: true, speed: 1500 };
    assert_eq!(command_reply(target, drive(&mut comm, first, &mut port)), Ok(()));
    assert_eq!(port.wire, b";TARGET R 1500\n".to_vec());
}

#[test]
fn query_state_end_to_end() {
    let mut comm = selected("/dev/ttyACM0");
    let mut port = Loopback::new(b";RUN F 1500 1487 62\n");
    let first = get_spindle_state(&mut comm);
    let done = drive(&mut comm, first, &mut port);
    assert_eq!(done.as_ref().map(|b| b.len()), Ok(REPLY_CAPACITY));
    let expected = SpindleState {
        state: MachineState::Running,
        direction: false,
        target_speed: 1500,
        speed: 1487,
        power: 62,
    };
    assert_eq!(spindle_state_reply(done), Ok(expected));
    assert_eq!(port.wire, b";STATUS\n".to_vec());
}

#[test]
fn command_without_port_is_not_configured() {
    let mut comm = Communication::new();
    let first = start_spindle(&mut comm);
    assert!(matches!(first, Step::Done(Err(GateError::NotConfigured))));
    assert!(!comm.is_locked());
    let mut port = Loopback::new(b"");
    assert_eq!(
        command_reply(Command::Start, drive(&mut comm, first, &mut port)),
        Err("Serial path is empty.".to_string())
    );
    assert!(port.wire.is_empty());
}

#[test]
fn open_failure_is_reported_and_frees_the_link() {
    let mut comm = selected("/dev/ttyACM0");
    let mut port = Loopback::new(b"");
    port.open_fails = true;
    let first = start_spindle(&mut comm);
    let done = drive(&mut comm, first, &mut port);
    assert_eq!(done, Err(GateError::OpenFailed("No such file or directory".to_string())));
    assert_eq!(
        command_reply(Command::Start, done),
        Err("Failed to open. Error: No such file or directory".to_string())
    );
    assert!(!comm.is_open());
}

#[test]
fn write_failure_keeps_the_handle() {
    let mut comm = selected("/dev/ttyACM0");
    let mut port = Loopback::new(b"");
    port.write_fails = true;
    let first = stop_spindle(&mut comm);
    let done = drive(&mut comm, first, &mut port);
    assert_eq!(command_reply(Command::Stop, done), Err("Failed to send command. command: ;STOP\n".to_string()));
    assert!(comm.is_open());
    assert!(!comm.is_locked());
}

#[test]
fn read_failure_is_reported() {
    let mut comm = selected("/dev/ttyACM0");
    let mut port = Loopback::new(b"");
    port.read_fails = true;
    let first = get_spindle_state(&mut comm);
    let done = drive(&mut comm, first, &mut port);
    assert_eq!(spindle_state_reply(done), Err("Unable to read from serial port.".to_string()));
}

#[test]
fn garbled_reply_is_reported() {
    let mut comm = selected("/dev/ttyACM0");
    let mut port = Loopback::new(b";RUN Q 1 2 3\n");
    let first = get_spindle_state(&mut comm);
    let done = drive(&mut comm, first, &mut port);
    assert_eq!(spindle_state_reply(done), Err("Unable to parse spindle direction.".to_string()));
    assert_eq!(spindle_state_reply(Ok(vec![0u8; 100])), Err("Invalid message".to_string()));
}

#[test]
fn port_change_closes_the_handle() {
    let mut comm = selected("/dev/ttyACM0");
    let mut port = Loopback::new(b"");
    let first = start_spindle(&mut comm);
    drive(&mut comm, first, &mut port).unwrap();
    assert!(comm.is_open());
    let ports = vec![entry("/dev/ttyACM1", Some(0x0483))];
    assert_eq!(set_port(&mut comm, Ok(ports), "/dev/ttyACM1".to_string()), Ok(()));
    assert!(!comm.is_open());
    let next = start_spindle(&mut comm);
    assert!(matches!(&next, Step::Open(p) if p == "/dev/ttyACM1"));
}

#[test]
fn unexpected_event_fails_the_step_in_progress() {
    let mut comm = selected("/dev/ttyACM0");
    let first = start_spindle(&mut comm);
    assert!(matches!(first, Step::Open(_)));
    let next = comm.advance(Event::Written);
    assert!(matches!(next, Step::Done(Err(GateError::OpenFailed(ref r))) if r.is_empty()));
    assert!(!comm.is_locked());
}

#[test]
fn config_speed_is_read_back_after_set() {
    let written = set_max_spindle_speed(Ok(Configuration::default()), 1234).unwrap();
    assert_eq!(get_max_spindle_speed(Ok(written)), Ok(1234));
    assert_eq!(config_write_reply(Ok(())), Ok(()));
}

#[test]
fn config_errors_are_reported() {
    assert_eq!(
        get_max_spindle_speed(Err(ConfigError::Unavailable)),
        Err("Unable to open existed configuration file.".to_string())
    );
    assert_eq!(
        set_max_spindle_speed(Err(ConfigError::Corrupt), 5),
        Err("Unable to parse configuration file.".to_string())
    );
    assert_eq!(
        config_write_reply(Err(ConfigError::WriteFailed)),
        Err("Unable to write to configuration file.".to_string())
    );
}

#[test]
fn every_error_kind_has_its_text() {
    assert_eq!(ErrorKind::FrameMalformed.message(), "Malformed message");
    assert_eq!(ErrorKind::ParseState.message(), "Unable to parse spindle state.");
    assert_eq!(ErrorKind::ParseTargetSpeed.message(), "Unable to parse spindle target speed.");
    assert_eq!(ErrorKind::ParseSpeed.message(), "Unable to parse spindle speed.");
    assert_eq!(ErrorKind::ParsePower.message(), "Unable to parse spindle power.");
    assert_eq!(ErrorKind::PortNotAvailable.message(), "Specified port is not available.");
}

#[test]
fn status_open_failure_carries_the_host_reason() {
    let mut comm = selected("/dev/ttyACM0");
    let mut port = Loopback::new(b"");
    port.open_fails = true;
    let first = get_spindle_state(&mut comm);
    let done = drive(&mut comm, first, &mut port);
    assert_eq!(
        spindle_state_reply(done),
        Err("Failed to open. Error: No such file or directory".to_string())
    );
}

#[test]
fn status_write_failure_names_the_status_command() {
    let mut comm = selected("/dev/ttyACM0");
    let mut port = Loopback::new(b"");
    port.write_fails = true;
    let first = get_spindle_state(&mut comm);
    let done = drive(&mut comm, first, &mut port);
    assert_eq!(
        spindle_state_reply(done),
        Err("Failed to send command. command: ;STATUS\n".to_string())
    );
}

#[test]
fn target_write_failure_names_the_target_command() {
    let mut comm = selected("/dev/ttyACM0");
    let mut port = Loopback::new(b"");
    port.write_fails = true;
    let first = set_spindle_target(&mut comm, false, 4_294_967_295);
    let done = drive(&mut comm, first, &mut port);
    assert_eq!(
        command_reply(Command::Target { reverse: false, speed: 4_294_967_295 }, done),
        Err("Failed to send command. command: ;TARGET F 4294967295\n".to_string())
    );
}

#[test]
fn command_text_matches_the_frame() {
    assert_eq!(command_text(Command::EmergencyStop), ";EMERG\n");
    assert_eq!(command_text(Command::Target { reverse: true, speed: 0 }), ";TARGET R 0\n");
    assert_eq!(command_text(Command::Target { reverse: false, speed: 1090 }), ";TARGET F 1090\n");
}

#[test]
fn same_command_writes_same_frame_whatever_the_handle() {
    let mut fresh = selected("/dev/ttyACM0");
    let mut used = selected("/dev/ttyACM0");
    let mut port_a = Loopback::new(b"");
    let mut port_b = Loopback::new(b"");
    let warm = stop_spindle(&mut used);
    drive(&mut used, warm, &mut port_b).unwrap();
    port_b.wire.clear();
    let a = start_spindle(&mut fresh);
    drive(&mut fresh, a, &mut port_a).unwrap();
    let b = start_spindle(&mut used);
    drive(&mut used, b, &mut port_b).unwrap();
    assert_eq!(port_a.wire, b";START\n".to_vec());
    assert_eq!(port_a.wire, port_b.wire);
}

#[test]
fn padded_and_garbled_suffix_replies_give_the_same_state() {
    let plain = spindle_state_reply(Ok(b";RUN R 10 9 8\n".to_vec()));
    let mut padded = b";RUN R 10 9 8\n".to_vec();
    padded.resize(100, 0);
    let garbled = b";RUN R 10 9 8\n;STOP F 0 0 0\nzz".to_vec();
    assert_eq!(spindle_state_reply(Ok(padded)), plain);
    assert_eq!(spindle_state_reply(Ok(garbled)), plain);
    assert!(plain.is_ok());
}
