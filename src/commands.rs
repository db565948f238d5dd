//! The operations offered to the front-end. Each answers with a result whose
//! error is a short text for the user.
//!
//! The host performs what lies outside the library (enumerating ports, the
//! serial handle, the configuration file) and passes in, or takes out, plain
//! values; the operations on the link start a gate operation and leave its
//! steps to the host (see `communication`).
use vstd::prelude::*;
use vstd::string::StringExecFns;
use crate::codec::{
    command_text, decode_reply, decode_status, encode, frame_of, frame_text, is_leading_noise,
    is_status_line, lemma_decode_ignores_surroundings, CodecError, Command, SpindleState,
};
use crate::communication::{
    begin, done_view, transition, Communication, EventView, GateError, GateErrorView, GateView, Step,
    StepView, REPLY_CAPACITY,
};
use crate::config::{ConfigError, Configuration};
use crate::ports::{compatible_names, is_listed, list_compatible_ports, names, port_listed, PortEntry};

verus! {

/// Every kind of failure that an operation reports.
#[derive(Clone, Copy, Debug, PartialEq, Eq, Structural)]
pub enum ErrorKind {
    EnumerationFailed,
    PortNotAvailable,
    FrameMissing,
    FrameMalformed,
    ParseState,
    ParseDirection,
    ParseTargetSpeed,
    ParseSpeed,
    ParsePower,
    ConfigUnavailable,
    ConfigCorrupt,
    ConfigWriteFailed,
}

/// The text shown to the user for each kind of failure.
pub open spec fn error_text(k: ErrorKind) -> Seq<char> {
    match k {
        ErrorKind::EnumerationFailed => "Unable to get available serial ports."@,
        ErrorKind::PortNotAvailable => "Specified port is not available."@,
        ErrorKind::FrameMissing => "Invalid message"@,
        ErrorKind::FrameMalformed => "Malformed message"@,
        ErrorKind::ParseState => "Unable to parse spindle state."@,
        ErrorKind::ParseDirection => "Unable to parse spindle direction."@,
        ErrorKind::ParseTargetSpeed => "Unable to parse spindle target speed."@,
        ErrorKind::ParseSpeed => "Unable to parse spindle speed."@,
        ErrorKind::ParsePower => "Unable to parse spindle power."@,
        ErrorKind::ConfigUnavailable => "Unable to open existed configuration file."@,
        ErrorKind::ConfigCorrupt => "Unable to parse configuration file."@,
        ErrorKind::ConfigWriteFailed => "Unable to write to configuration file."@,
    }
}

impl ErrorKind {
    pub fn message(&self) -> (r: String)
        ensures
            r@ == error_text(*self),
    {
        match self {
            ErrorKind::EnumerationFailed => "Unable to get available serial ports.".to_owned(),
            ErrorKind::PortNotAvailable => "Specified port is not available.".to_owned(),
            ErrorKind::FrameMissing => "Invalid message".to_owned(),
            ErrorKind::FrameMalformed => "Malformed message".to_owned(),
            ErrorKind::ParseState => "Unable to parse spindle state.".to_owned(),
            ErrorKind::ParseDirection => "Unable to parse spindle direction.".to_owned(),
            ErrorKind::ParseTargetSpeed => "Unable to parse spindle target speed.".to_owned(),
            ErrorKind::ParseSpeed => "Unable to parse spindle speed.".to_owned(),
            ErrorKind::ParsePower => "Unable to parse spindle power.".to_owned(),
            ErrorKind::ConfigUnavailable => "Unable to open existed configuration file.".to_owned(),
            ErrorKind::ConfigCorrupt => "Unable to parse configuration file.".to_owned(),
            ErrorKind::ConfigWriteFailed => "Unable to write to configuration file.".to_owned(),
        }
    }
}


pub open spec fn codec_kind(e: CodecError) -> ErrorKind {
    match e {
        CodecError::FrameMissing => ErrorKind::FrameMissing,
        CodecError::FrameMalformed => ErrorKind::FrameMalformed,
        CodecError::ParseState => ErrorKind::ParseState,
        CodecError::ParseDirection => ErrorKind::ParseDirection,
        CodecError::ParseTargetSpeed => ErrorKind::ParseTargetSpeed,
        CodecError::ParseSpeed => ErrorKind::ParseSpeed,
        CodecError::ParsePower => ErrorKind::ParsePower,
    }
}

pub open spec fn config_kind(e: ConfigError) -> ErrorKind {
    match e {
        ConfigError::Unavailable => ErrorKind::ConfigUnavailable,
        ConfigError::Corrupt => ErrorKind::ConfigCorrupt,
        ConfigError::WriteFailed => ErrorKind::ConfigWriteFailed,
    }
}

fn codec_error_kind(e: CodecError) -> (r: ErrorKind)
    ensures
        r == codec_kind(e),
{
    match e {
        CodecError::FrameMissing => ErrorKind::FrameMissing,
        CodecError::FrameMalformed => ErrorKind::FrameMalformed,
        CodecError::ParseState => ErrorKind::ParseState,
        CodecError::ParseDirection => ErrorKind::ParseDirection,
        CodecError::ParseTargetSpeed => ErrorKind::ParseTargetSpeed,
        CodecError::ParseSpeed => ErrorKind::ParseSpeed,
        CodecError::ParsePower => ErrorKind::ParsePower,
    }
}

fn config_error_kind(e: ConfigError) -> (r: ErrorKind)
    ensures
        r == config_kind(e),
{
    match e {
        ConfigError::Unavailable => ErrorKind::ConfigUnavailable,
        ConfigError::Corrupt => ErrorKind::ConfigCorrupt,
        ConfigError::WriteFailed => ErrorKind::ConfigWriteFailed,
    }
}

/// The compatible ports, given what the host enumerated (`Err` when it could not).
pub fn get_available_ports(enumerated: Result<Vec<PortEntry>, ()>) -> (r: Result<Vec<String>, String>)
    ensures
        match enumerated {
            Ok(ports) => r is Ok && names(r->Ok_0@) == compatible_names(ports@),
            Err(_) => r is Err && r->Err_0@ == error_text(ErrorKind::EnumerationFailed),
        },
{
    match enumerated {
        Ok(ports) => Ok(list_compatible_ports(&ports)),
        Err(_) => Err(ErrorKind::EnumerationFailed.message()),
    }
}

/// The selected port; `Err(())` while none has been selected.
pub fn get_selected_port(comm: &Communication) -> (r: Result<String, ()>)
    ensures
        match r {
            Ok(p) => comm@.path == Some(p@),
            Err(_) => comm@.path is None,
        },
{
    match comm.get_serial_path() {
        Some(path) => Ok(path),
        None => Err(()),
    }
}

/// Selects `path` if the host's enumeration (`Err` when it failed) lists it.
pub fn set_port(comm: &mut Communication, enumerated: Result<Vec<PortEntry>, ()>, path: String) -> (r:
    Result<(), String>)
    requires
        old(comm)@.wf(),
        !old(comm)@.busy(),
    ensures
        final(comm)@.wf(),
        match enumerated {
            Err(_) => {
                &&& r is Err
                &&& r->Err_0@ == error_text(ErrorKind::EnumerationFailed)
                &&& final(comm)@ == old(comm)@
            },
            Ok(ports) => if is_listed(ports@, path@) {
                &&& r is Ok
                &&& final(comm)@ == (GateView { path: Some(path@), open: false, ..old(comm)@ })
            } else {
                &&& r is Err
                &&& r->Err_0@ == error_text(ErrorKind::PortNotAvailable)
                &&& final(comm)@ == old(comm)@
            },
        },
{
    let ports = match enumerated {
        Ok(ports) => ports,
        Err(_) => return Err(ErrorKind::EnumerationFailed.message()),
    };
    if !port_listed(&ports, &path) {
        return Err(ErrorKind::PortNotAvailable.message());
    }
    comm.set_serial_path(path);
    Ok(())
}

/// The largest spindle speed, given the configuration as the host loaded it.
pub fn get_max_spindle_speed(loaded: Result<Configuration, ConfigError>) -> (r: Result<u32, String>)
    ensures
        match loaded {
            Ok(c) => r == Ok::<u32, String>(c.max_spindle_speed),
            Err(e) => r is Err && r->Err_0@ == error_text(config_kind(e)),
        },
{
    match loaded {
        Ok(c) => Ok(c.get_max_spindle_speed()),
        Err(e) => Err(config_error_kind(e).message()),
    }
}

/// The configuration to write back after setting the largest spindle speed to
/// `speed`, given the configuration as the host loaded it.
pub fn set_max_spindle_speed(loaded: Result<Configuration, ConfigError>, speed: u32) -> (r: Result<
    Configuration,
    String,
>)
    ensures
        match loaded {
            Ok(c) => r == Ok::<Configuration, String>(Configuration { max_spindle_speed: speed, ..c }),
            Err(e) => r is Err && r->Err_0@ == error_text(config_kind(e)),
        },
{
    match loaded {
        Ok(c) => {
            let mut updated = c;
            updated.set_max_spindle_speed(speed);
            Ok(updated)
        },
        Err(e) => Err(config_error_kind(e).message()),
    }
}

/// The answer to a configuration write, given how the host's write went.
pub fn config_write_reply(written: Result<(), ConfigError>) -> (r: Result<(), String>)
    ensures
        match written {
            Ok(_) => r is Ok,
            Err(e) => r is Err && r->Err_0@ == error_text(config_kind(e)),
        },
{
    match written {
        Ok(_) => Ok(()),
        Err(e) => Err(config_error_kind(e).message()),
    }
}

fn send_command(comm: &mut Communication, c: Command) -> (r: Step)
    requires
        old(comm)@.wf(),
        !old(comm)@.busy(),
    ensures
        (final(comm)@, r@) == begin(old(comm)@, frame_of(c), None),
        final(comm)@.wf(),
{
    comm.send_command_only(encode(c))
}

/// Starts sending `;START`.
pub fn start_spindle(comm: &mut Communication) -> (r: Step)
    requires
        old(comm)@.wf(),
        !old(comm)@.busy(),
    ensures
        (final(comm)@, r@) == begin(old(comm)@, frame_of(Command::Start), None),
        final(comm)@.wf(),
{
    send_command(comm, Command::Start)
}

/// Starts sending `;STOP`.
pub fn stop_spindle(comm: &mut Communication) -> (r: Step)
    requires
        old(comm)@.wf(),
        !old(comm)@.busy(),
    ensures
        (final(comm)@, r@) == begin(old(comm)@, frame_of(Command::Stop), None),
        final(comm)@.wf(),
{
    send_command(comm, Command::Stop)
}

/// Starts sending `;EMERG`.
pub fn emergency_stop(comm: &mut Communication) -> (r: Step)
    requires
        old(comm)@.wf(),
        !old(comm)@.busy(),
    ensures
        (final(comm)@, r@) == begin(old(comm)@, frame_of(Command::EmergencyStop), None),
        final(comm)@.wf(),
{
    send_command(comm, Command::EmergencyStop)
}

/// Starts sending `;TARGET <R|F> <speed>`; `direction` true is reverse.
pub fn set_spindle_target(comm: &mut Communication, direction: bool, speed: u32) -> (r: Step)
    requires
        old(comm)@.wf(),
        !old(comm)@.busy(),
    ensures
        (final(comm)@, r@) == begin(
            old(comm)@,
            frame_of(Command::Target { reverse: direction, speed }),
            None,
        ),
        final(comm)@.wf(),
{
    send_command(comm, Command::Target { reverse: direction, speed })
}

/// Starts the exchange that asks for the spindle's state: `;STATUS` out, one
/// reply of at most `REPLY_CAPACITY` bytes back.
pub fn get_spindle_state(comm: &mut Communication) -> (r: Step)
    requires
        old(comm)@.wf(),
        !old(comm)@.busy(),
    ensures
        (final(comm)@, r@) == begin(
            old(comm)@,
            frame_of(Command::Status),
            Some(REPLY_CAPACITY as nat),
        ),
        final(comm)@.wf(),
{
    comm.receive_message(encode(Command::Status))
}

/// The text shown to the user for a failure of the link while it carried `c`.
pub open spec fn gate_error_text(e: GateErrorView, c: Command) -> Seq<char> {
    match e {
        GateErrorView::NotConfigured => "Serial path is empty."@,
        GateErrorView::OpenFailed(reason) => "Failed to open. Error: "@ + reason,
        GateErrorView::WriteFailed => "Failed to send command. command: "@ + frame_text(c),
        GateErrorView::ReadFailed => "Unable to read from serial port."@,
    }
}

fn gate_error_message(e: GateError, c: Command) -> (r: String)
    ensures
        r@ == gate_error_text(e@, c),
{
    match e {
        GateError::NotConfigured => "Serial path is empty.".to_owned(),
        GateError::OpenFailed(reason) => "Failed to open. Error: ".to_owned().concat(reason.as_str()),
        GateError::WriteFailed => "Failed to send command. command: ".to_owned().concat(
            command_text(c).as_str(),
        ),
        GateError::ReadFailed => "Unable to read from serial port.".to_owned(),
    }
}

/// A result whose error text is taken as a sequence of characters.
pub open spec fn reply_text<T>(r: Result<T, String>) -> Result<T, Seq<char>> {
    match r {
        Ok(v) => Ok(v),
        Err(m) => Err(m@),
    }
}

/// The answer to command `c`, given how the link operation that wrote it ended.
pub open spec fn command_outcome(c: Command, done: Result<Seq<u8>, GateErrorView>) -> Result<(), Seq<char>> {
    match done {
        Ok(_) => Ok(()),
        Err(e) => Err(gate_error_text(e, c)),
    }
}

/// The answer to a state query, given how the status exchange ended: its reply
/// decoded, or the first failure.
pub open spec fn state_outcome(done: Result<Seq<u8>, GateErrorView>) -> Result<SpindleState, Seq<char>> {
    match done {
        Err(e) => Err(gate_error_text(e, Command::Status)),
        Ok(buf) => match decode_reply(buf) {
            Ok(s) => Ok(s),
            Err(c) => Err(error_text(codec_kind(c))),
        },
    }
}

/// The answer to command `c`, which only writes, given how its link operation ended.
pub fn command_reply(c: Command, done: Result<Vec<u8>, GateError>) -> (r: Result<(), String>)
    ensures
        reply_text(r) == command_outcome(c, done_view(done)),
{
    match done {
        Ok(_) => Ok(()),
        Err(e) => Err(gate_error_message(e, c)),
    }
}

/// The spindle's state, given how the status exchange ended.
pub fn spindle_state_reply(done: Result<Vec<u8>, GateError>) -> (r: Result<SpindleState, String>)
    ensures
        reply_text(r) == state_outcome(done_view(done)),
{
    match done {
        Err(e) => Err(gate_error_message(e, Command::Status)),
        Ok(buf) => match decode_status(buf.as_slice()) {
            Ok(s) => Ok(s),
            Err(c) => Err(codec_error_kind(c).message()),
        },
    }
}

/// A state query answers the same whatever surrounds the status line in the reply:
/// noise before it that holds no `;` and no NUL, and any suffix after it (NUL
/// padding, garbage, further frames).
pub proof fn lemma_state_outcome_ignores_surroundings(pre: Seq<u8>, f: Seq<u8>, suf: Seq<u8>)
    requires
        is_status_line(f),
        is_leading_noise(pre),
    ensures
        state_outcome(Ok(pre + f + suf)) == state_outcome(Ok(f)),
{
    lemma_decode_ignores_surroundings(pre, f, suf);
}

/// The bytes that the first write of an operation puts on the wire, given the
/// link's state before it; `None` when it writes nothing.
pub open spec fn first_write(g: GateView, bytes: Seq<u8>, reply: Option<nat>) -> Option<Seq<u8>> {
    let (h, step) = begin(g, bytes, reply);
    match step {
        StepView::Write(b) => Some(b),
        StepView::Open(_) => match transition(h, EventView::Opened).1 {
            StepView::Write(b) => Some(b),
            _ => None,
        },
        _ => None,
    }
}

/// What a command puts on the wire depends on the command alone: from any state
/// of the link with a port selected, whether its handle is open or not, the
/// operation that sends `c` writes exactly `frame_of(c)` once the port is open.
pub proof fn lemma_written_frame_depends_on_command_only(g: GateView, c: Command, reply: Option<nat>)
    requires
        g.wf(),
        !g.busy(),
        g.path is Some,
    ensures
        first_write(g, frame_of(c), reply) == Some(frame_of(c)),
{
}

} // verus!
