//! The lock in front of the serial link: which port is selected, whether a
//! handle to it is open, and the one exchange that may be in flight.
//!
//! The link decides; its owner acts. An operation starts with
//! `send_command_only` or `receive_message`, each of which hands back a
//! `Step`; the owner carries the step out on the real port and reports the
//! outcome with `advance`, until a `Step::Done` closes the operation and frees
//! the link. The owner keeps a handle exactly while `is_open` holds.
use vstd::prelude::*;

verus! {

/// Line speed of the link, in bits per second (8 data bits, no parity, 1 stop bit).
pub const BAUD_RATE: u32 = 9600;

/// Read timeout of the link, in milliseconds.
pub const READ_TIMEOUT_MS: u64 = 100;

/// Size of the zero-filled buffer that one reply is read into.
pub const REPLY_CAPACITY: usize = 100;

/// Why a gate operation failed.
#[derive(Clone, Debug, PartialEq, Eq)]
pub enum GateError {
    NotConfigured,
    /// The port could not be opened; the host's account of why.
    OpenFailed(String),
    WriteFailed,
    ReadFailed,
}

pub enum GateErrorView {
    NotConfigured,
    OpenFailed(Seq<char>),
    WriteFailed,
    ReadFailed,
}

impl View for GateError {
    type V = GateErrorView;

    open spec fn view(&self) -> GateErrorView {
        match self {
            GateError::NotConfigured => GateErrorView::NotConfigured,
            GateError::OpenFailed(reason) => GateErrorView::OpenFailed(reason@),
            GateError::WriteFailed => GateErrorView::WriteFailed,
            GateError::ReadFailed => GateErrorView::ReadFailed,
        }
    }
}

/// A gate result as a mathematical value.
pub open spec fn done_view(r: Result<Vec<u8>, GateError>) -> Result<Seq<u8>, GateErrorView> {
    match r {
        Ok(b) => Ok(b@),
        Err(e) => Err(e@),
    }
}

/// Where an operation stands.
#[derive(Clone, Copy, Debug, PartialEq, Eq, Structural)]
pub enum Phase {
    Idle,
    Opening,
    Writing,
    Reading,
}

/// What the owner of the port is to do next.
#[derive(Debug)]
pub enum Step {
    /// Open the named port at `BAUD_RATE`, 8N1, with a `READ_TIMEOUT_MS` read
    /// timeout; report `Event::Opened`, or `Event::OpenFailed` with the reason.
    Open(String),
    /// Write these bytes to the open port; report `Event::Written` or
    /// `Event::WriteFailed`.
    Write(Vec<u8>),
    /// Read once into a zero-filled buffer of this many bytes; report
    /// `Event::ReadDone` with the whole buffer, or `Event::ReadFailed`.
    Read(usize),
    /// The operation is over and the link is free: its result.
    Done(Result<Vec<u8>, GateError>),
}

/// The outcome of a step, as the owner of the port saw it.
#[derive(Debug)]
pub enum Event {
    Opened,
    OpenFailed(String),
    Written,
    WriteFailed,
    ReadDone(Vec<u8>),
    ReadFailed,
}

pub enum StepView {
    Open(Seq<char>),
    Write(Seq<u8>),
    Read(nat),
    Done(Result<Seq<u8>, GateErrorView>),
}

pub enum EventView {
    Opened,
    OpenFailed(Seq<char>),
    Written,
    WriteFailed,
    ReadDone(Seq<u8>),
    ReadFailed,
}

impl View for Step {
    type V = StepView;

    open spec fn view(&self) -> StepView {
        match self {
            Step::Open(p) => StepView::Open(p@),
            Step::Write(b) => StepView::Write(b@),
            Step::Read(n) => StepView::Read(*n as nat),
            Step::Done(r) => StepView::Done(done_view(*r)),
        }
    }
}

impl View for Event {
    type V = EventView;

    open spec fn view(&self) -> EventView {
        match self {
            Event::Opened => EventView::Opened,
            Event::OpenFailed(reason) => EventView::OpenFailed(reason@),
            Event::Written => EventView::Written,
            Event::WriteFailed => EventView::WriteFailed,
            Event::ReadDone(b) => EventView::ReadDone(b@),
            Event::ReadFailed => EventView::ReadFailed,
        }
    }
}

/// The link as a mathematical value.
pub struct GateView {
    /// The selected port, once one has been selected.
    pub path: Option<Seq<char>>,
    /// Whether the owner holds an open handle to `path`.
    pub open: bool,
    pub phase: Phase,
    /// The bytes that the operation in flight writes.
    pub outgoing: Seq<u8>,
    /// How much of a reply the operation in flight reads; `None` when it only writes.
    pub reply_capacity: Option<nat>,
}

impl GateView {
    /// An exchange is in flight.
    pub open spec fn busy(self) -> bool {
        self.phase != Phase::Idle
    }

    pub open spec fn wf(self) -> bool {
        &&& self.open ==> self.path is Some
        &&& self.phase == Phase::Opening ==> !self.open && self.path is Some
        &&& (self.phase == Phase::Writing || self.phase == Phase::Reading) ==> self.open
        &&& self.phase == Phase::Reading ==> self.reply_capacity is Some
    }
}

/// The step that starts an operation writing `command` (and then reading up to
/// `reply` bytes, if `reply` is `Some`), and the link after it.
pub open spec fn begin(g: GateView, command: Seq<u8>, reply: Option<nat>) -> (GateView, StepView) {
    let h = GateView { outgoing: command, reply_capacity: reply, ..g };
    if g.open {
        (GateView { phase: Phase::Writing, ..h }, StepView::Write(command))
    } else {
        match g.path {
            None => (h, StepView::Done(Err(GateErrorView::NotConfigured))),
            Some(p) => (GateView { phase: Phase::Opening, ..h }, StepView::Open(p)),
        }
    }
}

/// The next step after `e` in the operation in flight, and the link after it.
/// Any event but the success of the step in progress counts as its failure (an
/// open failure with no reason, when the event is not `OpenFailed`).
pub open spec fn transition(g: GateView, e: EventView) -> (GateView, StepView) {
    let idle = GateView { phase: Phase::Idle, ..g };
    match g.phase {
        Phase::Opening => if e is Opened {
            (GateView { open: true, phase: Phase::Writing, ..g }, StepView::Write(g.outgoing))
        } else {
            let reason = match e {
                EventView::OpenFailed(reason) => reason,
                _ => Seq::empty(),
            };
            (idle, StepView::Done(Err(GateErrorView::OpenFailed(reason))))
        },
        Phase::Writing => if e is Written {
            match g.reply_capacity {
                Some(n) => (GateView { phase: Phase::Reading, ..g }, StepView::Read(n)),
                None => (idle, StepView::Done(Ok(Seq::empty()))),
            }
        } else {
            (idle, StepView::Done(Err(GateErrorView::WriteFailed)))
        },
        Phase::Reading => match e {
            EventView::ReadDone(b) => (idle, StepView::Done(Ok(b))),
            _ => (idle, StepView::Done(Err(GateErrorView::ReadFailed))),
        },
        Phase::Idle => (g, StepView::Done(Err(GateErrorView::NotConfigured))),
    }
}

/// Operations on the link exclude one another: an operation holds the link from
/// its first step until its `Done` and frees it only then. Every step but `Done`
/// leaves the link busy, and no operation or port change can start on a busy link
/// (each requires `!busy()`), so the spans of two operations never overlap.
pub proof fn lemma_gate_held_until_done(g: GateView, command: Seq<u8>, reply: Option<nat>, e: EventView)
    requires
        g.wf(),
    ensures
        !g.busy() ==> begin(g, command, reply).0.wf() && (begin(g, command, reply).0.busy()
            <==> !(begin(g, command, reply).1 is Done)),
        g.busy() ==> transition(g, e).0.wf() && (transition(g, e).0.busy() <==> !(transition(
            g,
            e,
        ).1 is Done)),
{
}

/// The state of the serial link, shared by every operation on it.
#[derive(Debug)]
pub struct Communication {
    serial_path: Option<String>,
    is_open: bool,
    phase: Phase,
    outgoing: Vec<u8>,
    reply_capacity: Option<usize>,
}

impl View for Communication {
    type V = GateView;

    closed spec fn view(&self) -> GateView {
        GateView {
            path: match self.serial_path {
                Some(p) => Some(p@),
                None => None,
            },
            open: self.is_open,
            phase: self.phase,
            outgoing: self.outgoing@,
            reply_capacity: match self.reply_capacity {
                Some(n) => Some(n as nat),
                None => None,
            },
        }
    }
}

impl Communication {
    /// A gate with no port selected, no handle and nothing in flight.
    pub fn new() -> (r: Self)
        ensures
            r@.path is None,
            !r@.open,
            !r@.busy(),
            r@.wf(),
    {
        Communication {
            serial_path: None,
            is_open: false,
            phase: Phase::Idle,
            outgoing: Vec::new(),
            reply_capacity: None,
        }
    }

    /// The selected port, if any.
    pub fn get_serial_path(&self) -> (r: Option<String>)
        ensures
            match r {
                Some(p) => self@.path == Some(p@),
                None => self@.path is None,
            },
    {
        match &self.serial_path {
            Some(path) => Some(path.clone()),
            None => None,
        }
    }

    /// Whether the owner is to hold an open handle.
    pub fn is_open(&self) -> (r: bool)
        ensures
            r == self@.open,
    {
        self.is_open
    }

    /// Whether an operation is in flight.
    pub fn is_locked(&self) -> (r: bool)
        ensures
            r == self@.busy(),
    {
        self.phase != Phase::Idle
    }

    /// Selects `serial_path`; the handle to the former port, if any, is to be dropped.
    pub fn set_serial_path(&mut self, serial_path: String)
        requires
            old(self)@.wf(),
            !old(self)@.busy(),
        ensures
            final(self)@ == (GateView { path: Some(serial_path@), open: false, ..old(self)@ }),
            final(self)@.wf(),
    {
        self.is_open = false;
        self.serial_path = Some(serial_path);
    }

    fn start(&mut self, command: Vec<u8>, reply_capacity: Option<usize>) -> (r: Step)
        requires
            old(self)@.wf(),
            !old(self)@.busy(),
        ensures
            (final(self)@, r@) == begin(
                old(self)@,
                command@,
                match reply_capacity {
                    Some(n) => Some(n as nat),
                    None => None,
                },
            ),
            final(self)@.wf(),
    {
        self.outgoing = command;
        self.reply_capacity = reply_capacity;
        if self.is_open {
            self.phase = Phase::Writing;
            let bytes = self.outgoing.clone();
            assert(bytes@ =~= self.outgoing@);
            Step::Write(bytes)
        } else {
            match &self.serial_path {
                None => Step::Done(Err(GateError::NotConfigured)),
                Some(path) => {
                    self.phase = Phase::Opening;
                    Step::Open(path.clone())
                },
            }
        }
    }

    /// Starts an operation that writes `command` and reads nothing back.
    pub fn send_command_only(&mut self, command: Vec<u8>) -> (r: Step)
        requires
            old(self)@.wf(),
            !old(self)@.busy(),
        ensures
            (final(self)@, r@) == begin(old(self)@, command@, None),
            final(self)@.wf(),
    {
        self.start(command, None)
    }

    /// Starts an operation that writes `command`, then reads one reply of at most
    /// `REPLY_CAPACITY` bytes.
    pub fn receive_message(&mut self, command: Vec<u8>) -> (r: Step)
        requires
            old(self)@.wf(),
            !old(self)@.busy(),
        ensures
            (final(self)@, r@) == begin(old(self)@, command@, Some(REPLY_CAPACITY as nat)),
            final(self)@.wf(),
    {
        self.start(command, Some(REPLY_CAPACITY))
    }

    /// Takes the outcome of the step in progress and gives the next one.
    pub fn advance(&mut self, event: Event) -> (r: Step)
        requires
            old(self)@.wf(),
            old(self)@.busy(),
        ensures
            (final(self)@, r@) == transition(old(self)@, event@),
            final(self)@.wf(),
    {
        match self.phase {
            Phase::Opening => match event {
                Event::Opened => {
                    self.is_open = true;
                    self.phase = Phase::Writing;
                    let bytes = self.outgoing.clone();
                    assert(bytes@ =~= self.outgoing@);
                    Step::Write(bytes)
                },
                Event::OpenFailed(reason) => {
                    self.phase = Phase::Idle;
                    Step::Done(Err(GateError::OpenFailed(reason)))
                },
                _ => {
                    self.phase = Phase::Idle;
                    Step::Done(Err(GateError::OpenFailed(String::new())))
                },
            },
            Phase::Writing => match event {
                Event::Written => match self.reply_capacity {
                    Some(n) => {
                        self.phase = Phase::Reading;
                        Step::Read(n)
                    },
                    None => {
                        self.phase = Phase::Idle;
                        Step::Done(Ok(Vec::new()))
                    },
                },
                _ => {
                    self.phase = Phase::Idle;
                    Step::Done(Err(GateError::WriteFailed))
                },
            },
            Phase::Reading => match event {
                Event::ReadDone(bytes) => {
                    self.phase = Phase::Idle;
                    Step::Done(Ok(bytes))
                },
                _ => {
                    self.phase = Phase::Idle;
                    Step::Done(Err(GateError::ReadFailed))
                },
            },
            Phase::Idle => Step::Done(Err(GateError::NotConfigured)),
        }
    }
}

} // verus!
