use vstd::prelude::*;
use vstd::utf8::{decode_utf8, valid_utf8};
use crate::buffer::ByteBuffer;
use crate::devices::{devices_of, fresh, views};
use crate::frame::{
    declared_len, frame_complete, frame_fault, frame_payload, ProtocolError, BUFFER_SIZE,
};

verus! {

/// Pause before reconnecting when the daemon restarted fine, in milliseconds.
pub const RETRY_DELAY_ADB_DAEMON_OK: u64 = 1000;

/// Pause before reconnecting when the daemon could not be restarted, in milliseconds.
pub const RETRY_DELAY_ADB_DAEMON_KO: u64 = 5000;

/// Where the tracking loop stands.
#[derive(PartialEq, Eq, Structural, Clone, Copy, Debug)]
pub enum Phase {
    /// Never started.
    Idle,
    /// Waiting for the connection to the daemon.
    Connecting,
    /// Waiting for the track-devices request to be written.
    Requesting,
    /// Waiting for the daemon's 4-byte status.
    AwaitingOkay,
    /// Reading device frames.
    Streaming,
    /// Waiting for the daemon restart to finish.
    Restarting,
    /// Waiting out the delay before reconnecting.
    Waiting,
    /// Left the loop on request.
    Stopped,
}

/// Why a session ended.
#[derive(PartialEq, Eq, Structural, Clone, Copy, Debug)]
pub enum Failure {
    /// Connecting, reading or writing failed, or the daemon closed the stream.
    Connection,
    /// The daemon sent something that is not the protocol.
    Protocol(ProtocolError),
}

/// What the loop reports back after carrying out an action.
#[derive(PartialEq, Eq, Debug)]
pub enum Event {
    /// The action completed.
    Done,
    /// A read returned these bytes; none means the daemon closed the stream.
    Received(Vec<u8>),
    /// Connecting, reading or writing failed.
    Failed,
    /// The daemon restart finished; whether it succeeded.
    Restarted(bool),
}

/// What the loop must do next.
#[derive(PartialEq, Eq, Debug)]
pub enum Action {
    /// Open a connection to the daemon.
    Connect,
    /// Write these bytes to the connection.
    Send(Vec<u8>),
    /// Read at most this many bytes from the connection.
    Read(usize),
    /// Report these serials as newly connected, in this order.
    Notify(Vec<String>),
    /// Drop the connection and restart the daemon, after this failure.
    Recover(Failure),
    /// Sleep this many milliseconds.
    Sleep(u64),
    /// Leave the loop.
    Halt,
}

/// The bytes of the track-devices request: its length in hex, then the command.
pub open spec fn request_bytes() -> Seq<u8> {
    seq![48, 48, 49, 50] + seq![104, 111, 115, 116, 58] + seq![
        116,
        114,
        97,
        99,
        107,
        45,
        100,
        101,
        118,
        105,
        99,
        101,
        115,
    ]
}

/// The daemon's success status, `OKAY`.
pub open spec fn okay_bytes() -> Seq<u8> {
    seq![79, 75, 65, 89]
}

/// The pause that follows a daemon restart attempt.
pub open spec fn delay_after(restarted: bool) -> u64 {
    if restarted {
        RETRY_DELAY_ADB_DAEMON_OK
    } else {
        RETRY_DELAY_ADB_DAEMON_KO
    }
}

/// Tracks the devices that the daemon reports as connected.
pub struct AdbMonitor {
    pub(crate) buf: ByteBuffer,
    pub(crate) connected_devices: Vec<String>,
    pub(crate) stop_monitor: bool,
    pub(crate) phase: Phase,
}

/// `m` and `a` follow a failure `f`: the session is dropped, the devices `devs` are
/// kept, and recovery begins.
pub open spec fn faulted(m: AdbMonitor, devs: Seq<Seq<char>>, a: Action, f: Failure) -> bool {
    &&& m.phase() == Phase::Restarting
    &&& m.devices() == devs
    &&& a == Action::Recover(f)
}

/// What taking the next frame from the buffered bytes `b` does, with `devs` the
/// devices known before: fail, ask for more bytes, or report the new devices.
pub open spec fn took_frame(b: Seq<u8>, devs: Seq<Seq<char>>, m: AdbMonitor, a: Action) -> bool {
    if let Some(e) = frame_fault(b) {
        faulted(m, devs, a, Failure::Protocol(e))
    } else if !frame_complete(b) {
        &&& m.phase() == Phase::Streaming
        &&& m.buffered() == b
        &&& m.devices() == devs
        &&& a == Action::Read((BUFFER_SIZE - b.len()) as usize)
    } else if !valid_utf8(frame_payload(b)) {
        faulted(m, devs, a, Failure::Protocol(ProtocolError::NotUtf8))
    } else {
        let cur = devices_of(decode_utf8(frame_payload(b)));
        &&& m.phase() == Phase::Streaming
        &&& m.buffered() == b.skip(4 + declared_len(b) as int)
        &&& m.devices() == cur
        &&& (a matches Action::Notify(v) && views(v@) == fresh(devs, cur))
    }
}

/// The stop checkpoint, then `took_frame` when no stop was asked for.
pub open spec fn checked_frame(
    stop: bool,
    b: Seq<u8>,
    devs: Seq<Seq<char>>,
    m: AdbMonitor,
    a: Action,
) -> bool {
    if stop {
        &&& m.phase() == Phase::Stopped
        &&& m.devices() == devs
        &&& a == Action::Halt
    } else {
        took_frame(b, devs, m, a)
    }
}

/// The events that a phase expects; any other ends the loop.
pub open spec fn fits(p: Phase, e: Event) -> bool {
    match (p, e) {
        (Phase::Connecting, Event::Done) => true,
        (Phase::Requesting, Event::Done) => true,
        (Phase::AwaitingOkay, Event::Received(_)) => true,
        (Phase::Streaming, Event::Received(_)) => true,
        (Phase::Streaming, Event::Done) => true,
        (Phase::Restarting, Event::Restarted(_)) => true,
        (Phase::Waiting, Event::Done) => true,
        (Phase::Connecting, Event::Failed) => true,
        (Phase::Requesting, Event::Failed) => true,
        (Phase::AwaitingOkay, Event::Failed) => true,
        (Phase::Streaming, Event::Failed) => true,
        _ => false,
    }
}

/// One transition of the tracking loop: `m` receives `e`, becomes `n` and asks for `a`.
pub open spec fn step_spec(m: AdbMonitor, e: Event, n: AdbMonitor, a: Action) -> bool {
    let devs = m.devices();
    if !fits(m.phase(), e) {
        &&& n.phase() == Phase::Stopped
        &&& n.devices() == devs
        &&& a == Action::Halt
    } else {
        match e {
            Event::Failed => faulted(n, devs, a, Failure::Connection),
            Event::Restarted(ok) => {
                &&& n.phase() == Phase::Waiting
                &&& n.devices() == devs
                &&& a == Action::Sleep(delay_after(ok))
            },
            Event::Received(d) => if d@.len() == 0 {
                faulted(n, devs, a, Failure::Connection)
            } else {
                let b = m.buffered() + d@;
                if m.phase() == Phase::Streaming {
                    took_frame(b, devs, n, a)
                } else if b.len() < 4 {
                    &&& n.phase() == Phase::AwaitingOkay
                    &&& n.buffered() == b
                    &&& n.devices() == devs
                    &&& a == Action::Read((BUFFER_SIZE - b.len()) as usize)
                } else if b.take(4) == okay_bytes() {
                    checked_frame(m.stop_requested(), b.skip(4), devs, n, a)
                } else {
                    faulted(n, devs, a, Failure::Protocol(ProtocolError::Refused))
                }
            },
            Event::Done => match m.phase() {
                Phase::Connecting => {
                    &&& n.phase() == Phase::Requesting
                    &&& n.buffered() == Seq::<u8>::empty()
                    &&& n.devices() == devs
                    &&& (a matches Action::Send(v) && v@ == request_bytes())
                },
                Phase::Requesting => {
                    &&& n.phase() == Phase::AwaitingOkay
                    &&& n.buffered() == m.buffered()
                    &&& n.devices() == devs
                    &&& a == Action::Read((BUFFER_SIZE - m.buffered().len()) as usize)
                },
                Phase::Streaming => checked_frame(m.stop_requested(), m.buffered(), devs, n, a),
                _ => if m.stop_requested() {
                    &&& n.phase() == Phase::Stopped
                    &&& n.devices() == devs
                    &&& a == Action::Halt
                } else {
                    &&& n.phase() == Phase::Connecting
                    &&& n.devices() == devs
                    &&& a == Action::Connect
                },
            },
        }
    }
}

/// What starting the loop does: nothing while one runs, else a fresh start.
pub open spec fn start_spec(m: AdbMonitor, n: AdbMonitor, r: Option<Action>) -> bool {
    if m.running() {
        r is None && n == m
    } else {
        &&& r == Some(Action::Connect)
        &&& n.phase() == Phase::Connecting
        &&& n.devices() == m.devices()
        &&& !n.stop_requested()
        &&& n.running()
    }
}

/// What asking the loop to stop does: nothing unless one runs.
pub open spec fn stop_spec(m: AdbMonitor, n: AdbMonitor, r: bool) -> bool {
    if m.running() {
        &&& r
        &&& n.stop_requested()
        &&& n.phase() == m.phase()
        &&& n.buffered() == m.buffered()
        &&& n.devices() == m.devices()
    } else {
        !r && n == m
    }
}

/// Whatever follows `OKAY`, the status is taken as success and only its 4 bytes go.
pub proof fn lemma_okay_then_anything(rest: Seq<u8>)
    ensures
        (okay_bytes() + rest).len() >= 4,
        (okay_bytes() + rest).take(4) == okay_bytes(),
        (okay_bytes() + rest).skip(4) == rest,
{
    assert((okay_bytes() + rest).take(4) =~= okay_bytes());
    assert((okay_bytes() + rest).skip(4) =~= rest);
}

/// Starting a running loop changes nothing: one start leaves one loop.
pub proof fn lemma_start_twice(
    m0: AdbMonitor,
    m1: AdbMonitor,
    m2: AdbMonitor,
    r1: Option<Action>,
    r2: Option<Action>,
)
    requires
        start_spec(m0, m1, r1),
        start_spec(m1, m2, r2),
    ensures
        m1.running(),
        r2 is None,
        m2 == m1,
{
}

/// Stopping a loop that does not run changes nothing, however often it is asked.
pub proof fn lemma_stop_twice_when_stopped(
    m0: AdbMonitor,
    m1: AdbMonitor,
    m2: AdbMonitor,
    r1: bool,
    r2: bool,
)
    requires
        !m0.running(),
        stop_spec(m0, m1, r1),
        stop_spec(m1, m2, r2),
    ensures
        !r1 && !r2,
        m1 == m0,
        m2 == m0,
{
}

impl AdbMonitor {
    pub closed spec fn wf(&self) -> bool {
        &&& self.buf.wf()
        &&& self.buf.capacity() == BUFFER_SIZE
    }

    /// Where the loop stands.
    pub closed spec fn phase(&self) -> Phase {
        self.phase
    }

    /// The bytes received and not yet taken.
    pub closed spec fn buffered(&self) -> Seq<u8> {
        self.buf@
    }

    /// The serials of the devices of the last frame.
    pub closed spec fn devices(&self) -> Seq<Seq<char>> {
        views(self.connected_devices@)
    }

    /// Whether a stop was asked for since the loop began.
    pub closed spec fn stop_requested(&self) -> bool {
        self.stop_monitor
    }

    /// Whether a loop is under way.
    pub open spec fn running(&self) -> bool {
        self.phase() != Phase::Idle && self.phase() != Phase::Stopped
    }

    /// A monitor that has not started, knows no device and holds no bytes.
    pub fn new() -> (r: AdbMonitor)
        ensures
            r.wf(),
            r.phase() == Phase::Idle,
            r.buffered() == Seq::<u8>::empty(),
            r.devices() == Seq::<Seq<char>>::empty(),
            !r.stop_requested(),
    {
        let r = AdbMonitor {
            buf: ByteBuffer::new(BUFFER_SIZE),
            connected_devices: Vec::new(),
            stop_monitor: false,
            phase: Phase::Idle,
        };
        assert(r.devices() =~= Seq::<Seq<char>>::empty());
        r
    }

    /// The bytes received and not yet taken.
    pub fn pending(&self) -> (r: &[u8])
        requires
            self.wf(),
        ensures
            r@ == self.buffered(),
            r@.len() <= BUFFER_SIZE,
    {
        self.buf.peek()
    }

    /// Whether a loop is under way.
    pub fn is_running(&self) -> (r: bool)
        ensures
            r == self.running(),
    {
        self.phase != Phase::Idle && self.phase != Phase::Stopped
    }

    /// Starts the loop unless one runs; the action is its first step.
    pub fn monitor(&mut self) -> (r: Option<Action>)
        requires
            old(self).wf(),
        ensures
            final(self).wf(),
            start_spec(*old(self), *final(self), r),
    {
        if self.phase != Phase::Idle && self.phase != Phase::Stopped {
            return None;
        }
        self.stop_monitor = false;
        self.phase = Phase::Connecting;
        Some(Action::Connect)
    }

    /// Asks a running loop to stop at its next checkpoint; tells whether one runs.
    pub fn stop_monitor(&mut self) -> (r: bool)
        requires
            old(self).wf(),
        ensures
            final(self).wf(),
            stop_spec(*old(self), *final(self), r),
    {
        if self.phase == Phase::Idle || self.phase == Phase::Stopped {
            return false;
        }
        self.stop_monitor = true;
        true
    }

    /// The pause before the next connection, after a daemon restart attempt.
    pub fn repair_delay(restarted: bool) -> (r: u64)
        ensures
            r == delay_after(restarted),
    {
        if restarted {
            RETRY_DELAY_ADB_DAEMON_OK
        } else {
            RETRY_DELAY_ADB_DAEMON_KO
        }
    }

    /// The request that asks the daemon to stream the device list.
    pub fn track_devices_request() -> (r: Vec<u8>)
        ensures
            r@ == request_bytes(),
    {
        let r: Vec<u8> = vec![
            48, 48, 49, 50, 104, 111, 115, 116, 58, 116, 114, 97, 99, 107, 45, 100, 101, 118, 105,
            99, 101, 115,
        ];
        assert(r@ =~= request_bytes());
        r
    }

    /// Takes the 4-byte status from the front of the buffer and tells whether it is
    /// `OKAY`; `None`, touching nothing, while fewer than 4 bytes are there.
    pub fn consume_okay(&mut self) -> (r: Option<bool>)
        requires
            old(self).wf(),
        ensures
            final(self).wf(),
            final(self).phase() == old(self).phase(),
            final(self).devices() == old(self).devices(),
            final(self).stop_requested() == old(self).stop_requested(),
            old(self).buffered().len() < 4 ==> r is None && final(self).buffered() == old(self).buffered(),
            old(self).buffered().len() >= 4 ==> r == Some(old(self).buffered().take(4) == okay_bytes())
                && final(self).buffered() == old(self).buffered().skip(4),
    {
        let p = self.buf.peek();
        if p.len() < 4 {
            return None;
        }
        let ok = p[0] == 79 && p[1] == 75 && p[2] == 65 && p[3] == 89;
        proof {
            let w = p@.take(4);
            let o = okay_bytes();
            assert(o[0] == 79 && o[1] == 75 && o[2] == 65 && o[3] == 89);
            assert(w[0] == p@[0] && w[1] == p@[1] && w[2] == p@[2] && w[3] == p@[3]);
            if ok {
                assert(w =~= o);
            }
        }
        self.buf.consume(4);
        Some(ok)
    }

    /// Adds bytes read from the daemon; no bytes means that it closed the stream.
    pub fn fill_buffer_from(&mut self, data: &[u8]) -> (r: Result<(), Failure>)
        requires
            old(self).wf(),
            data@.len() <= BUFFER_SIZE - old(self).buffered().len(),
        ensures
            final(self).wf(),
            final(self).phase() == old(self).phase(),
            final(self).devices() == old(self).devices(),
            final(self).stop_requested() == old(self).stop_requested(),
            data@.len() == 0 ==> r == Err::<(), Failure>(Failure::Connection) && final(self).buffered() == old(self).buffered(),
            data@.len() > 0 ==> r is Ok && final(self).buffered() == old(self).buffered() + data@,
    {
        if self.buf.read_from(data) {
            Ok(())
        } else {
            assert(old(self).buffered() + data@ =~= old(self).buffered());
            Err(Failure::Connection)
        }
    }

    /// Reports the devices of a new frame: the serials not known before, each once,
    /// in order; the frame's devices replace the known ones.
    pub fn handle_packet(&mut self, packet: &str) -> (r: Vec<String>)
        requires
            old(self).wf(),
        ensures
            final(self).wf(),
            final(self).phase() == old(self).phase(),
            final(self).buffered() == old(self).buffered(),
            final(self).stop_requested() == old(self).stop_requested(),
            final(self).devices() == devices_of(packet@),
            views(r@) == fresh(old(self).devices(), devices_of(packet@)),
    {
        let current = self.parse_connected_devices(packet);
        let added = crate::devices::new_devices(&self.connected_devices, &current);
        self.connected_devices = current;
        added
    }

    /// Ends the session after a failure.
    fn fault(&mut self, f: Failure) -> (r: Action)
        requires
            old(self).wf(),
        ensures
            final(self).wf(),
            final(self).stop_requested() == old(self).stop_requested(),
            faulted(*final(self), old(self).devices(), r, f),
    {
        self.phase = Phase::Restarting;
        Action::Recover(f)
    }

    /// Takes the next frame from the buffer, if it is all there.
    fn take_frame(&mut self) -> (r: Action)
        requires
            old(self).wf(),
        ensures
            final(self).wf(),
            final(self).stop_requested() == old(self).stop_requested(),
            took_frame(old(self).buffered(), old(self).devices(), *final(self), r),
    {
        match Self::read_packet(&mut self.buf) {
            Err(e) => self.fault(Failure::Protocol(e)),
            Ok(None) => {
                self.phase = Phase::Streaming;
                Action::Read(self.buf.free())
            },
            Ok(Some(p)) => {
                self.phase = Phase::Streaming;
                Action::Notify(self.handle_packet(p.as_str()))
            },
        }
    }

    /// The stop checkpoint, then the next frame.
    fn checked_take_frame(&mut self) -> (r: Action)
        requires
            old(self).wf(),
        ensures
            final(self).wf(),
            final(self).stop_requested() == old(self).stop_requested(),
            checked_frame(
                old(self).stop_requested(),
                old(self).buffered(),
                old(self).devices(),
                *final(self),
                r,
            ),
    {
        if self.stop_monitor {
            self.phase = Phase::Stopped;
            Action::Halt
        } else {
            self.take_frame()
        }
    }

    /// Leaves the loop.
    fn halt(&mut self) -> (r: Action)
        requires
            old(self).wf(),
        ensures
            final(self).wf(),
            final(self).stop_requested() == old(self).stop_requested(),
            final(self).phase() == Phase::Stopped,
            final(self).devices() == old(self).devices(),
            r == Action::Halt,
    {
        self.phase = Phase::Stopped;
        Action::Halt
    }

    /// Decides the loop's next action from the outcome of the last one.
    pub fn step(&mut self, event: Event) -> (r: Action)
        requires
            old(self).wf(),
            event matches Event::Received(d) ==> d@.len() <= BUFFER_SIZE - old(self).buffered().len(),
        ensures
            final(self).wf(),
            final(self).stop_requested() == old(self).stop_requested(),
            step_spec(*old(self), event, *final(self), r),
    {
        match event {
            Event::Failed => match self.phase {
                Phase::Connecting | Phase::Requesting | Phase::AwaitingOkay | Phase::Streaming => {
                    self.fault(Failure::Connection)
                },
                _ => self.halt(),
            },
            Event::Restarted(ok) => {
                if self.phase == Phase::Restarting {
                    self.phase = Phase::Waiting;
                    Action::Sleep(Self::repair_delay(ok))
                } else {
                    self.halt()
                }
            },
            Event::Received(d) => {
                let streaming = self.phase == Phase::Streaming;
                if !streaming && self.phase != Phase::AwaitingOkay {
                    return self.halt();
                }
                match self.fill_buffer_from(d.as_slice()) {
                    Err(f) => self.fault(f),
                    Ok(()) => {
                        if streaming {
                            self.take_frame()
                        } else {
                            match self.consume_okay() {
                                None => Action::Read(self.buf.free()),
                                Some(true) => self.checked_take_frame(),
                                Some(false) => self.fault(
                                    Failure::Protocol(ProtocolError::Refused),
                                ),
                            }
                        }
                    },
                }
            },
            Event::Done => match self.phase {
                Phase::Connecting => {
                    let n = self.buf.peek().len();
                    self.buf.consume(n);
                    assert(self.buffered() =~= Seq::<u8>::empty());
                    self.phase = Phase::Requesting;
                    Action::Send(Self::track_devices_request())
                },
                Phase::Requesting => {
                    self.phase = Phase::AwaitingOkay;
                    Action::Read(self.buf.free())
                },
                Phase::Streaming => self.checked_take_frame(),
                Phase::Waiting => {
                    if self.stop_monitor {
                        self.halt()
                    } else {
                        self.phase = Phase::Connecting;
                        Action::Connect
                    }
                },
                _ => self.halt(),
            },
        }
    }
}

} // verus!
