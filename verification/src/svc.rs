//! The frontend's side of the virtual channel: the events of the host, the
//! window of writes that the host has not yet completed, and the control
//! that stands between the channel and the multiplexer.

use crate::api::{
    ChannelControl, Error, Reassembly, Received, chunk_frames, decode_error, dropped_frames,
    split_frames,
};
use std::collections::HashMap;
use vstd::prelude::*;
use vstd::std_specs::hash::*;

verus! {

/// How many writes the host may hold at once.
pub const MAX_CHUNKS_IN_FLIGHT: usize = 64;

/// The return code with which the host accepts a call.
pub const CHANNEL_RC_OK: u32 = 0;

pub const CHANNEL_EVENT_INITIALIZED: u32 = 0;

pub const CHANNEL_EVENT_CONNECTED: u32 = 1;

pub const CHANNEL_EVENT_DISCONNECTED: u32 = 2;

pub const CHANNEL_EVENT_TERMINATED: u32 = 3;

pub const CHANNEL_EVENT_DATA_RECEIVED: u32 = 10;

pub const CHANNEL_EVENT_WRITE_COMPLETE: u32 = 11;

pub const CHANNEL_EVENT_WRITE_CANCELLED: u32 = 12;

/// Where the virtual channel is in its life, as the host reports it.
#[derive(Debug)]
pub enum State {
    Initialized,
    /// Connected, to the server of this name if the host gave one.
    Connected(Option<String>),
    Disconnected,
    Terminated,
}

/// What the control asks of the virtual channel.
#[derive(Debug)]
pub enum Command {
    Open,
    Channel(ChannelControl),
    Close,
}

/// What the virtual channel reports to the control.
#[derive(Debug)]
pub enum Response {
    ChangeState(State),
    ReceivedData(Vec<u8>),
    WriteCancelled,
}

/// Why the virtual channel refused a call.
#[derive(Clone, Copy, Debug, PartialEq, Eq, Structural)]
pub enum SvcError {
    NotReady,
    Disconnected,
    /// The host answered with this code.
    VirtualChannel(u32),
}

/// An event that the host reports through the callback it got at
/// initialisation.
#[derive(Clone, Copy, Debug, PartialEq, Eq, Structural)]
pub enum InitEvent {
    Initialized,
    Connected,
    Disconnected,
    Terminated,
}

/// An event that the host reports through the callback it got when the
/// channel was opened.
#[derive(Clone, Copy, Debug, PartialEq, Eq, Structural)]
pub enum OpenEvent {
    DataReceived,
    WriteComplete,
    WriteCancelled,
}

/// The initialisation event with this code.
pub fn init_event(code: u32) -> (event: Option<InitEvent>)
    ensures
        event == match code {
            0 => Some(InitEvent::Initialized),
            1 => Some(InitEvent::Connected),
            2 => Some(InitEvent::Disconnected),
            3 => Some(InitEvent::Terminated),
            _ => None,
        },
{
    if code == CHANNEL_EVENT_INITIALIZED {
        Some(InitEvent::Initialized)
    } else if code == CHANNEL_EVENT_CONNECTED {
        Some(InitEvent::Connected)
    } else if code == CHANNEL_EVENT_DISCONNECTED {
        Some(InitEvent::Disconnected)
    } else if code == CHANNEL_EVENT_TERMINATED {
        Some(InitEvent::Terminated)
    } else {
        None
    }
}

/// The open event with this code.
pub fn open_event(code: u32) -> (event: Option<OpenEvent>)
    ensures
        event == match code {
            10 => Some(OpenEvent::DataReceived),
            11 => Some(OpenEvent::WriteComplete),
            12 => Some(OpenEvent::WriteCancelled),
            _ => None,
        },
{
    if code == CHANNEL_EVENT_DATA_RECEIVED {
        Some(OpenEvent::DataReceived)
    } else if code == CHANNEL_EVENT_WRITE_COMPLETE {
        Some(OpenEvent::WriteComplete)
    } else if code == CHANNEL_EVENT_WRITE_CANCELLED {
        Some(OpenEvent::WriteCancelled)
    } else {
        None
    }
}

/// The marker that stands `steps` behind `marker` when markers count up
/// and wrap around after 32 bits.
pub open spec fn marker_after(marker: u32, steps: nat) -> u32 {
    ((marker + steps) % 0x1_0000_0000) as u32
}

/// How many steps `to` stands behind `from`.
pub open spec fn marker_distance(from: u32, to: u32) -> nat {
    ((to - from) % 0x1_0000_0000) as nat
}

/// The writes that the host has taken and not yet completed.
///
/// Some hosts read a buffer until they report the write complete, so each
/// buffer is kept, under the marker that the write carried, until the host
/// reports on that marker. At most 64 writes are under way at once: each
/// takes a permit first, and its place is free again when the host refuses
/// the write or reports on it.
pub struct WriteStatus {
    sent: HashMap<u32, Vec<u8>>,
    permits: usize,
    reserved: usize,
    counter: u32,
}

impl WriteStatus {
    #[verifier::type_invariant]
    closed spec fn bounded(&self) -> bool {
        self.permits + self.reserved + self.sent@.dom().len() <= MAX_CHUNKS_IN_FLIGHT
    }

    /// The buffers that are kept, by marker.
    pub closed spec fn sent(&self) -> Map<u32, Vec<u8>> {
        self.sent@
    }

    /// How many more writes may start.
    pub closed spec fn permits(&self) -> nat {
        self.permits as nat
    }

    /// How many writes have taken a permit and are not yet answered by the
    /// host.
    pub closed spec fn reserved(&self) -> nat {
        self.reserved as nat
    }

    /// The marker from which the next write looks for its own.
    pub closed spec fn counter(&self) -> u32 {
        self.counter
    }

    /// The budget: the writes that may start, those that have started, and
    /// the buffers that are kept are 64 at most, all together.
    pub open spec fn within_budget(&self) -> bool {
        &&& self.sent().dom().finite()
        &&& self.permits() + self.reserved() + self.sent().dom().len() <= MAX_CHUNKS_IN_FLIGHT
    }

    /// What `next_marker` does: the marker is the first from the counter on
    /// that no kept buffer carries, and the counter stands behind it.
    pub open spec fn is_marked(before: WriteStatus, marker: u32, after: WriteStatus) -> bool {
        &&& !before.sent().contains_key(marker)
        &&& marker_distance(before.counter(), marker) <= before.sent().dom().len()
        &&& forall|j: nat|
            j < marker_distance(before.counter(), marker) ==> before.sent().contains_key(
                #[trigger] marker_after(before.counter(), j),
            )
        &&& after.counter() == marker_after(marker, 1)
        &&& after.sent() == before.sent()
        &&& after.permits() == before.permits()
        &&& after.reserved() == before.reserved()
    }

    /// What `try_acquire` does: a permit, if one is left, becomes a write
    /// under way.
    pub open spec fn is_acquired(before: WriteStatus, acquired: bool, after: WriteStatus) -> bool {
        &&& acquired == (before.permits() > 0)
        &&& after.permits() == if acquired {
            (before.permits() - 1) as nat
        } else {
            before.permits()
        }
        &&& after.reserved() == if acquired {
            before.reserved() + 1
        } else {
            before.reserved()
        }
        &&& after.sent() == before.sent()
        &&& after.counter() == before.counter()
    }

    /// What `written` does with the answer `rc` of the host to a write
    /// under way. If the host took the buffer it is kept under `marker`,
    /// unmodified. If not, the permit is back as before the write. Where no
    /// write is under way nothing is done.
    pub open spec fn is_written(
        before: WriteStatus,
        marker: u32,
        data: Vec<u8>,
        rc: u32,
        r: Result<(), SvcError>,
        after: WriteStatus,
    ) -> bool {
        &&& after.counter() == before.counter()
        &&& if before.reserved() == 0 {
            &&& r == Err::<(), SvcError>(SvcError::NotReady)
            &&& after.sent() == before.sent()
            &&& after.permits() == before.permits()
            &&& after.reserved() == before.reserved()
        } else if rc == CHANNEL_RC_OK {
            &&& r == Ok::<(), SvcError>(())
            &&& after.sent() == before.sent().insert(marker, data)
            &&& after.reserved() == before.reserved() - 1
            &&& after.permits() == if before.sent().contains_key(marker) {
                before.permits() + 1
            } else {
                before.permits()
            }
        } else {
            &&& r == Err::<(), SvcError>(SvcError::VirtualChannel(rc))
            &&& after.sent() == before.sent()
            &&& after.reserved() == before.reserved() - 1
            &&& after.permits() == before.permits() + 1
        }
    }

    /// What `completed` does: the buffer of `marker` is let go, and if
    /// there was one its permit is back.
    pub open spec fn is_completed(before: WriteStatus, marker: u32, after: WriteStatus) -> bool {
        &&& after.counter() == before.counter()
        &&& after.reserved() == before.reserved()
        &&& after.sent() == before.sent().remove(marker)
        &&& after.permits() == if before.sent().contains_key(marker) {
            before.permits() + 1
        } else {
            before.permits()
        }
    }

    /// What `reset` does: every buffer is let go, and every permit is there
    /// again but those of the writes under way.
    pub open spec fn is_reset(before: WriteStatus, after: WriteStatus) -> bool {
        &&& after.counter() == before.counter()
        &&& after.reserved() == before.reserved()
        &&& after.sent() == Map::<u32, Vec<u8>>::empty()
        &&& after.permits() + after.reserved() == MAX_CHUNKS_IN_FLIGHT
    }

    pub fn new() -> (status: WriteStatus)
        ensures
            status.within_budget(),
            status.sent() == Map::<u32, Vec<u8>>::empty(),
            status.permits() == MAX_CHUNKS_IN_FLIGHT,
            status.reserved() == 0,
            status.counter() == 0,
    {
        broadcast use group_hash_axioms;

        WriteStatus { sent: HashMap::new(), permits: MAX_CHUNKS_IN_FLIGHT, reserved: 0, counter: 0 }
    }

    /// Gives the marker of the next write: the first, from the counter on,
    /// that no write carries whose buffer is kept. Markers count up and wrap
    /// around after 32 bits.
    pub fn next_marker(&mut self) -> (marker: u32)
        ensures
            final(self).within_budget(),
            WriteStatus::is_marked(*old(self), marker, *final(self)),
    {
        broadcast use group_hash_axioms;

        proof {
            use_type_invariant(&*self);
        }
        let start: u32 = self.counter;
        let mut marker: u32 = start;
        let mut tried: usize = 0;
        let ghost mut seen: Set<u32> = Set::empty();
        while self.sent.contains_key(&marker)
            invariant
                *self == *old(self),
                start == self.counter,
                self.sent@.dom().finite(),
                self.sent@.dom().len() <= MAX_CHUNKS_IN_FLIGHT,
                tried <= self.sent@.dom().len(),
                marker == marker_after(start, tried as nat),
                marker_distance(start, marker) == tried,
                forall|j: nat| j < tried ==> self.sent@.contains_key(#[trigger] marker_after(start, j)),
                seen.finite(),
                seen.len() == tried,
                seen.subset_of(self.sent@.dom()),
                forall|x: u32| seen.contains(x) ==> marker_distance(start, x) < tried,
            decreases MAX_CHUNKS_IN_FLIGHT - tried,
        {
            proof {
                assert(!seen.contains(marker));
                let more = seen.insert(marker);
                assert(more.subset_of(self.sent@.dom()));
                vstd::set_lib::lemma_len_subset(more, self.sent@.dom());
                seen = more;
            }
            marker = if marker == u32::MAX {
                0
            } else {
                marker + 1
            };
            tried = tried + 1;
        }
        self.counter = if marker == u32::MAX {
            0
        } else {
            marker + 1
        };
        marker
    }

    /// Takes a permit if one is left. With none left the writer waits and
    /// asks again.
    pub fn try_acquire(&mut self) -> (acquired: bool)
        ensures
            final(self).within_budget(),
            WriteStatus::is_acquired(*old(self), acquired, *final(self)),
    {
        broadcast use group_hash_axioms;

        proof {
            use_type_invariant(&*self);
        }
        if self.permits == 0 {
            false
        } else {
            self.permits = self.permits - 1;
            self.reserved = self.reserved + 1;
            true
        }
    }

    /// The end of a write for which a permit was taken, with the code `rc`
    /// that the host gave for it.
    pub fn written(&mut self, marker: u32, data: Vec<u8>, rc: u32) -> (r: Result<(), SvcError>)
        ensures
            final(self).within_budget(),
            WriteStatus::is_written(*old(self), marker, data, rc, r, *final(self)),
    {
        broadcast use group_hash_axioms;

        proof {
            use_type_invariant(&*self);
        }
        if self.reserved == 0 {
            return Err(SvcError::NotReady);
        }
        if rc == CHANNEL_RC_OK {
            let known: bool = self.sent.contains_key(&marker);
            let mut sent: HashMap<u32, Vec<u8>> = HashMap::new();
            core::mem::swap(&mut self.sent, &mut sent);
            let _ = sent.insert(marker, data);
            self.reserved = self.reserved - 1;
            if known {
                assert(sent@.dom() =~= old(self).sent@.dom());
                self.sent = sent;
                self.permits = self.permits + 1;
            } else {
                self.sent = sent;
            }
            Ok(())
        } else {
            self.reserved = self.reserved - 1;
            self.permits = self.permits + 1;
            Err(SvcError::VirtualChannel(rc))
        }
    }

    /// The host reports the write of `marker` complete or cancelled: its
    /// buffer is let go, and its permit is back.
    pub fn completed(&mut self, marker: u32) -> (buffer: Option<Vec<u8>>)
        ensures
            final(self).within_budget(),
            WriteStatus::is_completed(*old(self), marker, *final(self)),
            buffer is Some == old(self).sent().contains_key(marker),
            buffer is Some ==> buffer->Some_0 == old(self).sent()[marker],
    {
        broadcast use group_hash_axioms;

        proof {
            use_type_invariant(&*self);
        }
        let mut sent: HashMap<u32, Vec<u8>> = HashMap::new();
        core::mem::swap(&mut self.sent, &mut sent);
        let buffer: Option<Vec<u8>> = sent.remove(&marker);
        match buffer {
            Some(_) => {
                self.sent = sent;
                self.permits = self.permits + 1;
            },
            None => {
                assert(sent@ =~= old(self).sent@);
                self.sent = sent;
            },
        }
        buffer
    }

    /// The channel is down: every buffer is let go, and the permits are
    /// there again.
    pub fn reset(&mut self)
        ensures
            final(self).within_budget(),
            WriteStatus::is_reset(*old(self), *final(self)),
    {
        broadcast use group_hash_axioms;

        proof {
            use_type_invariant(&*self);
        }
        self.sent = HashMap::new();
        self.permits = MAX_CHUNKS_IN_FLIGHT - self.reserved;
    }
}

/// Whether the window of `after` is that of `before` after a step that
/// `step` describes, within its budget; without a window there is none
/// after the step either.
pub open spec fn is_window_step(
    before: Option<WriteStatus>,
    after: Option<WriteStatus>,
    step: spec_fn(WriteStatus, WriteStatus) -> bool,
) -> bool {
    match (before, after) {
        (Some(b), Some(a)) => a.within_budget() && step(b, a),
        (None, None) => true,
        _ => false,
    }
}

/// The frontend's end of the virtual channel, as far as it keeps state: the
/// window of writes, which is there from the host's initialisation to its
/// termination.
pub struct Transport {
    write_ack: Option<WriteStatus>,
}

impl Transport {
    /// The window of writes, once the host has initialised the channel.
    pub closed spec fn write_status(&self) -> Option<WriteStatus> {
        self.write_ack
    }

    pub fn new() -> (transport: Transport)
        ensures
            transport.write_status() is None,
    {
        Transport { write_ack: None }
    }

    /// Takes an event of initialisation and gives the report that goes to
    /// the control.
    ///
    /// Initialisation opens a fresh window of writes. A disconnection lets
    /// all buffers go and gives the permits back. A termination closes the
    /// window.
    pub fn on_init_event(&mut self, event: InitEvent, server_name: Option<String>) -> (response:
        Response)
        ensures
            match event {
                InitEvent::Initialized => {
                    &&& response matches Response::ChangeState(State::Initialized)
                    &&& final(self).write_status() is Some
                    &&& final(self).write_status()->Some_0.within_budget()
                    &&& final(self).write_status()->Some_0.sent() == Map::<u32, Vec<u8>>::empty()
                    &&& final(self).write_status()->Some_0.permits() == MAX_CHUNKS_IN_FLIGHT
                    &&& final(self).write_status()->Some_0.reserved() == 0
                    &&& final(self).write_status()->Some_0.counter() == 0
                },
                InitEvent::Connected => {
                    &&& response matches Response::ChangeState(State::Connected(name))
                    &&& name == server_name
                    &&& final(self).write_status() == old(self).write_status()
                },
                InitEvent::Disconnected => {
                    &&& response matches Response::ChangeState(State::Disconnected)
                    &&& is_window_step(
                        old(self).write_status(),
                        final(self).write_status(),
                        |b: WriteStatus, a: WriteStatus| WriteStatus::is_reset(b, a),
                    )
                },
                InitEvent::Terminated => {
                    &&& response matches Response::ChangeState(State::Terminated)
                    &&& final(self).write_status() is None
                },
            },
    {
        match event {
            InitEvent::Initialized => {
                self.write_ack = Some(WriteStatus::new());
                Response::ChangeState(State::Initialized)
            },
            InitEvent::Connected => Response::ChangeState(State::Connected(server_name)),
            InitEvent::Disconnected => {
                let mut write_ack: Option<WriteStatus> = None;
                core::mem::swap(&mut self.write_ack, &mut write_ack);
                match write_ack {
                    Some(mut status) => {
                        status.reset();
                        self.write_ack = Some(status);
                    },
                    None => {},
                }
                Response::ChangeState(State::Disconnected)
            },
            InitEvent::Terminated => {
                self.write_ack = None;
                Response::ChangeState(State::Terminated)
            },
        }
    }

    /// Takes an event of the open channel and gives the report that goes to
    /// the control, if one does. `data` is what the host delivered with a
    /// reception, `marker` what it gave with the end of a write.
    ///
    /// The end of a write, complete or cancelled, lets its buffer go and
    /// gives its permit back.
    pub fn on_open_event(&mut self, event: OpenEvent, data: Vec<u8>, marker: u32) -> (response:
        Option<Response>)
        ensures
            match event {
                OpenEvent::DataReceived => {
                    &&& response matches Some(Response::ReceivedData(d))
                    &&& d == data
                    &&& final(self).write_status() == old(self).write_status()
                },
                OpenEvent::WriteCancelled => {
                    &&& response matches Some(Response::WriteCancelled)
                    &&& is_window_step(
                        old(self).write_status(),
                        final(self).write_status(),
                        |b: WriteStatus, a: WriteStatus| WriteStatus::is_completed(b, marker, a),
                    )
                },
                OpenEvent::WriteComplete => {
                    &&& response is None
                    &&& is_window_step(
                        old(self).write_status(),
                        final(self).write_status(),
                        |b: WriteStatus, a: WriteStatus| WriteStatus::is_completed(b, marker, a),
                    )
                },
            },
    {
        match event {
            OpenEvent::DataReceived => Some(Response::ReceivedData(data)),
            OpenEvent::WriteCancelled => {
                self.release(marker);
                Some(Response::WriteCancelled)
            },
            OpenEvent::WriteComplete => {
                self.release(marker);
                None
            },
        }
    }

    fn release(&mut self, marker: u32)
        ensures
            is_window_step(
                old(self).write_status(),
                final(self).write_status(),
                |b: WriteStatus, a: WriteStatus| WriteStatus::is_completed(b, marker, a),
            ),
    {
        let mut write_ack: Option<WriteStatus> = None;
        core::mem::swap(&mut self.write_ack, &mut write_ack);
        match write_ack {
            Some(mut status) => {
                let _ = status.completed(marker);
                self.write_ack = Some(status);
            },
            None => {},
        }
    }

    /// Starts a write of `len` bytes: gives the marker that the write is to
    /// carry, which no write carries whose buffer is kept. Fails with
    /// `NotReady` before initialisation, and with code 0 if the host cannot
    /// be told a length of `len`; the counter of markers moves on all the
    /// same.
    pub fn begin_write(&mut self, len: usize) -> (r: Result<u32, SvcError>)
        ensures
            old(self).write_status() is None ==> r == Err::<u32, SvcError>(SvcError::NotReady)
                && final(self).write_status() is None,
            old(self).write_status() is Some ==> {
                let before = old(self).write_status()->Some_0;
                &&& final(self).write_status() is Some
                &&& final(self).write_status()->Some_0.within_budget()
                &&& len <= u32::MAX ==> r is Ok && WriteStatus::is_marked(
                    before,
                    r->Ok_0,
                    final(self).write_status()->Some_0,
                )
                &&& len > u32::MAX ==> {
                    let after = final(self).write_status()->Some_0;
                    &&& r == Err::<u32, SvcError>(SvcError::VirtualChannel(0))
                    &&& after.sent() == before.sent()
                    &&& after.permits() == before.permits()
                    &&& after.reserved() == before.reserved()
                }
            },
    {
        let mut write_ack: Option<WriteStatus> = None;
        core::mem::swap(&mut self.write_ack, &mut write_ack);
        match write_ack {
            None => Err(SvcError::NotReady),
            Some(mut status) => {
                let marker: u32 = status.next_marker();
                self.write_ack = Some(status);
                if len > 0xffff_ffff {
                    Err(SvcError::VirtualChannel(0))
                } else {
                    Ok(marker)
                }
            },
        }
    }

    /// Takes a permit for a write that has its marker. `Ok(false)` says that
    /// 64 writes are under way: the writer waits for the host to report on
    /// one of them and asks again.
    pub fn try_acquire(&mut self) -> (r: Result<bool, SvcError>)
        ensures
            old(self).write_status() is None ==> r == Err::<bool, SvcError>(SvcError::NotReady)
                && final(self).write_status() is None,
            old(self).write_status() is Some ==> {
                &&& final(self).write_status() is Some
                &&& final(self).write_status()->Some_0.within_budget()
                &&& r is Ok
                &&& WriteStatus::is_acquired(
                    old(self).write_status()->Some_0,
                    r->Ok_0,
                    final(self).write_status()->Some_0,
                )
            },
    {
        let mut write_ack: Option<WriteStatus> = None;
        core::mem::swap(&mut self.write_ack, &mut write_ack);
        match write_ack {
            None => Err(SvcError::NotReady),
            Some(mut status) => {
                let acquired: bool = status.try_acquire();
                self.write_ack = Some(status);
                Ok(acquired)
            },
        }
    }

    /// Ends a write for which a permit was taken, with the code that the
    /// host gave for it: a buffer that the host took is kept under its
    /// marker, and after a refusal the permit is back.
    pub fn end_write(&mut self, marker: u32, data: Vec<u8>, rc: u32) -> (r: Result<(), SvcError>)
        ensures
            old(self).write_status() is None ==> r == Err::<(), SvcError>(SvcError::NotReady)
                && final(self).write_status() is None,
            old(self).write_status() is Some ==> {
                &&& final(self).write_status() is Some
                &&& final(self).write_status()->Some_0.within_budget()
                &&& WriteStatus::is_written(
                    old(self).write_status()->Some_0,
                    marker,
                    data,
                    rc,
                    r,
                    final(self).write_status()->Some_0,
                )
            },
    {
        let mut write_ack: Option<WriteStatus> = None;
        core::mem::swap(&mut self.write_ack, &mut write_ack);
        match write_ack {
            None => Err(SvcError::NotReady),
            Some(mut status) => {
                let r: Result<(), SvcError> = status.written(marker, data, rc);
                self.write_ack = Some(status);
                r
            },
        }
    }
}

/// A message that the control passes on.
#[derive(Debug)]
pub enum ControlOutput {
    /// For the virtual channel.
    ToSvc(Command),
    /// For the multiplexer.
    ToFrontend(ChannelControl),
}

/// What the control does with one report of the virtual channel.
#[derive(Debug)]
pub struct FromSvc {
    /// The messages to pass on, in order.
    pub outputs: Vec<ControlOutput>,
    /// Why frames that were no chunks were dropped, for a warning.
    pub dropped: Vec<Error>,
}

/// Whether `output` hands the chunk with these bytes to the multiplexer.
pub open spec fn is_chunk_for_frontend(output: ControlOutput, frame: Seq<u8>) -> bool {
    output matches ControlOutput::ToFrontend(ChannelControl::SendChunk(chunk)) && chunk.bytes()
        == frame
}

/// Stands between the virtual channel and the multiplexer: follows the state
/// of the channel, cuts what the channel delivers into chunks, and keeps the
/// channel open.
pub struct Control {
    state: State,
    received: Reassembly,
}

impl Control {
    /// The state that the channel reported last.
    pub closed spec fn state(&self) -> State {
        self.state
    }

    /// The bytes received that do not yet make a chunk.
    pub closed spec fn pending(&self) -> Seq<u8> {
        self.received.pending()
    }

    pub fn new() -> (control: Control)
        ensures
            control.state() == State::Disconnected,
            control.pending() == Seq::<u8>::empty(),
    {
        Control { state: State::Disconnected, received: Reassembly::new() }
    }

    /// What a message of the multiplexer becomes for the virtual channel: a
    /// shutdown closes the channel, anything else is passed on.
    pub fn control_to_svc(control: ChannelControl) -> (command: Command)
        ensures
            command == match control {
                ChannelControl::Shutdown => Command::Close,
                other => Command::Channel(other),
            },
    {
        match control {
            ChannelControl::Shutdown => Command::Close,
            other => Command::Channel(other),
        }
    }

    /// Takes one report of the virtual channel.
    ///
    /// A new state is recorded; a connection has the channel opened; a
    /// disconnection or termination shuts the multiplexer down and has the
    /// channel opened again. A cancelled write closes the channel, shuts the
    /// multiplexer down and has the channel opened again. Received bytes go
    /// to the multiplexer as chunks, in order; a frame that is no chunk is
    /// dropped, and the frames behind it are passed on all the same.
    pub fn control_from_svc(&mut self, response: Response) -> (r: FromSvc)
        ensures
            match response {
                Response::ChangeState(new_state) => {
                    &&& final(self).state() == new_state
                    &&& final(self).pending() == old(self).pending()
                    &&& r.dropped@.len() == 0
                    &&& match new_state {
                        State::Initialized => r.outputs@.len() == 0,
                        State::Connected(_) => {
                            &&& r.outputs@.len() == 1
                            &&& r.outputs@[0] matches ControlOutput::ToSvc(Command::Open)
                        },
                        State::Disconnected | State::Terminated => {
                            &&& r.outputs@.len() == 2
                            &&& r.outputs@[0] matches ControlOutput::ToFrontend(
                                ChannelControl::Shutdown,
                            )
                            &&& r.outputs@[1] matches ControlOutput::ToSvc(Command::Open)
                        },
                    }
                },
                Response::WriteCancelled => {
                    &&& final(self).state() == old(self).state()
                    &&& final(self).pending() == old(self).pending()
                    &&& r.dropped@.len() == 0
                    &&& r.outputs@.len() == 3
                    &&& r.outputs@[0] matches ControlOutput::ToSvc(Command::Close)
                    &&& r.outputs@[1] matches ControlOutput::ToFrontend(ChannelControl::Shutdown)
                    &&& r.outputs@[2] matches ControlOutput::ToSvc(Command::Open)
                },
                Response::ReceivedData(data) => {
                    let (frames, rest) = split_frames(old(self).pending() + data@);
                    &&& final(self).state() == old(self).state()
                    &&& final(self).pending() == rest
                    &&& r.outputs@.len() == chunk_frames(frames).len()
                    &&& forall|i: int|
                        0 <= i < r.outputs@.len() ==> is_chunk_for_frontend(
                            #[trigger] r.outputs@[i],
                            chunk_frames(frames)[i],
                        )
                    &&& r.dropped@.len() == dropped_frames(frames).len()
                    &&& forall|i: int|
                        0 <= i < r.dropped@.len() ==> #[trigger] r.dropped@[i] == decode_error(
                            dropped_frames(frames)[i],
                        )
                },
            },
    {
        let mut outputs: Vec<ControlOutput> = Vec::new();
        match response {
            Response::ChangeState(new_state) => {
                match &new_state {
                    State::Initialized => {},
                    State::Connected(_) => {
                        outputs.push(ControlOutput::ToSvc(Command::Open));
                    },
                    State::Disconnected | State::Terminated => {
                        outputs.push(ControlOutput::ToFrontend(ChannelControl::Shutdown));
                        outputs.push(ControlOutput::ToSvc(Command::Open));
                    },
                }
                self.state = new_state;
                FromSvc { outputs, dropped: Vec::new() }
            },
            Response::WriteCancelled => {
                outputs.push(ControlOutput::ToSvc(Command::Close));
                outputs.push(ControlOutput::ToFrontend(ChannelControl::Shutdown));
                outputs.push(ControlOutput::ToSvc(Command::Open));
                FromSvc { outputs, dropped: Vec::new() }
            },
            Response::ReceivedData(data) => {
                let ghost frames = split_frames(self.received.pending() + data@).0;
                let received: Received = self.received.receive(data.as_slice());
                let ghost wanted = chunk_frames(frames);
                for chunk in it: received.chunks
                    invariant
                        it.seq().len() == wanted.len(),
                        forall|i: int|
                            0 <= i < it.seq().len() ==> (#[trigger] it.seq()[i]).bytes()
                                == wanted[i],
                        outputs@.len() == it.index(),
                        forall|i: int|
                            0 <= i < outputs@.len() ==> is_chunk_for_frontend(
                                #[trigger] outputs@[i],
                                wanted[i],
                            ),
                {
                    outputs.push(ControlOutput::ToFrontend(ChannelControl::SendChunk(chunk)));
                }
                FromSvc { outputs, dropped: received.dropped }
            },
        }
    }
}

} // verus!
