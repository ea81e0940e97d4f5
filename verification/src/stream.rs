//! The duplex stream of one client: its life cycle, the writer that gathers
//! bytes into data chunks, and the reader that hands the payloads of received
//! chunks out as bytes.

use crate::api::{
    Chunk, ChunkType, ClientId, Frame, IoErrorKind, ID_DATA, ID_END, ID_START,
    MAX_PAYLOAD_LENGTH, lemma_encode_is_frame, chunk_type_of,
};
use crate::queue::recv;
use crate::service::Service;
use vstd::prelude::*;
use vstd::slice::*;

verus! {

/// Where a stream is in its life. `Disconnected` is final.
#[derive(Clone, Copy, Debug, PartialEq, Eq, Structural)]
pub enum RdpStreamState {
    Ready,
    Connected,
    Disconnected,
}

impl RdpStreamState {
    pub fn is_connected(&self) -> (connected: bool)
        ensures
            connected == (*self == RdpStreamState::Connected),
    {
        match self {
            RdpStreamState::Connected => true,
            _ => false,
        }
    }
}

/// What one step of a stream may do to its state while it hands a chunk of
/// kind `emitted` to the transport, or none.
///
/// A start chunk leaves only a stream that was ready, and connects it. A data
/// chunk leaves only a connected stream. An end chunk leaves only a connected
/// stream, and disconnects it. A disconnected stream stays so and is silent.
pub open spec fn stream_step(
    before: RdpStreamState,
    emitted: Option<ChunkType>,
    after: RdpStreamState,
) -> bool {
    &&& before == RdpStreamState::Disconnected ==> after == RdpStreamState::Disconnected
        && emitted is None
    &&& emitted == Some(ChunkType::Start) ==> before == RdpStreamState::Ready && after
        == RdpStreamState::Connected
    &&& emitted == Some(ChunkType::Data) ==> before == RdpStreamState::Connected
    &&& emitted == Some(ChunkType::End) ==> before == RdpStreamState::Connected && after
        == RdpStreamState::Disconnected
    &&& after == RdpStreamState::Ready ==> before == RdpStreamState::Ready
}

/// The type of the chunk, where there is one and it has a known kind.
pub open spec fn kind_of(chunk: Option<Chunk>) -> Option<ChunkType> {
    match chunk {
        Some(c) => match chunk_type_of(c@.kind) {
            Ok(t) => Some(t),
            Err(_) => None,
        },
        None => None,
    }
}

/// A run of a stream: the states it went through, and what it emitted
/// between each state and the next.
pub open spec fn is_stream_run(states: Seq<RdpStreamState>, emitted: Seq<Option<ChunkType>>) -> bool {
    &&& states.len() == emitted.len() + 1
    &&& forall|i: int|
        0 <= i < emitted.len() ==> stream_step(states[i], #[trigger] emitted[i], states[i + 1])
}

/// Once a stream is disconnected it stays so.
pub proof fn lemma_disconnected_is_final(
    states: Seq<RdpStreamState>,
    emitted: Seq<Option<ChunkType>>,
    i: int,
    j: int,
)
    requires
        is_stream_run(states, emitted),
        0 <= i <= j < states.len(),
        states[i] == RdpStreamState::Disconnected,
    ensures
        states[j] == RdpStreamState::Disconnected,
    decreases j - i,
{
    if i < j {
        assert(stream_step(states[i], emitted[i], states[i + 1]));
        lemma_disconnected_is_final(states, emitted, i + 1, j);
    }
}

/// A stream emits at most one end chunk, and nothing after it: whatever the
/// run, if step `i` emitted an end chunk then every later step emitted
/// nothing.
pub proof fn lemma_single_end(
    states: Seq<RdpStreamState>,
    emitted: Seq<Option<ChunkType>>,
    i: int,
    j: int,
)
    requires
        is_stream_run(states, emitted),
        0 <= i < j < emitted.len(),
        emitted[i] == Some(ChunkType::End),
    ensures
        emitted[j] is None,
{
    assert(stream_step(states[i], emitted[i], states[i + 1]));
    lemma_disconnected_is_final(states, emitted, i + 1, j);
    assert(stream_step(states[j], emitted[j], states[j + 1]));
}

/// What a disconnection asks of the caller.
#[derive(Debug)]
pub struct Disconnection {
    /// The end chunk to hand to the transport, best effort.
    pub end: Option<Chunk>,
    /// Whether the client is to be removed from the client table.
    pub forget: bool,
}

/// What the reader and the writers of one stream share: whose stream it is,
/// for which service, and where it is in its life.
#[derive(Debug)]
pub struct RdpStreamCommon {
    client_id: ClientId,
    service: Service,
    state: RdpStreamState,
}

impl RdpStreamCommon {
    pub closed spec fn spec_client_id(&self) -> ClientId {
        self.client_id
    }

    pub closed spec fn spec_service(&self) -> Service {
        self.service
    }

    pub closed spec fn spec_state(&self) -> RdpStreamState {
        self.state
    }

    pub open spec fn spec_is_connected(&self) -> bool {
        self.spec_state() == RdpStreamState::Connected
    }

    /// The control block of a stream that has neither connected nor accepted.
    pub fn new(service: Service, client_id: ClientId) -> (c: RdpStreamCommon)
        ensures
            c.spec_client_id() == client_id,
            c.spec_service() == service,
            c.spec_state() == RdpStreamState::Ready,
    {
        RdpStreamCommon { client_id, service, state: RdpStreamState::Ready }
    }

    #[verifier::when_used_as_spec(spec_client_id)]
    pub fn client_id(&self) -> (id: ClientId)
        ensures
            id == self.spec_client_id(),
    {
        self.client_id
    }

    #[verifier::when_used_as_spec(spec_service)]
    pub fn service(&self) -> (service: Service)
        ensures
            service == self.spec_service(),
    {
        self.service
    }

    #[verifier::when_used_as_spec(spec_state)]
    pub fn state(&self) -> (state: RdpStreamState)
        ensures
            state == self.spec_state(),
    {
        self.state
    }

    #[verifier::when_used_as_spec(spec_is_connected)]
    pub fn is_connected(&self) -> (connected: bool)
        ensures
            connected == self.spec_is_connected(),
    {
        self.state.is_connected()
    }

    /// Takes up a stream that the peer started. Only a ready stream accepts.
    pub fn accept(&mut self) -> (r: Result<(), IoErrorKind>)
        ensures
            final(self).spec_client_id() == old(self).spec_client_id(),
            final(self).spec_service() == old(self).spec_service(),
            match old(self).spec_state() {
                RdpStreamState::Ready => r == Ok::<(), IoErrorKind>(())
                    && final(self).spec_state() == RdpStreamState::Connected,
                RdpStreamState::Connected => r == Err::<(), IoErrorKind>(
                    IoErrorKind::AlreadyExists,
                ) && final(self).spec_state() == RdpStreamState::Connected,
                RdpStreamState::Disconnected => r == Err::<(), IoErrorKind>(
                    IoErrorKind::Interrupted,
                ) && final(self).spec_state() == RdpStreamState::Disconnected,
            },
            stream_step(old(self).spec_state(), None, final(self).spec_state()),
    {
        match self.state {
            RdpStreamState::Ready => {
                self.state = RdpStreamState::Connected;
                Ok(())
            },
            RdpStreamState::Connected => Err(IoErrorKind::AlreadyExists),
            RdpStreamState::Disconnected => Err(IoErrorKind::Interrupted),
        }
    }

    /// Opens the stream towards the peer: gives the start chunk to hand to
    /// the transport. Only a ready stream connects, and only if the name of
    /// its service fits in a chunk.
    pub fn connect(&mut self) -> (r: Result<Chunk, IoErrorKind>)
        ensures
            final(self).spec_client_id() == old(self).spec_client_id(),
            final(self).spec_service() == old(self).spec_service(),
            match old(self).spec_state() {
                RdpStreamState::Ready => if old(self).spec_service().name_bytes().len()
                    <= MAX_PAYLOAD_LENGTH {
                    &&& r is Ok
                    &&& r->Ok_0@ == (Frame {
                        client_id: old(self).spec_client_id(),
                        kind: ID_START,
                        payload: old(self).spec_service().name_bytes(),
                    })
                    &&& final(self).spec_state() == RdpStreamState::Connected
                } else {
                    &&& r == Err::<Chunk, IoErrorKind>(IoErrorKind::InvalidData)
                    &&& final(self).spec_state() == RdpStreamState::Ready
                },
                RdpStreamState::Connected => r == Err::<Chunk, IoErrorKind>(
                    IoErrorKind::AlreadyExists,
                ) && final(self).spec_state() == RdpStreamState::Connected,
                RdpStreamState::Disconnected => r == Err::<Chunk, IoErrorKind>(
                    IoErrorKind::Interrupted,
                ) && final(self).spec_state() == RdpStreamState::Disconnected,
            },
            stream_step(
                old(self).spec_state(),
                match r {
                    Ok(c) => kind_of(Some(c)),
                    Err(_) => None,
                },
                final(self).spec_state(),
            ),
    {
        match self.state {
            RdpStreamState::Ready => {
                match Chunk::start(self.client_id, &self.service) {
                    Ok(chunk) => {
                        proof {
                            lemma_encode_is_frame(
                                self.client_id,
                                ID_START,
                                self.service.name_bytes(),
                            );
                        }
                        self.state = RdpStreamState::Connected;
                        Ok(chunk)
                    },
                    Err(_) => Err(IoErrorKind::InvalidData),
                }
            },
            RdpStreamState::Connected => Err(IoErrorKind::AlreadyExists),
            RdpStreamState::Disconnected => Err(IoErrorKind::Interrupted),
        }
    }

    /// Records that the stream has ended: the peer sent an end chunk, or a
    /// chunk could not be sent or received. Nothing is emitted. The answer
    /// says whether the client is to be removed from the client table: it
    /// is, unless the stream had ended before.
    pub fn disconnected(&mut self) -> (forget: bool)
        ensures
            final(self).spec_client_id() == old(self).spec_client_id(),
            final(self).spec_service() == old(self).spec_service(),
            final(self).spec_state() == RdpStreamState::Disconnected,
            forget == (old(self).spec_state() != RdpStreamState::Disconnected),
            stream_step(old(self).spec_state(), None, final(self).spec_state()),
    {
        let forget: bool = match self.state {
            RdpStreamState::Disconnected => false,
            _ => true,
        };
        self.state = RdpStreamState::Disconnected;
        forget
    }

    /// Takes note of whether a chunk of this stream was handed to the
    /// transport. A chunk that could not be sent ends the stream: the
    /// answer is then what the end asks of the caller, which is to remove
    /// the client from the client table unless the stream had ended before.
    /// No end chunk is tried on a transport that takes none.
    pub fn sent(&mut self, delivered: bool) -> (r: Result<(), Disconnection>)
        ensures
            final(self).spec_client_id() == old(self).spec_client_id(),
            final(self).spec_service() == old(self).spec_service(),
            delivered ==> r is Ok && final(self).spec_state() == old(self).spec_state(),
            !delivered ==> {
                &&& r is Err
                &&& r->Err_0.end is None
                &&& r->Err_0.forget == (old(self).spec_state() != RdpStreamState::Disconnected)
                &&& final(self).spec_state() == RdpStreamState::Disconnected
            },
            stream_step(old(self).spec_state(), None, final(self).spec_state()),
    {
        if delivered {
            Ok(())
        } else {
            let forget: bool = self.disconnected();
            Err(Disconnection { end: None, forget })
        }
    }

    /// Ends the stream on this side. A connected stream gives the end chunk
    /// for its peer; a stream that had not ended is to be forgotten by the
    /// client table; a stream that had ended asks for nothing.
    pub fn disconnect(&mut self) -> (d: Disconnection)
        ensures
            final(self).spec_client_id() == old(self).spec_client_id(),
            final(self).spec_service() == old(self).spec_service(),
            final(self).spec_state() == RdpStreamState::Disconnected,
            d.forget == (old(self).spec_state() != RdpStreamState::Disconnected),
            d.end is Some == (old(self).spec_state() == RdpStreamState::Connected),
            d.end is Some ==> d.end->Some_0@ == (Frame {
                client_id: old(self).spec_client_id(),
                kind: ID_END,
                payload: Seq::<u8>::empty(),
            }),
            stream_step(old(self).spec_state(), kind_of(d.end), final(self).spec_state()),
    {
        match self.state {
            RdpStreamState::Ready => {
                let _ = self.disconnected();
                Disconnection { end: None, forget: true }
            },
            RdpStreamState::Connected => {
                let end: Chunk = Chunk::end(self.client_id);
                proof {
                    lemma_encode_is_frame(self.client_id, ID_END, Seq::<u8>::empty());
                }
                let _ = self.disconnected();
                Disconnection { end: Some(end), forget: true }
            },
            RdpStreamState::Disconnected => Disconnection { end: None, forget: false },
        }
    }
}

/// What one call of `write` does to a writer that holds `buffered`.
pub struct WriteStep {
    /// How many bytes of the caller's buffer were taken.
    pub count: nat,
    /// The payload of the data chunk that left, if one did.
    pub emitted: Option<Seq<u8>>,
    /// What the writer holds afterwards.
    pub buffered: Seq<u8>,
}

/// Writing `buf` to a writer that holds `buffered`.
///
/// If `buf` fits in the room that is left it is taken whole, and the
/// accumulator leaves as a chunk when that fills it. Otherwise the
/// accumulator is filled and leaves, and of the rest as much is kept as the
/// accumulator holds.
pub open spec fn write_step(buffered: Seq<u8>, buf: Seq<u8>) -> WriteStep
    recommends
        buffered.len() <= MAX_PAYLOAD_LENGTH,
{
    let room = MAX_PAYLOAD_LENGTH - buffered.len();
    if buf.len() <= room {
        if buffered.len() + buf.len() == MAX_PAYLOAD_LENGTH {
            WriteStep {
                count: buf.len(),
                emitted: Some(buffered + buf),
                buffered: Seq::empty(),
            }
        } else {
            WriteStep { count: buf.len(), emitted: None, buffered: buffered + buf }
        }
    } else {
        let kept = if buf.len() - room <= MAX_PAYLOAD_LENGTH {
            buf.len() - room
        } else {
            MAX_PAYLOAD_LENGTH as int
        };
        WriteStep {
            count: (room + kept) as nat,
            emitted: Some(buffered + buf.subrange(0, room)),
            buffered: buf.subrange(room, room + kept),
        }
    }
}

/// What a call of `write` gives back.
#[derive(Debug)]
pub struct Written {
    /// How many bytes were taken.
    pub count: usize,
    /// The data chunk to hand to the transport, if the accumulator filled.
    pub chunk: Option<Chunk>,
}

/// Whether `chunk` is the data chunk of `client_id` with this payload, or
/// there is neither chunk nor payload.
pub open spec fn is_data_chunk(chunk: Option<Chunk>, client_id: ClientId, payload: Option<Seq<u8>>) -> bool {
    match (chunk, payload) {
        (Some(c), Some(p)) => c@ == (Frame { client_id, kind: ID_DATA, payload: p }),
        (None, None) => true,
        _ => false,
    }
}

/// The writing half of a stream: gathers what is written until a payload is
/// full, so that the transport carries few chunks and large ones.
#[derive(Debug)]
pub struct RdpWriter {
    buffer: Vec<u8>,
}

impl RdpWriter {
    #[verifier::type_invariant]
    closed spec fn bounded(&self) -> bool {
        self.buffer@.len() <= MAX_PAYLOAD_LENGTH
    }

    /// The bytes written and not yet sent.
    pub closed spec fn buffered(&self) -> Seq<u8> {
        self.buffer@
    }

    pub fn new() -> (w: RdpWriter)
        ensures
            w.buffered() == Seq::<u8>::empty(),
    {
        RdpWriter { buffer: Vec::with_capacity(MAX_PAYLOAD_LENGTH) }
    }

    /// A writer of its own for the same stream, holding a copy of what this
    /// one has gathered.
    pub fn duplicate(&self) -> (w: RdpWriter)
        ensures
            w.buffered() == self.buffered(),
    {
        proof {
            use_type_invariant(self);
        }
        RdpWriter { buffer: slice_to_vec(self.buffer.as_slice()) }
    }

    /// How many bytes are gathered.
    pub fn buffered_len(&self) -> (n: usize)
        ensures
            n == self.buffered().len(),
            n <= MAX_PAYLOAD_LENGTH,
    {
        proof {
            use_type_invariant(self);
        }
        self.buffer.len()
    }

    /// Takes bytes of `buf` into the accumulator. A stream that is not
    /// connected takes none and fails with `BrokenPipe`.
    pub fn write(&mut self, control: &RdpStreamCommon, buf: &[u8]) -> (r: Result<
        Written,
        IoErrorKind,
    >)
        ensures
            final(self).buffered().len() <= MAX_PAYLOAD_LENGTH,
            !control.is_connected() ==> r == Err::<Written, IoErrorKind>(IoErrorKind::BrokenPipe)
                && final(self).buffered() == old(self).buffered(),
            control.is_connected() ==> r is Ok && ({
                let step = write_step(old(self).buffered(), buf@);
                &&& r->Ok_0.count == step.count
                &&& final(self).buffered() == step.buffered
                &&& is_data_chunk(r->Ok_0.chunk, control.client_id(), step.emitted)
            }),
            stream_step(
                control.state(),
                match r {
                    Ok(w) => kind_of(w.chunk),
                    Err(_) => None,
                },
                control.state(),
            ),
    {
        proof {
            use_type_invariant(&*self);
        }
        if !control.is_connected() {
            return Err(IoErrorKind::BrokenPipe);
        }
        let buf_len: usize = buf.len();
        let remaining_len: usize = MAX_PAYLOAD_LENGTH - self.buffer.len();
        let mut buffer: Vec<u8> = Vec::new();
        core::mem::swap(&mut self.buffer, &mut buffer);
        if buf_len <= remaining_len {
            buffer.extend_from_slice(buf);
            assert(buffer@ =~= old(self).buffered() + buf@);
            if buffer.len() == MAX_PAYLOAD_LENGTH {
                let chunk: Option<Chunk> = data_chunk(control.client_id(), &buffer);
                Ok(Written { count: buf_len, chunk })
            } else {
                self.buffer = buffer;
                Ok(Written { count: buf_len, chunk: None })
            }
        } else {
            buffer.extend_from_slice(slice_subrange(buf, 0, remaining_len));
            assert(buffer@ =~= old(self).buffered() + buf@.subrange(0, remaining_len as int));
            let chunk: Option<Chunk> = data_chunk(control.client_id(), &buffer);
            let rest: usize = buf_len - remaining_len;
            let len: usize = if rest <= MAX_PAYLOAD_LENGTH {
                rest
            } else {
                MAX_PAYLOAD_LENGTH
            };
            self.buffer = slice_to_vec(slice_subrange(buf, remaining_len, remaining_len + len));
            Ok(Written { count: remaining_len + len, chunk })
        }
    }

    /// Hands out what is gathered as one data chunk, and holds nothing
    /// afterwards. Nothing gathered, no chunk. What was gathered for a stream
    /// that is no longer connected is dropped, and the call fails with
    /// `BrokenPipe`.
    pub fn flush(&mut self, control: &RdpStreamCommon) -> (r: Result<Option<Chunk>, IoErrorKind>)
        ensures
            final(self).buffered() == Seq::<u8>::empty(),
            old(self).buffered().len() == 0 ==> r matches Ok(None),
            old(self).buffered().len() > 0 && control.is_connected() ==> r is Ok && is_data_chunk(
                r->Ok_0,
                control.client_id(),
                Some(old(self).buffered()),
            ),
            old(self).buffered().len() > 0 && !control.is_connected() ==> r == Err::<
                Option<Chunk>,
                IoErrorKind,
            >(IoErrorKind::BrokenPipe),
            stream_step(
                control.state(),
                match r {
                    Ok(c) => kind_of(c),
                    Err(_) => None,
                },
                control.state(),
            ),
    {
        proof {
            use_type_invariant(&*self);
        }
        if self.buffer.len() == 0 {
            return Ok(None);
        }
        let mut buffer: Vec<u8> = Vec::new();
        core::mem::swap(&mut self.buffer, &mut buffer);
        if !control.is_connected() {
            return Err(IoErrorKind::BrokenPipe);
        }
        Ok(data_chunk(control.client_id(), &buffer))
    }
}

/// The data chunk that carries a full or flushed accumulator.
fn data_chunk(client_id: ClientId, buffer: &Vec<u8>) -> (chunk: Option<Chunk>)
    requires
        0 < buffer@.len() <= MAX_PAYLOAD_LENGTH,
    ensures
        is_data_chunk(chunk, client_id, Some(buffer@)),
        kind_of(chunk) == Some(ChunkType::Data),
{
    proof {
        lemma_encode_is_frame(client_id, ID_DATA, buffer@);
    }
    match Chunk::data(client_id, buffer.as_slice()) {
        Ok(chunk) => Some(chunk),
        Err(_) => None,
    }
}

/// What a writer has done after a sequence of writes.
pub struct WriterRun {
    /// What the writer holds.
    pub buffered: Seq<u8>,
    /// The payloads of the data chunks that have left, in order.
    pub emitted: Seq<Seq<u8>>,
    /// The bytes that the writes took, in order.
    pub accepted: Seq<u8>,
}

/// The run of a fresh writer of a connected stream over `writes`.
pub open spec fn run_writes(writes: Seq<Seq<u8>>) -> WriterRun
    decreases writes.len(),
{
    if writes.len() == 0 {
        WriterRun { buffered: Seq::empty(), emitted: Seq::empty(), accepted: Seq::empty() }
    } else {
        let before = run_writes(writes.drop_last());
        let step = write_step(before.buffered, writes.last());
        WriterRun {
            buffered: step.buffered,
            emitted: match step.emitted {
                Some(payload) => before.emitted.push(payload),
                None => before.emitted,
            },
            accepted: before.accepted + writes.last().subrange(0, step.count as int),
        }
    }
}

/// The payloads that have left once the run is followed by a flush.
pub open spec fn flushed(run: WriterRun) -> Seq<Seq<u8>> {
    if run.buffered.len() > 0 {
        run.emitted.push(run.buffered)
    } else {
        run.emitted
    }
}

/// Chunking: whatever is written, in whatever pieces, a flush after it leaves
/// the bytes that were taken cut into data chunks of 1593 bytes, the last one
/// possibly shorter and never empty. So `n` bytes leave in `n / 1593` chunks,
/// rounded up.
pub proof fn lemma_writer_chunking(writes: Seq<Seq<u8>>)
    ensures
        run_writes(writes).buffered.len() <= MAX_PAYLOAD_LENGTH,
        forall|i: int|
            0 <= i < run_writes(writes).emitted.len() ==> (#[trigger] run_writes(
                writes,
            ).emitted[i]).len() == MAX_PAYLOAD_LENGTH,
        forall|i: int|
            0 <= i < flushed(run_writes(writes)).len() - 1 ==> (#[trigger] flushed(
                run_writes(writes),
            )[i]).len() == MAX_PAYLOAD_LENGTH,
        flushed(run_writes(writes)).len() > 0 ==> 0 < flushed(run_writes(writes)).last().len()
            <= MAX_PAYLOAD_LENGTH,
        flushed(run_writes(writes)).flatten() == run_writes(writes).accepted,
        run_writes(writes).accepted.len() == MAX_PAYLOAD_LENGTH * run_writes(writes).emitted.len()
            + run_writes(writes).buffered.len(),
        flushed(run_writes(writes)).len() == (run_writes(writes).accepted.len()
            + MAX_PAYLOAD_LENGTH - 1) / (MAX_PAYLOAD_LENGTH as int),
    decreases writes.len(),
{
    broadcast use Seq::lemma_flatten_push;

    let run = run_writes(writes);
    if writes.len() == 0 {
        assert(flushed(run).flatten() =~= run.accepted);
    } else {
        let before = run_writes(writes.drop_last());
        lemma_writer_chunking(writes.drop_last());
        let buf = writes.last();
        let step = write_step(before.buffered, buf);
        let room = MAX_PAYLOAD_LENGTH - before.buffered.len();
        assert(step.count <= buf.len());
        assert(run.accepted.len() == before.accepted.len() + step.count);
        let full = before.emitted.len() as int;
        assert(before.accepted.len() == 1593 * full + before.buffered.len());
        let now = run.emitted.len() as int;
        assert(run.accepted.len() == 1593 * now + run.buffered.len()) by {
            if step.emitted is Some {
                assert(now == full + 1);
                assert(1593 * now == 1593 * full + 1593) by (nonlinear_arith)
                    requires
                        now == full + 1,
                ;
            } else {
                assert(now == full);
            }
        }
        assert(flushed(run).len() == (run.accepted.len() + 1592) / 1593) by {
            let k = run.emitted.len() as int;
            let b = run.buffered.len() as int;
            if b > 0 {
                assert((1593 * k + b + 1592) / 1593 == k + 1) by (nonlinear_arith)
                    requires
                        0 < b <= 1593,
                        k >= 0,
                ;
            } else {
                assert((1593 * k + 1592) / 1593 == k) by (nonlinear_arith)
                    requires
                        k >= 0,
                ;
            }
        }
        assert(before.emitted.flatten() + before.buffered =~= before.accepted) by {
            if before.buffered.len() > 0 {
            } else {
                assert(before.emitted.flatten() + before.buffered =~= before.emitted.flatten());
            }
        }
        assert(run.emitted.flatten() + run.buffered =~= run.accepted) by {
            if buf.len() <= room {
                assert(buf.subrange(0, buf.len() as int) =~= buf);
                if before.buffered.len() + buf.len() == MAX_PAYLOAD_LENGTH {
                    assert(before.emitted.flatten() + (before.buffered + buf) + run.buffered
                        =~= (before.emitted.flatten() + before.buffered) + buf);
                } else {
                    assert(before.emitted.flatten() + (before.buffered + buf) =~= (
                    before.emitted.flatten() + before.buffered) + buf);
                }
            } else {
                assert(0 <= room < step.count <= buf.len());
                assert(before.emitted.flatten() + (before.buffered + buf.subrange(0, room))
                    + buf.subrange(room, step.count as int) =~= (before.emitted.flatten()
                    + before.buffered) + buf.subrange(0, step.count as int));
            }
        }
        assert(flushed(run).flatten() =~= run.accepted) by {
            if run.buffered.len() > 0 {
            } else {
                assert(run.emitted.flatten() + run.buffered =~= run.emitted.flatten());
            }
        }
    }
}

/// Copies `src[from .. from + n]` to the start of `buf`. The rest of `buf` is
/// left as it was.
fn copy_to_front(buf: &mut [u8], src: &[u8], from: usize, n: usize)
    requires
        from + n <= src@.len(),
        n <= old(buf)@.len(),
    ensures
        final(buf)@.len() == old(buf)@.len(),
        final(buf)@ == src@.subrange(from as int, from + n) + old(buf)@.subrange(
            n as int,
            old(buf)@.len() as int,
        ),
{
    let src_len: usize = src.len();
    let mut i: usize = 0;
    while i < n
        invariant
            i <= n,
            from + n <= src@.len(),
            src@.len() == src_len,
            n <= buf@.len(),
            buf@.len() == old(buf)@.len(),
            forall|j: int| 0 <= j < i ==> buf@[j] == src@[from + j],
            forall|j: int| i <= j < buf@.len() ==> buf@[j] == old(buf)@[j],
        decreases n - i,
    {
        buf[i] = src[from + i];
        i = i + 1;
    }
    assert(buf@ =~= src@.subrange(from as int, from + n) + old(buf)@.subrange(
        n as int,
        old(buf)@.len() as int,
    ));
}

/// How many chunks wait for one client at most: the capacity of the queue
/// that leads to its reader.
pub const CLIENT_CHUNK_BUFFER_SIZE: usize = 16;

/// The bytes that a reader will hand out from these chunks: the payloads in
/// order, up to the first end chunk.
pub open spec fn stream_bytes(frames: Seq<Frame>) -> Seq<u8>
    decreases frames.len(),
{
    if frames.len() == 0 || frames[0].kind == ID_END {
        Seq::empty()
    } else {
        frames[0].payload + stream_bytes(frames.drop_first())
    }
}

/// Whether an end chunk is among `frames`.
pub open spec fn has_end(frames: Seq<Frame>) -> bool {
    exists|i: int| 0 <= i < frames.len() && (#[trigger] frames[i]).kind == ID_END
}

/// A chunk that arrives adds its payload behind the bytes that wait, unless
/// an end chunk is already waiting or it is one itself.
pub proof fn lemma_stream_bytes_push(frames: Seq<Frame>, frame: Frame)
    ensures
        has_end(frames) ==> stream_bytes(frames.push(frame)) == stream_bytes(frames),
        !has_end(frames) && frame.kind == ID_END ==> stream_bytes(frames.push(frame))
            == stream_bytes(frames),
        !has_end(frames) && frame.kind != ID_END ==> stream_bytes(frames.push(frame))
            == stream_bytes(frames) + frame.payload,
    decreases frames.len(),
{
    let pushed = frames.push(frame);
    if frames.len() == 0 {
        assert(pushed.drop_first() =~= Seq::<Frame>::empty());
        assert(stream_bytes(pushed.drop_first()) =~= Seq::<u8>::empty());
        assert(frame.payload + Seq::<u8>::empty() =~= frame.payload);
        assert(Seq::<u8>::empty() + frame.payload =~= frame.payload);
    } else if frames[0].kind == ID_END {
        assert(has_end(frames));
    } else {
        let tail = frames.drop_first();
        assert(pushed.drop_first() =~= tail.push(frame));
        lemma_stream_bytes_push(tail, frame);
        if has_end(frames) {
            let i = choose|i: int| 0 <= i < frames.len() && (#[trigger] frames[i]).kind == ID_END;
            assert(tail[i - 1].kind == ID_END);
            assert(has_end(tail));
        } else {
            if has_end(tail) {
                let i = choose|i: int| 0 <= i < tail.len() && (#[trigger] tail[i]).kind == ID_END;
                assert(frames[i + 1].kind == ID_END);
            }
            assert(frames[0].payload + (stream_bytes(tail) + frame.payload) =~= (frames[0].payload
                + stream_bytes(tail)) + frame.payload);
        }
    }
}

/// What one call of `read` does, given what is left of the chunk being read,
/// the chunks that wait, and the size of the caller's buffer.
pub struct ReadStep {
    /// No byte can be handed out before a chunk arrives.
    pub starved: bool,
    /// The end chunk was met: the stream is over.
    pub eof: bool,
    /// The bytes handed out.
    pub bytes: Seq<u8>,
    /// What is left of the chunk being read.
    pub leftover: Seq<u8>,
    /// The chunks that still wait.
    pub waiting: Seq<Frame>,
}

/// Reading into a buffer of `size` bytes.
///
/// What is left of an earlier chunk goes first. Else the oldest waiting chunk
/// is taken: an end chunk ends the stream, any other gives its payload. As
/// much is handed out as the buffer holds; the rest is kept.
pub open spec fn read_step(leftover: Seq<u8>, waiting: Seq<Frame>, size: nat) -> ReadStep {
    if leftover.len() > 0 {
        let n = if leftover.len() <= size {
            leftover.len()
        } else {
            size
        };
        ReadStep {
            starved: false,
            eof: false,
            bytes: leftover.subrange(0, n as int),
            leftover: leftover.subrange(n as int, leftover.len() as int),
            waiting,
        }
    } else if waiting.len() == 0 {
        ReadStep { starved: true, eof: false, bytes: Seq::empty(), leftover, waiting }
    } else if waiting[0].kind == ID_END {
        ReadStep {
            starved: false,
            eof: true,
            bytes: Seq::empty(),
            leftover,
            waiting: waiting.drop_first(),
        }
    } else {
        let payload = waiting[0].payload;
        let n = if payload.len() <= size {
            payload.len()
        } else {
            size
        };
        ReadStep {
            starved: false,
            eof: false,
            bytes: payload.subrange(0, n as int),
            leftover: payload.subrange(n as int, payload.len() as int),
            waiting: waiting.drop_first(),
        }
    }
}

/// Order: what a read hands out is the start of the bytes that wait, and the
/// rest still waits, in the same order. At the end chunk no byte waits.
pub proof fn lemma_read_in_order(leftover: Seq<u8>, waiting: Seq<Frame>, size: nat)
    ensures
        ({
            let step = read_step(leftover, waiting, size);
            &&& !step.eof ==> leftover + stream_bytes(waiting) == step.bytes + (step.leftover
                + stream_bytes(step.waiting))
            &&& step.eof ==> leftover + stream_bytes(waiting) == Seq::<u8>::empty() && step.bytes
                == Seq::<u8>::empty()
            &&& step.bytes.len() <= size
        }),
{
    let step = read_step(leftover, waiting, size);
    if leftover.len() > 0 {
        assert(leftover + stream_bytes(waiting) =~= step.bytes + (step.leftover + stream_bytes(
            step.waiting,
        )));
    } else if waiting.len() == 0 {
        assert(leftover + stream_bytes(waiting) =~= step.bytes + (step.leftover + stream_bytes(
            step.waiting,
        )));
    } else if waiting[0].kind == ID_END {
        assert(leftover + stream_bytes(waiting) =~= Seq::<u8>::empty());
    } else {
        assert(leftover + stream_bytes(waiting) =~= step.bytes + (step.leftover + stream_bytes(
            step.waiting,
        )));
    }
}

/// What a reader has done after a sequence of reads.
pub struct ReaderRun {
    /// The bytes handed out, in order.
    pub bytes: Seq<u8>,
    /// Whether the end chunk was met.
    pub ended: bool,
    /// What is left of the chunk being read.
    pub leftover: Seq<u8>,
    /// The chunks that still wait.
    pub waiting: Seq<Frame>,
}

/// The run of the reader of a connected stream over reads into buffers of
/// these sizes, where `waiting` are the chunks that its queue hands out,
/// in order. The read that meets the end chunk disconnects the stream: the
/// reads after it hand out nothing and change nothing.
pub open spec fn run_reads(leftover: Seq<u8>, waiting: Seq<Frame>, sizes: Seq<nat>) -> ReaderRun
    decreases sizes.len(),
{
    if sizes.len() == 0 {
        ReaderRun { bytes: Seq::empty(), ended: false, leftover, waiting }
    } else {
        let before = run_reads(leftover, waiting, sizes.drop_last());
        if before.ended {
            before
        } else {
            let step = read_step(before.leftover, before.waiting, sizes.last());
            ReaderRun {
                bytes: before.bytes + step.bytes,
                ended: step.eof,
                leftover: step.leftover,
                waiting: step.waiting,
            }
        }
    }
}

/// Stream ordering: whatever the sizes of the reads, the bytes handed out
/// are the payloads of the chunks that waited, in order, as far as the reads
/// got. The end of the stream is told only when every byte before the end
/// chunk has been handed out, and from then on nothing more is handed out.
pub proof fn lemma_reads_in_order(leftover: Seq<u8>, waiting: Seq<Frame>, sizes: Seq<nat>)
    ensures
        ({
            let run = run_reads(leftover, waiting, sizes);
            &&& !run.ended ==> leftover + stream_bytes(waiting) == run.bytes + (run.leftover
                + stream_bytes(run.waiting))
            &&& run.ended ==> run.bytes == leftover + stream_bytes(waiting)
        }),
    decreases sizes.len(),
{
    if sizes.len() > 0 {
        let before = run_reads(leftover, waiting, sizes.drop_last());
        lemma_reads_in_order(leftover, waiting, sizes.drop_last());
        if !before.ended {
            let step = read_step(before.leftover, before.waiting, sizes.last());
            lemma_read_in_order(before.leftover, before.waiting, sizes.last());
            let all = leftover + stream_bytes(waiting);
            let run = run_reads(leftover, waiting, sizes);
            if step.eof {
                assert(run.bytes =~= before.bytes);
                assert(all =~= before.bytes + (before.leftover + stream_bytes(before.waiting)));
                assert(before.bytes + Seq::<u8>::empty() =~= before.bytes);
            } else {
                assert(all =~= (before.bytes + step.bytes) + (step.leftover + stream_bytes(
                    step.waiting,
                ))) by {
                    assert(before.bytes + (step.bytes + (step.leftover + stream_bytes(
                        step.waiting,
                    ))) =~= (before.bytes + step.bytes) + (step.leftover + stream_bytes(
                        step.waiting,
                    )));
                }
            }
        }
    } else {
        assert(Seq::<u8>::empty() + (leftover + stream_bytes(waiting)) =~= leftover
            + stream_bytes(waiting));
    }
}

/// What a read gave.
#[derive(Clone, Copy, Debug, PartialEq, Eq, Structural)]
pub struct Taken {
    /// How many bytes were handed out. None means that the stream is over,
    /// unless the buffer had no room or the chunk no payload.
    pub count: usize,
    /// Whether the client is to be removed from the client table: so it is
    /// when the end chunk was met.
    pub forget: bool,
}

/// The chunk, if there is one, as the chunks that wait.
pub open spec fn frames_of(chunk: Option<Chunk>) -> Seq<Frame> {
    match chunk {
        Some(c) => seq![c@],
        None => Seq::empty(),
    }
}

/// Whether a read of a connected stream that found `step` gave `taken` and
/// left the buffer, what is left of the chunk and the state as they are
/// here.
pub open spec fn is_taken(
    step: ReadStep,
    taken: Taken,
    buf_before: Seq<u8>,
    buf: Seq<u8>,
    leftover: Seq<u8>,
    state: RdpStreamState,
) -> bool {
    &&& taken.count == step.bytes.len()
    &&& taken.forget == step.eof
    &&& buf == step.bytes + buf_before.subrange(step.bytes.len() as int, buf_before.len() as int)
    &&& leftover == step.leftover
    &&& state == if step.eof {
        RdpStreamState::Disconnected
    } else {
        RdpStreamState::Connected
    }
}

/// Whether a read of a connected stream with nothing left of the chunk
/// before gave `taken` and left the buffer, what is left and the state as
/// they are here, for some chunk that the queue handed out.
pub open spec fn is_taken_fresh(
    taken: Taken,
    buf_before: Seq<u8>,
    buf: Seq<u8>,
    leftover: Seq<u8>,
    state: RdpStreamState,
) -> bool {
    exists|frame: Frame| #[trigger]
        is_taken(
            read_step(Seq::empty(), seq![frame], buf_before.len()),
            taken,
            buf_before,
            buf,
            leftover,
            state,
        )
}

/// The reading half of a stream: takes the chunks of its client from the
/// queue that leads to it, and hands their payloads out as bytes, in order,
/// in pieces as large as the caller's buffer.
#[derive(Debug)]
pub struct RdpReader {
    last: Option<(Chunk, usize)>,
    from_rdp: crossbeam_channel::Receiver<Chunk>,
}

impl RdpReader {
    #[verifier::type_invariant]
    closed spec fn inside(&self) -> bool {
        match self.last {
            Some((chunk, offset)) => offset < chunk@.payload.len(),
            None => true,
        }
    }

    /// What is left of the chunk being read.
    pub closed spec fn leftover(&self) -> Seq<u8> {
        match self.last {
            Some((chunk, offset)) => chunk@.payload.subrange(
                offset as int,
                chunk@.payload.len() as int,
            ),
            None => Seq::empty(),
        }
    }

    /// The receiving end of the queue that leads to this reader.
    pub closed spec fn queue(&self) -> crossbeam_channel::Receiver<Chunk> {
        self.from_rdp
    }

    /// A reader at the receiving end `from_rdp`, with nothing read.
    pub fn new(from_rdp: crossbeam_channel::Receiver<Chunk>) -> (r: RdpReader)
        ensures
            r.leftover() == Seq::<u8>::empty(),
            r.queue() == from_rdp,
    {
        RdpReader { last: None, from_rdp }
    }

    /// Waits for the next chunk of the queue and takes it out. Gives none
    /// if the dispatcher has let go of the queue and nothing is left in it.
    /// Which chunk comes, and when, is up to those who fill the queue.
    pub fn take(&self) -> (chunk: Option<Chunk>) {
        recv(&self.from_rdp)
    }

    /// Whether a read has to take a chunk from the queue first: so it is
    /// when the stream is connected and nothing is left of the chunk before.
    pub fn wants_chunk(&self, control: &RdpStreamCommon) -> (wanted: bool)
        ensures
            wanted == (control.spec_is_connected() && self.leftover().len() == 0),
    {
        proof {
            use_type_invariant(self);
        }
        control.is_connected() && self.last.is_none()
    }

    /// Hands out the next bytes of the stream at the start of `buf`, given
    /// the chunk that the queue handed out, if one was taken from it; the
    /// rest of `buf` is left as it was.
    ///
    /// A stream that is not connected is over: the read gives no byte, and
    /// changes nothing. On a connected stream, what is left of the chunk
    /// before goes first; else `incoming` is taken: an end chunk ends the
    /// stream, any other gives its payload. No answer means that there was
    /// neither: a chunk is to be taken from the queue. A chunk that was not
    /// needed comes back.
    pub fn read_from(
        &mut self,
        control: &mut RdpStreamCommon,
        incoming: Option<Chunk>,
        buf: &mut [u8],
    ) -> (r: (Option<Taken>, Option<Chunk>))
        ensures
            final(control).spec_client_id() == old(control).spec_client_id(),
            final(control).spec_service() == old(control).spec_service(),
            final(self).queue() == old(self).queue(),
            final(buf)@.len() == old(buf)@.len(),
            !old(control).spec_is_connected() ==> {
                &&& r.0 == Some(Taken { count: 0, forget: false })
                &&& r.1 == incoming
                &&& final(self).leftover() == old(self).leftover()
                &&& final(buf)@ == old(buf)@
                &&& final(control).spec_state() == old(control).spec_state()
            },
            old(control).spec_is_connected() ==> ({
                let step = read_step(old(self).leftover(), frames_of(incoming), old(buf)@.len());
                &&& step.starved <==> r.0 is None
                &&& step.starved ==> final(buf)@ == old(buf)@ && final(self).leftover() == old(
                    self,
                ).leftover() && final(control).spec_state() == RdpStreamState::Connected
                &&& !step.starved ==> is_taken(
                    step,
                    r.0->Some_0,
                    old(buf)@,
                    final(buf)@,
                    final(self).leftover(),
                    final(control).spec_state(),
                )
                &&& frames_of(r.1) == step.waiting
                &&& r.1 is Some ==> r.1 == incoming
            }),
            stream_step(old(control).spec_state(), None, final(control).spec_state()),
    {
        proof {
            use_type_invariant(&*self);
        }
        if !control.is_connected() {
            return (Some(Taken { count: 0, forget: false }), incoming);
        }
        let mut last: Option<(Chunk, usize)> = None;
        core::mem::swap(&mut self.last, &mut last);
        match last {
            Some((chunk, offset)) => {
                let count: usize = self.hand_out(chunk, offset, buf);
                (Some(Taken { count, forget: false }), incoming)
            },
            None => match incoming {
                None => {
                    assert(buf@ =~= Seq::<u8>::empty() + old(buf)@.subrange(
                        0,
                        old(buf)@.len() as int,
                    ));
                    (None, None)
                },
                Some(chunk) => {
                    assert(frames_of(incoming).drop_first() =~= Seq::<Frame>::empty());
                    if chunk.is_end() {
                        let _ = control.disconnected();
                        assert(buf@ =~= Seq::<u8>::empty() + old(buf)@.subrange(
                            0,
                            old(buf)@.len() as int,
                        ));
                        (Some(Taken { count: 0, forget: true }), None)
                    } else {
                        let ghost payload = chunk@.payload;
                        assert(payload.subrange(0, payload.len() as int) =~= payload);
                        let count: usize = self.hand_out(chunk, 0, buf);
                        (Some(Taken { count, forget: false }), None)
                    }
                },
            },
        }
    }

    /// Copies what `buf` holds of the payload of `chunk` from `offset` on,
    /// and keeps the chunk if more is left.
    fn hand_out(&mut self, chunk: Chunk, offset: usize, buf: &mut [u8]) -> (count: usize)
        requires
            old(self).last is None,
            offset <= chunk@.payload.len(),
        ensures
            final(self).from_rdp == old(self).from_rdp,
            final(buf)@.len() == old(buf)@.len(),
            ({
                let rest = chunk@.payload.subrange(offset as int, chunk@.payload.len() as int);
                let n = if rest.len() <= old(buf)@.len() {
                    rest.len()
                } else {
                    old(buf)@.len()
                };
                &&& count == n
                &&& final(buf)@ == rest.subrange(0, n as int) + old(buf)@.subrange(
                    n as int,
                    old(buf)@.len() as int,
                )
                &&& final(self).leftover() == rest.subrange(n as int, rest.len() as int)
            }),
    {
        let buf_len: usize = buf.len();
        let payload: &[u8] = chunk.payload();
        let payload_len: usize = payload.len();
        let last_len: usize = payload_len - offset;
        if last_len <= buf_len {
            copy_to_front(buf, payload, offset, last_len);
            assert(payload@.subrange(offset as int, payload_len as int).subrange(
                0,
                last_len as int,
            ) =~= payload@.subrange(offset as int, offset + last_len));
            assert(payload@.subrange(offset as int, payload_len as int).subrange(
                last_len as int,
                last_len as int,
            ) =~= Seq::<u8>::empty());
            return last_len;
        }
        copy_to_front(buf, payload, offset, buf_len);
        assert(payload@.subrange(offset as int, payload_len as int).subrange(0, buf_len as int)
            =~= payload@.subrange(offset as int, offset + buf_len));
        assert(payload@.subrange(offset as int, payload_len as int).subrange(
            buf_len as int,
            last_len as int,
        ) =~= payload@.subrange(offset + buf_len, payload_len as int));
        self.last = Some((chunk, offset + buf_len));
        buf_len
    }

    /// Hands out the next bytes of the stream at the start of `buf`, and
    /// says how many; the rest of `buf` is left as it was.
    ///
    /// A stream that is not connected is over: the read gives no byte and
    /// changes nothing, however often it is asked. What is left of the
    /// chunk before is handed out first. Else the read waits for the next
    /// chunk of its queue, and goes by it as `read_from` says; which chunk
    /// comes is up to the queue. If the queue gives none because the
    /// dispatcher has let go of it, the stream is over and the read fails:
    /// the error says what its end asks of the caller.
    pub fn read(&mut self, control: &mut RdpStreamCommon, buf: &mut [u8]) -> (r: Result<
        Taken,
        Disconnection,
    >)
        ensures
            final(control).spec_client_id() == old(control).spec_client_id(),
            final(control).spec_service() == old(control).spec_service(),
            final(self).queue() == old(self).queue(),
            final(buf)@.len() == old(buf)@.len(),
            !old(control).spec_is_connected() ==> {
                &&& r == Ok::<Taken, Disconnection>(Taken { count: 0, forget: false })
                &&& final(self).leftover() == old(self).leftover()
                &&& final(buf)@ == old(buf)@
                &&& final(control).spec_state() == old(control).spec_state()
            },
            old(control).spec_is_connected() && old(self).leftover().len() > 0 ==> r is Ok
                && is_taken(
                read_step(old(self).leftover(), Seq::empty(), old(buf)@.len()),
                r->Ok_0,
                old(buf)@,
                final(buf)@,
                final(self).leftover(),
                final(control).spec_state(),
            ),
            old(control).spec_is_connected() && old(self).leftover().len() == 0 && r is Ok
                ==> is_taken_fresh(
                r->Ok_0,
                old(buf)@,
                final(buf)@,
                final(self).leftover(),
                final(control).spec_state(),
            ),
            r is Err ==> {
                &&& old(control).spec_is_connected() && old(self).leftover().len() == 0
                &&& r->Err_0.end is None
                &&& r->Err_0.forget
                &&& final(buf)@ == old(buf)@
                &&& final(self).leftover() == old(self).leftover()
                &&& final(control).spec_state() == RdpStreamState::Disconnected
            },
            stream_step(old(control).spec_state(), None, final(control).spec_state()),
    {
        let incoming: Option<Chunk> = if self.wants_chunk(control) {
            match self.take() {
                Some(chunk) => Some(chunk),
                None => {
                    let forget: bool = control.disconnected();
                    return Err(Disconnection { end: None, forget });
                },
            }
        } else {
            None
        };
        let ghost given = incoming;
        let ghost step = read_step(self.leftover(), frames_of(incoming), buf@.len());
        proof {
            match given {
                Some(chunk) => {
                    assert(frames_of(given) =~= seq![chunk@]);
                    assert(self.leftover() =~= Seq::<u8>::empty());
                    assert(step == read_step(Seq::empty(), seq![chunk@], buf@.len()));
                    assert(!step.starved);
                },
                None => {
                    assert(frames_of(given) =~= Seq::<Frame>::empty());
                },
            }
        }
        let (taken, _): (Option<Taken>, Option<Chunk>) = self.read_from(control, incoming, buf);
        match taken {
            Some(taken) => {
                proof {
                    match given {
                        Some(chunk) => {
                            let witness = chunk@;
                            assert(is_taken(
                                read_step(Seq::empty(), seq![witness], old(buf)@.len()),
                                taken,
                                old(buf)@,
                                buf@,
                                self.leftover(),
                                control.spec_state(),
                            ));
                            assert(is_taken_fresh(
                                taken,
                                old(buf)@,
                                buf@,
                                self.leftover(),
                                control.spec_state(),
                            ));
                        },
                        None => {
                            assert(!(old(control).spec_is_connected() && old(self).leftover().len()
                                == 0));
                        },
                    }
                }
                Ok(taken)
            },
            // with a chunk, or with bytes left, `read_from` is not starved
            None => unreached(),
        }
    }
}

/// What the end of a stream asks of the caller, in this order.
#[derive(Debug)]
pub struct Closing {
    /// The data chunk with what the writer had gathered.
    pub data: Option<Chunk>,
    /// The end chunk for the peer, best effort.
    pub end: Option<Chunk>,
    /// Whether the client is to be removed from the client table.
    pub forget: bool,
}

/// One logical stream: its control block and its two halves.
#[derive(Debug)]
pub struct RdpStream {
    pub control: RdpStreamCommon,
    pub reader: RdpReader,
    pub writer: RdpWriter,
}

impl RdpStream {
    /// A stream of `client_id` for `service`, ready to connect or accept,
    /// with nothing read and nothing written, that reads what the queue
    /// with the receiving end `from_rdp` brings.
    pub fn new(
        service: Service,
        client_id: ClientId,
        from_rdp: crossbeam_channel::Receiver<Chunk>,
    ) -> (stream: RdpStream)
        ensures
            stream.control.spec_client_id() == client_id,
            stream.control.spec_service() == service,
            stream.control.spec_state() == RdpStreamState::Ready,
            stream.reader.leftover() == Seq::<u8>::empty(),
            stream.reader.queue() == from_rdp,
            stream.writer.buffered() == Seq::<u8>::empty(),
    {
        RdpStream {
            control: RdpStreamCommon::new(service, client_id),
            reader: RdpReader::new(from_rdp),
            writer: RdpWriter::new(),
        }
    }

    pub fn client_id(&self) -> (id: ClientId)
        ensures
            id == self.control.spec_client_id(),
    {
        self.control.client_id()
    }

    /// Flushes the writer and ends the stream on this side. If the flush
    /// fails nothing else is done.
    pub fn disconnect(&mut self) -> (r: Result<Closing, IoErrorKind>)
        ensures
            final(self).control.spec_client_id() == old(self).control.spec_client_id(),
            final(self).control.spec_service() == old(self).control.spec_service(),
            final(self).reader == old(self).reader,
            final(self).writer.buffered() == Seq::<u8>::empty(),
            old(self).writer.buffered().len() > 0 && !old(self).control.spec_is_connected() ==> {
                &&& r == Err::<Closing, IoErrorKind>(IoErrorKind::BrokenPipe)
                &&& final(self).control.spec_state() == old(self).control.spec_state()
            },
            old(self).writer.buffered().len() == 0 || old(self).control.spec_is_connected() ==> {
                &&& r is Ok
                &&& final(self).control.spec_state() == RdpStreamState::Disconnected
                &&& is_data_chunk(
                    r->Ok_0.data,
                    old(self).control.spec_client_id(),
                    if old(self).writer.buffered().len() > 0 {
                        Some(old(self).writer.buffered())
                    } else {
                        None
                    },
                )
                &&& r->Ok_0.end is Some == old(self).control.spec_is_connected()
                &&& r->Ok_0.end is Some ==> r->Ok_0.end->Some_0@ == (Frame {
                    client_id: old(self).control.spec_client_id(),
                    kind: ID_END,
                    payload: Seq::<u8>::empty(),
                })
                &&& r->Ok_0.forget == (old(self).control.spec_state()
                    != RdpStreamState::Disconnected)
                &&& is_stream_run(
                    seq![
                        old(self).control.spec_state(),
                        old(self).control.spec_state(),
                        final(self).control.spec_state(),
                    ],
                    seq![kind_of(r->Ok_0.data), kind_of(r->Ok_0.end)],
                )
            },
    {
        match self.writer.flush(&self.control) {
            Err(e) => Err(e),
            Ok(data) => {
                let d: Disconnection = self.control.disconnect();
                Ok(Closing { data, end: d.end, forget: d.forget })
            },
        }
    }

    /// Ends the stream as far as it can be ended, as when it is dropped:
    /// what the writer had gathered leaves if the stream is connected, then
    /// the end chunk.
    pub fn close(&mut self) -> (c: Closing)
        ensures
            final(self).control.spec_client_id() == old(self).control.spec_client_id(),
            final(self).control.spec_service() == old(self).control.spec_service(),
            final(self).control.spec_state() == RdpStreamState::Disconnected,
            final(self).reader == old(self).reader,
            final(self).writer.buffered() == Seq::<u8>::empty(),
            is_data_chunk(
                c.data,
                old(self).control.spec_client_id(),
                if old(self).writer.buffered().len() > 0 && old(self).control.spec_is_connected() {
                    Some(old(self).writer.buffered())
                } else {
                    None
                },
            ),
            c.end is Some == old(self).control.spec_is_connected(),
            c.end is Some ==> c.end->Some_0@ == (Frame {
                client_id: old(self).control.spec_client_id(),
                kind: ID_END,
                payload: Seq::<u8>::empty(),
            }),
            c.forget == (old(self).control.spec_state() != RdpStreamState::Disconnected),
            is_stream_run(
                seq![
                    old(self).control.spec_state(),
                    old(self).control.spec_state(),
                    final(self).control.spec_state(),
                ],
                seq![kind_of(c.data), kind_of(c.end)],
            ),
    {
        let data: Option<Chunk> = match self.writer.flush(&self.control) {
            Ok(data) => data,
            Err(_) => None,
        };
        let d: Disconnection = self.control.disconnect();
        Closing { data, end: d.end, forget: d.forget }
    }

    /// The control block, the reader and the writer, each to be used on its
    /// own.
    pub fn split(self) -> (parts: (RdpStreamCommon, RdpReader, RdpWriter))
        ensures
            parts.0 == self.control,
            parts.1 == self.reader,
            parts.2 == self.writer,
    {
        (self.control, self.reader, self.writer)
    }
}

} // verus!
