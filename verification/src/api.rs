//! The chunk: the frame that travels on the virtual channel.
//!
//! A chunk is at most 1600 bytes long. It starts with a header of seven
//! bytes, little-endian: the client identifier (4 bytes), the kind (1 byte:
//! 0 start, 1 data, 2 end) and the payload length (2 bytes, at most 1593).
//! The payload follows.

use crate::input::{InputAction, InputSetting};
use crate::service::Service;
use crate::wire::{
    from_le16, from_le32, le16, le32, lemma_from_le16_roundtrip, lemma_from_le32_roundtrip,
    lemma_le16_roundtrip, lemma_le32_roundtrip, u16_from_le, u16_to_le, u32_from_le, u32_to_le,
};
use vstd::prelude::*;
use vstd::slice::*;

verus! {

/// Largest serialized chunk.
pub const CHUNK_LENGTH: usize = 1600;

/// Bytes of header in front of the payload.
pub const SERIALIZE_OVERHEAD: usize = 4 + 1 + 2;

/// Largest payload of one chunk.
pub const MAX_PAYLOAD_LENGTH: usize = CHUNK_LENGTH - SERIALIZE_OVERHEAD;

pub const ID_START: u8 = 0x00;

pub const ID_DATA: u8 = 0x01;

pub const ID_END: u8 = 0x02;

/// Identifies one logical stream on the channel.
pub type ClientId = u32;

/// What went wrong below a stream: the kinds of I/O failure that this library
/// reports or is told of.
#[derive(Clone, Copy, Debug, PartialEq, Eq, Structural)]
pub enum IoErrorKind {
    AddrNotAvailable,
    AlreadyExists,
    BrokenPipe,
    ConnectionAborted,
    ConnectionRefused,
    Interrupted,
    InvalidData,
    InvalidInput,
    TimedOut,
    UnexpectedEof,
    Other,
}

/// What can go wrong between the transport and a stream.
#[derive(Clone, Copy, Debug, PartialEq, Eq, Structural)]
pub enum Error {
    Io(IoErrorKind),
    /// The kind byte of a chunk is none of start, data, end.
    InvalidChunkType(Option<u8>),
    /// A frame of this many bytes cannot be a chunk.
    InvalidChunkSize(usize),
    PipelineBroken,
}

/// The three kinds of chunk: one opens a stream, many carry its bytes, one
/// closes it.
#[derive(Clone, Copy, Debug, PartialEq, Eq, Structural)]
pub enum ChunkType {
    Start,
    Data,
    End,
}

impl ChunkType {
    /// The kind byte that stands for this type on the wire.
    pub open spec fn id(self) -> u8 {
        match self {
            ChunkType::Start => ID_START,
            ChunkType::Data => ID_DATA,
            ChunkType::End => ID_END,
        }
    }

    pub fn serialized(self) -> (id: u8)
        ensures
            id == self.id(),
    {
        match self {
            ChunkType::Start => ID_START,
            ChunkType::Data => ID_DATA,
            ChunkType::End => ID_END,
        }
    }
}

/// A chunk as a mathematical value: what its header says and what it carries.
pub struct Frame {
    pub client_id: ClientId,
    pub kind: u8,
    pub payload: Seq<u8>,
}

/// The bytes of the chunk with this header and payload.
pub open spec fn encode(client_id: ClientId, kind: u8, payload: Seq<u8>) -> Seq<u8> {
    le32(client_id) + seq![kind] + le16(payload.len() as u16) + payload
}

/// The payload length that the header of `buf` declares.
pub open spec fn declared_payload_len(buf: Seq<u8>) -> nat
    recommends
        buf.len() >= SERIALIZE_OVERHEAD,
{
    from_le16(buf[5], buf[6]) as nat
}

/// The length of the first frame in `buf`, once all of it is there.
pub open spec fn frame_len(buf: Seq<u8>) -> Option<nat> {
    if buf.len() < SERIALIZE_OVERHEAD {
        None
    } else if buf.len() < SERIALIZE_OVERHEAD + declared_payload_len(buf) {
        None
    } else {
        Some((SERIALIZE_OVERHEAD + declared_payload_len(buf)) as nat)
    }
}

/// Whether `buf` is exactly one frame of acceptable size: header and declared
/// payload, no more than 1600 bytes. The kind byte is not looked at.
pub open spec fn is_frame(buf: Seq<u8>) -> bool {
    &&& SERIALIZE_OVERHEAD <= buf.len() <= CHUNK_LENGTH
    &&& buf.len() == SERIALIZE_OVERHEAD + declared_payload_len(buf)
}

/// Whether `buf` is exactly one chunk: a frame of acceptable size whose kind
/// byte is that of a start, data or end chunk.
pub open spec fn is_chunk(buf: Seq<u8>) -> bool {
    is_frame(buf) && buf[4] <= ID_END
}

/// Why a complete frame that is no chunk is none: its size, or else its
/// kind byte.
pub open spec fn decode_error(frame: Seq<u8>) -> Error {
    if !is_frame(frame) {
        Error::InvalidChunkSize(frame.len() as usize)
    } else {
        Error::InvalidChunkType(Some(frame[4]))
    }
}

/// The header fields and payload of a frame.
pub open spec fn frame_of(buf: Seq<u8>) -> Frame
    recommends
        is_frame(buf),
{
    Frame {
        client_id: from_le32(buf[0], buf[1], buf[2], buf[3]),
        kind: buf[4],
        payload: buf.subrange(SERIALIZE_OVERHEAD as int, buf.len() as int),
    }
}

/// What `try_decode` finds at the start of a buffer.
pub enum Decoding {
    /// The first frame is not yet complete.
    NeedMore,
    /// A chunk, and the number of bytes it took.
    Complete(nat, Frame),
    /// A complete frame of this length whose declared payload is too long.
    BadSize(nat),
    /// A complete frame with this unknown kind byte.
    BadKind(u8),
}

/// Decoding of the first frame in `buf`.
pub open spec fn decode(buf: Seq<u8>) -> Decoding {
    match frame_len(buf) {
        None => Decoding::NeedMore,
        Some(len) => {
            let frame = buf.subrange(0, len as int);
            if len > CHUNK_LENGTH {
                Decoding::BadSize(len)
            } else if frame[4] != ID_START && frame[4] != ID_DATA && frame[4] != ID_END {
                Decoding::BadKind(frame[4])
            } else {
                Decoding::Complete(len, frame_of(frame))
            }
        },
    }
}

/// One chunk, held in its serialized form.
#[derive(Debug)]
pub struct Chunk {
    content: Vec<u8>,
}

impl View for Chunk {
    type V = Frame;

    open spec fn view(&self) -> Frame {
        frame_of(self.bytes())
    }
}

impl Chunk {
    #[verifier::type_invariant]
    closed spec fn well_formed(&self) -> bool {
        is_chunk(self.content@)
    }

    /// The serialized form.
    pub closed spec fn bytes(&self) -> Seq<u8> {
        self.content@
    }

    /// The chunk of this type for this client, with `data` as its payload or
    /// with none. Fails if `data` does not fit in one payload.
    pub fn new(chunk_type: ChunkType, client_id: ClientId, data: Option<&[u8]>) -> (r: Result<
        Chunk,
        Error,
    >)
        ensures
            match data {
                Some(d) if d@.len() > MAX_PAYLOAD_LENGTH => r == Err::<Chunk, Error>(
                    Error::Io(IoErrorKind::InvalidData),
                ),
                Some(d) => r is Ok && r->Ok_0.bytes() == encode(client_id, chunk_type.id(), d@),
                None => r is Ok && r->Ok_0.bytes() == encode(
                    client_id,
                    chunk_type.id(),
                    Seq::<u8>::empty(),
                ),
            },
    {
        let mut content: Vec<u8> = Vec::with_capacity(CHUNK_LENGTH);
        let id: [u8; 4] = u32_to_le(client_id);
        content.extend_from_slice(id.as_slice());
        content.push(chunk_type.serialized());
        match data {
            Some(data) => {
                let payload_len: usize = data.len();
                if payload_len > MAX_PAYLOAD_LENGTH {
                    return Err(Error::Io(IoErrorKind::InvalidData));
                }
                let len: [u8; 2] = u16_to_le(payload_len as u16);
                content.extend_from_slice(len.as_slice());
                content.extend_from_slice(data);
                proof {
                    lemma_encode_is_frame(client_id, chunk_type.id(), data@);
                    assert(content@ =~= encode(client_id, chunk_type.id(), data@));
                }
            },
            None => {
                let len: [u8; 2] = u16_to_le(0);
                content.extend_from_slice(len.as_slice());
                proof {
                    lemma_encode_is_frame(client_id, chunk_type.id(), Seq::<u8>::empty());
                    assert(content@ =~= encode(client_id, chunk_type.id(), Seq::<u8>::empty()));
                }
            },
        }
        Ok(Chunk { content })
    }

    /// The chunk that opens a stream towards `service`. Fails if the name of
    /// the service does not fit in one payload.
    pub fn start(client_id: ClientId, service: &Service) -> (r: Result<Chunk, Error>)
        ensures
            service.name_bytes().len() <= MAX_PAYLOAD_LENGTH ==> r is Ok && r->Ok_0.bytes()
                == encode(client_id, ID_START, service.name_bytes()),
            service.name_bytes().len() > MAX_PAYLOAD_LENGTH ==> r == Err::<Chunk, Error>(
                Error::Io(IoErrorKind::InvalidData),
            ),
    {
        Chunk::new(ChunkType::Start, client_id, Some(service.name().as_bytes()))
    }

    /// The chunk that carries `data`. Fails if `data` does not fit in one
    /// payload.
    pub fn data(client_id: ClientId, data: &[u8]) -> (r: Result<Chunk, Error>)
        ensures
            data@.len() <= MAX_PAYLOAD_LENGTH ==> r is Ok && r->Ok_0.bytes() == encode(
                client_id,
                ID_DATA,
                data@,
            ),
            data@.len() > MAX_PAYLOAD_LENGTH ==> r == Err::<Chunk, Error>(
                Error::Io(IoErrorKind::InvalidData),
            ),
    {
        Chunk::new(ChunkType::Data, client_id, Some(data))
    }

    /// The chunk that closes a stream.
    pub fn end(client_id: ClientId) -> (c: Chunk)
        ensures
            c.bytes() == encode(client_id, ID_END, Seq::<u8>::empty()),
    {
        let mut content: Vec<u8> = Vec::with_capacity(SERIALIZE_OVERHEAD);
        let id: [u8; 4] = u32_to_le(client_id);
        content.extend_from_slice(id.as_slice());
        content.push(ID_END);
        let len: [u8; 2] = u16_to_le(0);
        content.extend_from_slice(len.as_slice());
        proof {
            lemma_encode_is_frame(client_id, ID_END, Seq::<u8>::empty());
            assert(content@ =~= encode(client_id, ID_END, Seq::<u8>::empty()));
        }
        Chunk { content }
    }

    pub fn client_id(&self) -> (id: ClientId)
        ensures
            id == self@.client_id,
    {
        proof {
            use_type_invariant(self);
        }
        u32_from_le(self.content[0], self.content[1], self.content[2], self.content[3])
    }

    /// The type that the kind byte stands for. Every chunk has one.
    pub fn chunk_type(&self) -> (r: Result<ChunkType, Error>)
        ensures
            r == chunk_type_of(self@.kind),
            r is Ok,
    {
        proof {
            use_type_invariant(self);
        }
        let kind: u8 = self.content[4];
        if kind == ID_START {
            Ok(ChunkType::Start)
        } else if kind == ID_DATA {
            Ok(ChunkType::Data)
        } else if kind == ID_END {
            Ok(ChunkType::End)
        } else {
            Err(Error::InvalidChunkType(Some(kind)))
        }
    }

    /// Whether this is an end chunk.
    pub fn is_end(&self) -> (end: bool)
        ensures
            end == (self@.kind == ID_END),
    {
        proof {
            use_type_invariant(self);
        }
        self.content[4] == ID_END
    }

    pub fn payload_len(&self) -> (len: u16)
        ensures
            len == self@.payload.len(),
            len <= MAX_PAYLOAD_LENGTH,
    {
        proof {
            use_type_invariant(self);
        }
        u16_from_le(self.content[5], self.content[6])
    }

    /// The length of the frame at the start of `data`, if `data` holds all of
    /// it. Neither the kind nor the size of the frame is judged.
    pub fn can_deserialize_from(data: &[u8]) -> (r: Option<usize>)
        ensures
            r is Some == frame_len(data@) is Some,
            r is Some ==> r->Some_0 == frame_len(data@)->Some_0,
    {
        let len: usize = data.len();
        if len < SERIALIZE_OVERHEAD {
            return None;
        }
        let payload_len: u16 = u16_from_le(data[5], data[6]);
        let expected_len: usize = SERIALIZE_OVERHEAD + payload_len as usize;
        if len < expected_len {
            return None;
        }
        Some(expected_len)
    }

    /// The chunk whose serialized form is `data`.
    pub fn deserialize_from(data: &[u8]) -> (r: Result<Chunk, Error>)
        ensures
            is_chunk(data@) ==> r is Ok && r->Ok_0.bytes() == data@,
            !is_chunk(data@) ==> r == Err::<Chunk, Error>(decode_error(data@)),
    {
        let content: Vec<u8> = slice_to_vec(data);
        Chunk::deserialize(content)
    }

    /// The chunk whose serialized form is `content`: between 7 and 1600
    /// bytes, as many as its header declares, with the kind byte of a start,
    /// data or end chunk. Bytes of another size are refused for their size,
    /// and else another kind byte for itself.
    pub fn deserialize(content: Vec<u8>) -> (r: Result<Chunk, Error>)
        ensures
            is_chunk(content@) ==> r is Ok && r->Ok_0.bytes() == content@,
            !is_chunk(content@) ==> r == Err::<Chunk, Error>(decode_error(content@)),
    {
        let len: usize = content.len();
        if len < SERIALIZE_OVERHEAD || len > CHUNK_LENGTH {
            return Err(Error::InvalidChunkSize(len));
        }
        let payload_len: u16 = u16_from_le(content[5], content[6]);
        if SERIALIZE_OVERHEAD + payload_len as usize == len {
            let kind: u8 = content[4];
            if kind > ID_END {
                return Err(Error::InvalidChunkType(Some(kind)));
            }
            Ok(Chunk { content })
        } else {
            Err(Error::InvalidChunkSize(len))
        }
    }

    pub fn serialized_overhead() -> (n: usize)
        ensures
            n == SERIALIZE_OVERHEAD,
    {
        SERIALIZE_OVERHEAD
    }

    pub fn max_payload_length() -> (n: usize)
        ensures
            n == MAX_PAYLOAD_LENGTH,
            n == 1593,
    {
        CHUNK_LENGTH - SERIALIZE_OVERHEAD
    }

    pub fn payload(&self) -> (p: &[u8])
        ensures
            p@ == self@.payload,
            p@.len() <= MAX_PAYLOAD_LENGTH,
    {
        proof {
            use_type_invariant(self);
        }
        let len: usize = self.payload_len() as usize;
        slice_subrange(self.content.as_slice(), SERIALIZE_OVERHEAD, SERIALIZE_OVERHEAD + len)
    }

    /// The bytes that go on the wire: the header that describes this chunk,
    /// then its payload.
    pub fn serialized(self) -> (bytes: Vec<u8>)
        ensures
            bytes@ == self.bytes(),
            bytes@ == encode(self@.client_id, self@.kind, self@.payload),
            is_frame(bytes@),
    {
        proof {
            use_type_invariant(&self);
            lemma_frame_is_encoding(self.content@);
        }
        self.content
    }
}

/// The chunk type of a kind byte.
pub open spec fn chunk_type_of(kind: u8) -> Result<ChunkType, Error> {
    if kind == ID_START {
        Ok(ChunkType::Start)
    } else if kind == ID_DATA {
        Ok(ChunkType::Data)
    } else if kind == ID_END {
        Ok(ChunkType::End)
    } else {
        Err(Error::InvalidChunkType(Some(kind)))
    }
}

/// A frame is the encoding of the header fields and payload read from it.
pub proof fn lemma_frame_is_encoding(buf: Seq<u8>)
    requires
        is_frame(buf),
    ensures
        frame_of(buf).payload.len() == declared_payload_len(buf),
        frame_of(buf).payload.len() <= MAX_PAYLOAD_LENGTH,
        buf == encode(frame_of(buf).client_id, frame_of(buf).kind, frame_of(buf).payload),
{
    let f = frame_of(buf);
    lemma_from_le32_roundtrip(buf[0], buf[1], buf[2], buf[3]);
    lemma_from_le16_roundtrip(buf[5], buf[6]);
    assert(f.payload.len() as u16 == from_le16(buf[5], buf[6]));
    assert(buf =~= encode(f.client_id, f.kind, f.payload));
}

/// The bytes that `encode` gives for a payload of at most 1593 bytes are one
/// frame, and the frame holds what was encoded.
pub proof fn lemma_encode_is_frame(client_id: ClientId, kind: u8, payload: Seq<u8>)
    requires
        payload.len() <= MAX_PAYLOAD_LENGTH,
    ensures
        encode(client_id, kind, payload).len() == SERIALIZE_OVERHEAD + payload.len(),
        is_frame(encode(client_id, kind, payload)),
        declared_payload_len(encode(client_id, kind, payload)) == payload.len(),
        frame_of(encode(client_id, kind, payload)) == (Frame { client_id, kind, payload }),
{
    let buf = encode(client_id, kind, payload);
    lemma_le32_roundtrip(client_id);
    lemma_le16_roundtrip(payload.len() as u16);
    assert(buf[0] == le32(client_id)[0]);
    assert(buf[1] == le32(client_id)[1]);
    assert(buf[2] == le32(client_id)[2]);
    assert(buf[3] == le32(client_id)[3]);
    assert(buf[4] == kind);
    assert(buf[5] == le16(payload.len() as u16)[0]);
    assert(buf[6] == le16(payload.len() as u16)[1]);
    assert(buf.subrange(SERIALIZE_OVERHEAD as int, buf.len() as int) =~= payload);
}

/// What `try_decode` returns for a buffer that is not rejected.
#[derive(Debug)]
pub enum Decoded {
    /// The first frame is not yet complete.
    NeedMore,
    /// The first frame, and the number of bytes it took.
    Complete(usize, Chunk),
}

/// Decodes the frame at the start of `buffer`.
///
/// As long as the frame is incomplete the answer is `NeedMore`. A complete
/// frame is rejected if its declared payload is longer than 1593 bytes or its
/// kind byte is unknown; the error of a frame that is too long holds its
/// length, so that the caller can skip it.
pub fn try_decode(buffer: &[u8]) -> (r: Result<Decoded, Error>)
    ensures
        match decode(buffer@) {
            Decoding::NeedMore => r matches Ok(Decoded::NeedMore),
            Decoding::Complete(len, frame) => r matches Ok(Decoded::Complete(n, chunk)) && n == len
                && chunk@ == frame && chunk.bytes() == buffer@.subrange(0, len as int),
            Decoding::BadSize(len) => r == Err::<Decoded, Error>(
                Error::InvalidChunkSize(len as usize),
            ),
            Decoding::BadKind(kind) => r == Err::<Decoded, Error>(
                Error::InvalidChunkType(Some(kind)),
            ),
        },
{
    match Chunk::can_deserialize_from(buffer) {
        None => Ok(Decoded::NeedMore),
        Some(len) => {
            if len > CHUNK_LENGTH {
                return Err(Error::InvalidChunkSize(len));
            }
            let kind: u8 = buffer[4];
            if kind != ID_START && kind != ID_DATA && kind != ID_END {
                return Err(Error::InvalidChunkType(Some(kind)));
            }
            let frame: &[u8] = slice_subrange(buffer, 0, len);
            match Chunk::deserialize_from(frame) {
                Ok(chunk) => Ok(Decoded::Complete(len, chunk)),
                Err(e) => Err(e),
            }
        },
    }
}

/// Round trip: decoding the encoding of a chunk gives the chunk back, and
/// takes seven bytes more than its payload. Bytes that follow the encoding
/// change nothing.
pub proof fn lemma_decode_encode(
    client_id: ClientId,
    chunk_type: ChunkType,
    payload: Seq<u8>,
    rest: Seq<u8>,
)
    requires
        payload.len() <= MAX_PAYLOAD_LENGTH,
    ensures
        decode(encode(client_id, chunk_type.id(), payload)) == Decoding::Complete(
            SERIALIZE_OVERHEAD as nat + payload.len(),
            Frame { client_id, kind: chunk_type.id(), payload },
        ),
        decode(encode(client_id, chunk_type.id(), payload) + rest) == Decoding::Complete(
            SERIALIZE_OVERHEAD as nat + payload.len(),
            Frame { client_id, kind: chunk_type.id(), payload },
        ),
{
    let enc = encode(client_id, chunk_type.id(), payload);
    lemma_encode_is_frame(client_id, chunk_type.id(), payload);
    assert(enc.subrange(0, enc.len() as int) =~= enc);
    let all = enc + rest;
    assert(all[5] == enc[5]);
    assert(all[6] == enc[6]);
    assert(all.subrange(0, enc.len() as int) =~= enc);
}

/// Prefix stability: every proper prefix of the encoding of a chunk decodes
/// to `NeedMore`.
pub proof fn lemma_decode_prefix(
    client_id: ClientId,
    chunk_type: ChunkType,
    payload: Seq<u8>,
    n: int,
)
    requires
        payload.len() <= MAX_PAYLOAD_LENGTH,
        0 <= n < SERIALIZE_OVERHEAD + payload.len(),
    ensures
        decode(encode(client_id, chunk_type.id(), payload).subrange(0, n)) == Decoding::NeedMore,
{
    let enc = encode(client_id, chunk_type.id(), payload);
    lemma_encode_is_frame(client_id, chunk_type.id(), payload);
    let prefix = enc.subrange(0, n);
    if n >= SERIALIZE_OVERHEAD {
        assert(prefix[5] == enc[5]);
        assert(prefix[6] == enc[6]);
    }
}

/// Rejection: a complete frame whose header declares more than 1593 bytes of
/// payload, or whose kind byte is none of 0, 1, 2, does not decode to a chunk.
pub proof fn lemma_decode_rejects(buf: Seq<u8>)
    requires
        frame_len(buf) is Some,
    ensures
        declared_payload_len(buf) > MAX_PAYLOAD_LENGTH ==> decode(buf) == Decoding::BadSize(
            SERIALIZE_OVERHEAD as nat + declared_payload_len(buf),
        ),
        declared_payload_len(buf) <= MAX_PAYLOAD_LENGTH && buf[4] > ID_END ==> decode(buf)
            == Decoding::BadKind(buf[4]),
        decode(buf) is Complete <==> declared_payload_len(buf) <= MAX_PAYLOAD_LENGTH && buf[4]
            <= ID_END,
{
}

/// A chunk is decoded only from a frame that encodes it: what `decode`
/// accepts is the encoding of what it returns.
pub proof fn lemma_decode_complete(buf: Seq<u8>)
    requires
        decode(buf) is Complete,
    ensures
        decode(buf)->Complete_0 <= buf.len(),
        decode(buf)->Complete_0 == SERIALIZE_OVERHEAD + decode(buf)->Complete_1.payload.len(),
        chunk_type_of(decode(buf)->Complete_1.kind) is Ok,
        buf.subrange(0, decode(buf)->Complete_0 as int) == encode(
            decode(buf)->Complete_1.client_id,
            decode(buf)->Complete_1.kind,
            decode(buf)->Complete_1.payload,
        ),
{
    let len = frame_len(buf)->Some_0;
    let frame = buf.subrange(0, len as int);
    assert(frame[5] == buf[5]);
    assert(frame[6] == buf[6]);
    lemma_frame_is_encoding(frame);
}

/// The frames at the start of `buf`, in order, and the bytes left over: an
/// incomplete frame, or nothing.
pub open spec fn split_frames(buf: Seq<u8>) -> (Seq<Seq<u8>>, Seq<u8>)
    decreases buf.len(),
{
    match frame_len(buf) {
        None => (Seq::empty(), buf),
        Some(len) => {
            let (frames, rest) = split_frames(buf.subrange(len as int, buf.len() as int));
            (seq![buf.subrange(0, len as int)] + frames, rest)
        },
    }
}

/// What deserializing one complete frame gives.
pub open spec fn deserialized(frame: Seq<u8>) -> Result<Frame, Error> {
    if is_chunk(frame) {
        Ok(frame_of(frame))
    } else {
        Err(decode_error(frame))
    }
}

/// Whether `item` is what deserializing `frame` gives.
pub open spec fn is_deserialized(item: Result<Chunk, Error>, frame: Seq<u8>) -> bool {
    match item {
        Ok(chunk) => is_chunk(frame) && chunk.bytes() == frame,
        Err(e) => !is_chunk(frame) && e == decode_error(frame),
    }
}

/// Deserializing agrees with decoding: a complete frame at the start of a
/// buffer is decoded to a chunk if and only if it deserializes, and is
/// rejected for the same reason if it does not.
pub proof fn lemma_decode_deserialized(buf: Seq<u8>)
    requires
        frame_len(buf) is Some,
    ensures
        ({
            let frame = buf.subrange(0, frame_len(buf)->Some_0 as int);
            match decode(buf) {
                Decoding::Complete(len, f) => deserialized(frame) == Ok::<Frame, Error>(f),
                Decoding::BadSize(len) => deserialized(frame) == Err::<Frame, Error>(
                    Error::InvalidChunkSize(len as usize),
                ),
                Decoding::BadKind(kind) => deserialized(frame) == Err::<Frame, Error>(
                    Error::InvalidChunkType(Some(kind)),
                ),
                Decoding::NeedMore => false,
            }
        }),
{
    let len = frame_len(buf)->Some_0;
    let frame = buf.subrange(0, len as int);
    assert(frame[5] == buf[5]);
    assert(frame[6] == buf[6]);
}

/// Those of `frames` that are chunks, in order.
pub open spec fn chunk_frames(frames: Seq<Seq<u8>>) -> Seq<Seq<u8>>
    decreases frames.len(),
{
    if frames.len() == 0 {
        Seq::empty()
    } else if is_chunk(frames.last()) {
        chunk_frames(frames.drop_last()).push(frames.last())
    } else {
        chunk_frames(frames.drop_last())
    }
}

/// Those of `frames` that are no chunks, in order.
pub open spec fn dropped_frames(frames: Seq<Seq<u8>>) -> Seq<Seq<u8>>
    decreases frames.len(),
{
    if frames.len() == 0 {
        Seq::empty()
    } else if is_chunk(frames.last()) {
        dropped_frames(frames.drop_last())
    } else {
        dropped_frames(frames.drop_last()).push(frames.last())
    }
}

/// Whether every one of `frames` is a chunk.
pub open spec fn all_chunks(frames: Seq<Seq<u8>>) -> bool {
    forall|i: int| 0 <= i < frames.len() ==> is_chunk(#[trigger] frames[i])
}

/// If every frame is a chunk, none is left out and none is dropped.
pub proof fn lemma_chunk_frames_all(frames: Seq<Seq<u8>>)
    requires
        all_chunks(frames),
    ensures
        chunk_frames(frames) == frames,
        dropped_frames(frames) == Seq::<Seq<u8>>::empty(),
    decreases frames.len(),
{
    if frames.len() > 0 {
        assert forall|i: int| 0 <= i < frames.drop_last().len() implies is_chunk(
            #[trigger] frames.drop_last()[i],
        ) by {
            assert(frames.drop_last()[i] == frames[i]);
        }
        lemma_chunk_frames_all(frames.drop_last());
        assert(frames.drop_last().push(frames.last()) =~= frames);
    } else {
        assert(chunk_frames(frames) =~= frames);
    }
}

/// What a delivery of bytes holds: the chunks in it, and for each frame
/// that is no chunk the reason why it was dropped.
#[derive(Debug)]
pub struct Received {
    /// The chunks, in order.
    pub chunks: Vec<Chunk>,
    /// Why the other frames were dropped, in order.
    pub dropped: Vec<Error>,
}

/// Whether `received` holds the chunks among `frames` and the reasons why
/// the other frames are none.
pub open spec fn is_received(received: Received, frames: Seq<Seq<u8>>) -> bool {
    &&& received.chunks@.len() == chunk_frames(frames).len()
    &&& forall|i: int|
        0 <= i < received.chunks@.len() ==> (#[trigger] received.chunks@[i]).bytes()
            == chunk_frames(frames)[i]
    &&& received.dropped@.len() == dropped_frames(frames).len()
    &&& forall|i: int|
        0 <= i < received.dropped@.len() ==> #[trigger] received.dropped@[i] == decode_error(
            dropped_frames(frames)[i],
        )
}

/// How the bytes arrive does not matter: splitting `a + b` gives the frames of
/// `a`, then the frames of what `a` left over followed by `b`.
pub proof fn lemma_split_frames_append(a: Seq<u8>, b: Seq<u8>)
    ensures
        split_frames(a + b).0 == split_frames(a).0 + split_frames(split_frames(a).1 + b).0,
        split_frames(a + b).1 == split_frames(split_frames(a).1 + b).1,
    decreases a.len(),
{
    match frame_len(a) {
        None => {
            assert(split_frames(a).0 + split_frames(a + b).0 =~= split_frames(a + b).0);
        },
        Some(len) => {
            let ab = a + b;
            assert(ab[5] == a[5]);
            assert(ab[6] == a[6]);
            let a_tail = a.subrange(len as int, a.len() as int);
            assert(ab.subrange(len as int, ab.len() as int) =~= a_tail + b);
            assert(ab.subrange(0, len as int) =~= a.subrange(0, len as int));
            lemma_split_frames_append(a_tail, b);
            let first = seq![a.subrange(0, len as int)];
            assert(first + (split_frames(a_tail).0 + split_frames(split_frames(a_tail).1 + b).0)
                =~= (first + split_frames(a_tail).0) + split_frames(split_frames(a_tail).1 + b).0);
        },
    }
}

/// The frames add up to the buffer: nothing is lost and nothing is invented,
/// and what is left over holds no complete frame.
pub proof fn lemma_split_frames_total(buf: Seq<u8>)
    ensures
        split_frames(buf).0.flatten() + split_frames(buf).1 == buf,
        frame_len(split_frames(buf).1) is None,
        forall|i: int|
            0 <= i < split_frames(buf).0.len() ==> frame_len(#[trigger] split_frames(buf).0[i])
                == Some(split_frames(buf).0[i].len()),
    decreases buf.len(),
{
    match frame_len(buf) {
        None => {
            assert(split_frames(buf).0.flatten() =~= Seq::<u8>::empty());
            assert(Seq::<u8>::empty() + buf =~= buf);
        },
        Some(len) => {
            let head = buf.subrange(0, len as int);
            let tail = buf.subrange(len as int, buf.len() as int);
            lemma_split_frames_total(tail);
            let frames = split_frames(tail).0;
            assert((seq![head] + frames).first() == head);
            assert((seq![head] + frames).drop_first() =~= frames);
            assert((seq![head] + frames).flatten() == head + frames.flatten());
            assert(head + frames.flatten() + split_frames(tail).1 =~= head + (frames.flatten()
                + split_frames(tail).1));
            assert(head + tail =~= buf);
            assert(head[5] == buf[5]);
            assert(head[6] == buf[6]);
            assert forall|i: int| 0 <= i < split_frames(buf).0.len() implies frame_len(
                #[trigger] split_frames(buf).0[i],
            ) == Some(split_frames(buf).0[i].len()) by {
                if i > 0 {
                    assert(split_frames(buf).0[i] == frames[i - 1]);
                }
            }
        },
    }
}

/// Collects the bytes that a transport delivers and cuts them into chunks,
/// wherever the transport cut them.
pub struct Reassembly {
    pending: Vec<u8>,
}

impl Reassembly {
    /// The bytes received that do not yet make a frame.
    pub closed spec fn pending(&self) -> Seq<u8> {
        self.pending@
    }

    pub fn new() -> (r: Reassembly)
        ensures
            r.pending() == Seq::<u8>::empty(),
    {
        Reassembly { pending: Vec::with_capacity(2 * CHUNK_LENGTH) }
    }

    /// Whether an incomplete frame is waiting for its end.
    pub fn is_empty(&self) -> (b: bool)
        ensures
            b == (self.pending().len() == 0),
    {
        self.pending.len() == 0
    }

    /// Forgets the bytes of an incomplete frame, as after a disconnection.
    pub fn clear(&mut self)
        ensures
            final(self).pending() == Seq::<u8>::empty(),
    {
        self.pending.clear();
    }

    /// Takes `data` in and gives out, in order, every frame that is now
    /// complete: as a chunk, or as the error that deserializing it gives.
    /// What follows the last complete frame waits for the next call.
    pub fn push(&mut self, data: &[u8]) -> (out: Vec<Result<Chunk, Error>>)
        ensures
            final(self).pending() == split_frames(old(self).pending() + data@).1,
            out@.len() == split_frames(old(self).pending() + data@).0.len(),
            forall|i: int|
                0 <= i < out@.len() ==> is_deserialized(
                    #[trigger] out@[i],
                    split_frames(old(self).pending() + data@).0[i],
                ),
    {
        self.pending.extend_from_slice(data);
        let ghost total = self.pending@;
        assert(total =~= old(self).pending() + data@);
        let mut out: Vec<Result<Chunk, Error>> = Vec::new();
        let mut off: usize = 0;
        let ghost mut done: Seq<Seq<u8>> = Seq::empty();
        assert(total.subrange(0, total.len() as int) =~= total);
        assert(done + split_frames(total).0 =~= split_frames(total).0);
        loop
            invariant
                off <= total.len(),
                self.pending@ == total,
                split_frames(total).1 == split_frames(
                    total.subrange(off as int, total.len() as int),
                ).1,
                split_frames(total).0 == done + split_frames(
                    total.subrange(off as int, total.len() as int),
                ).0,
                out@.len() == done.len(),
                forall|i: int| 0 <= i < out@.len() ==> is_deserialized(#[trigger] out@[i], done[i]),
            ensures
                frame_len(total.subrange(off as int, total.len() as int)) is None,
            decreases total.len() - off,
        {
            let tail: &[u8] = slice_subrange(self.pending.as_slice(), off, self.pending.len());
            match Chunk::can_deserialize_from(tail) {
                None => {
                    break ;
                },
                Some(len) => {
                    let frame: &[u8] = slice_subrange(tail, 0, len);
                    let item: Result<Chunk, Error> = Chunk::deserialize_from(frame);
                    out.push(item);
                    proof {
                        let rest = total.subrange(off as int, total.len() as int);
                        let next = total.subrange(off + len, total.len() as int);
                        assert(rest.subrange(len as int, rest.len() as int) =~= next);
                        assert(done + (seq![frame@] + split_frames(next).0) =~= done.push(frame@)
                            + split_frames(next).0);
                        done = done.push(frame@);
                    }
                    off = off + len;
                },
            }
        }
        let rest: Vec<u8> = self.pending.split_off(off);
        self.pending = rest;
        assert(out@.len() == split_frames(total).0.len()) by {
            assert(done + Seq::<Seq<u8>>::empty() =~= done);
        }
        assert(split_frames(total).0 =~= done);
        out
    }

    /// Takes `data` in and gives out the chunks that are now complete, in
    /// order. A complete frame that is no chunk is dropped, and the reason
    /// is given for the caller to warn of; the frames behind it are looked
    /// at all the same. What follows the last complete frame waits for the
    /// next call.
    pub fn receive(&mut self, data: &[u8]) -> (received: Received)
        ensures
            final(self).pending() == split_frames(old(self).pending() + data@).1,
            is_received(received, split_frames(old(self).pending() + data@).0),
    {
        let ghost frames = split_frames(self.pending() + data@).0;
        let items: Vec<Result<Chunk, Error>> = self.push(data);
        let mut chunks: Vec<Chunk> = Vec::new();
        let mut dropped: Vec<Error> = Vec::new();
        assert(frames.take(0) =~= Seq::<Seq<u8>>::empty());
        for item in it: items
            invariant
                it.seq().len() == frames.len(),
                forall|i: int|
                    0 <= i < it.seq().len() ==> is_deserialized(#[trigger] it.seq()[i], frames[i]),
                is_received(Received { chunks, dropped }, frames.take(it.index())),
        {
            proof {
                let k = it.index();
                assert(frames.take(k + 1).drop_last() =~= frames.take(k));
                assert(frames.take(k + 1).last() == frames[k]);
            }
            match item {
                Ok(chunk) => {
                    chunks.push(chunk);
                },
                Err(e) => {
                    dropped.push(e);
                },
            }
        }
        assert(frames.take(frames.len() as int) =~= frames);
        Received { chunks, dropped }
    }
}

/// Hands out client identifiers: 0, 1, 2 and so on, each once.
#[derive(Debug)]
pub struct ClientIds {
    next: u64,
}

impl ClientIds {
    #[verifier::type_invariant]
    closed spec fn in_range(&self) -> bool {
        self.next <= 0x1_0000_0000
    }

    /// How many identifiers have been handed out. The next one is this
    /// number, as long as it fits in 32 bits.
    pub closed spec fn issued(&self) -> nat {
        self.next as nat
    }

    pub fn new() -> (ids: ClientIds)
        ensures
            ids.issued() == 0,
    {
        ClientIds { next: 0 }
    }

    /// The next identifier: larger than every one handed out before. None
    /// once all 32-bit values are used up, since none is ever used twice.
    pub fn new_client_id(&mut self) -> (id: Option<ClientId>)
        ensures
            old(self).issued() <= u32::MAX ==> id == Some(old(self).issued() as u32)
                && final(self).issued() == old(self).issued() + 1,
            old(self).issued() > u32::MAX ==> id is None && final(self).issued() == old(
                self,
            ).issued(),
    {
        proof {
            use_type_invariant(&*self);
        }
        if self.next > 0xffff_ffff {
            return None;
        }
        let id: ClientId = self.next as u32;
        self.next = self.next + 1;
        Some(id)
    }
}

/// What travels between the multiplexer and the transport.
#[derive(Debug)]
pub enum ChannelControl {
    SendChunk(Chunk),
    SendInputSetting(InputSetting),
    SendInputAction(InputAction),
    ResetClient,
    Shutdown,
}

} // verus!
