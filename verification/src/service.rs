//! The services that are tunnelled, the table of their clients, and the
//! duplex stream that each client reads and writes.

use crate::api::{
    Chunk, ChunkType, ChannelControl, ClientId, ClientIds, Error, Frame, IoErrorKind, ID_END,
    ID_START,
    MAX_PAYLOAD_LENGTH, chunk_type_of, lemma_encode_is_frame,
};
use crate::input::{InputAction, InputSetting};
use crate::queue::{bounded, send};
use crate::stream::{
    Disconnection, RdpStream, RdpStreamCommon, RdpStreamState, CLIENT_CHUNK_BUFFER_SIZE, stream_step,
};
use std::collections::HashMap;
use vstd::prelude::*;
use vstd::std_specs::hash::*;
use vstd::std_specs::iter::IteratorSpec;
use vstd::string::*;

verus! {

/// Which end of the channel a component runs on.
#[derive(Clone, Copy, Debug, PartialEq, Eq, Structural)]
pub enum Kind {
    Backend,
    Frontend,
}

impl Kind {
    /// The name of the end, as it is written in the names of threads.
    pub fn name(self) -> (name: &'static str)
        ensures
            name == match self {
                Kind::Backend => "backend",
                Kind::Frontend => "frontend",
            },
    {
        match self {
            Kind::Backend => "backend",
            Kind::Frontend => "frontend",
        }
    }
}

/// The local TCP face of a service.
#[derive(Clone, Copy, Debug)]
pub struct TcpFrontend {
    pub default_port: u16,
}

impl TcpFrontend {
    pub fn default_port(&self) -> (port: u16)
        ensures
            port == self.default_port,
    {
        self.default_port
    }
}

/// One tunnelled service. Its name travels in start chunks.
#[derive(Clone, Copy, Debug)]
pub struct Service {
    pub name: &'static str,
    pub tcp_frontend: Option<TcpFrontend>,
}

impl Service {
    /// The name as it travels in a start chunk.
    pub open spec fn name_bytes(&self) -> Seq<u8> {
        self.name.spec_bytes()
    }

    pub fn name(&self) -> (name: &'static str)
        ensures
            name == self.name,
    {
        self.name
    }

    pub fn tcp_frontend(&self) -> (frontend: Option<&TcpFrontend>)
        ensures
            frontend == match self.tcp_frontend {
                Some(f) => Some(&f),
                None => None,
            },
    {
        self.tcp_frontend.as_ref()
    }
}

/// The services that this build tunnels, in the order in which they are
/// looked up.
pub open spec fn registry() -> Seq<Service> {
    seq![
        Service { name: "clipboard", tcp_frontend: Some(TcpFrontend { default_port: 3032 }) },
        Service { name: "command", tcp_frontend: Some(TcpFrontend { default_port: 3031 }) },
        Service { name: "input", tcp_frontend: Some(TcpFrontend { default_port: 1081 }) },
        Service { name: "ftp", tcp_frontend: Some(TcpFrontend { default_port: 2021 }) },
        Service { name: "socks5", tcp_frontend: Some(TcpFrontend { default_port: 1080 }) },
        Service { name: "stage0", tcp_frontend: Some(TcpFrontend { default_port: 1081 }) },
    ]
}

/// The services that this build tunnels.
pub fn services() -> (all: [Service; 6])
    ensures
        all@ == registry(),
{
    let all: [Service; 6] = [
        Service { name: "clipboard", tcp_frontend: Some(TcpFrontend { default_port: 3032 }) },
        Service { name: "command", tcp_frontend: Some(TcpFrontend { default_port: 3031 }) },
        Service { name: "input", tcp_frontend: Some(TcpFrontend { default_port: 1081 }) },
        Service { name: "ftp", tcp_frontend: Some(TcpFrontend { default_port: 2021 }) },
        Service { name: "socks5", tcp_frontend: Some(TcpFrontend { default_port: 1080 }) },
        Service { name: "stage0", tcp_frontend: Some(TcpFrontend { default_port: 1081 }) },
    ];
    assert(all@ =~= registry());
    all
}

/// The name of every service of the registry fits in a start chunk, and no
/// two services have the same name: each can be started, and each is found
/// by its name.
pub proof fn lemma_registry_names()
    ensures
        forall|i: int|
            0 <= i < registry().len() ==> (#[trigger] registry()[i]).name_bytes().len()
                <= MAX_PAYLOAD_LENGTH,
        forall|i: int|
            0 <= i < registry().len() ==> lookup_spec((#[trigger] registry()[i]).name_bytes())
                == Some(registry()[i]),
{
    reveal_strlit("clipboard");
    reveal_strlit("command");
    reveal_strlit("input");
    reveal_strlit("ftp");
    reveal_strlit("socks5");
    reveal_strlit("stage0");
    vstd::utf8::is_ascii_chars_encode_utf8("clipboard"@);
    vstd::utf8::is_ascii_chars_encode_utf8("command"@);
    vstd::utf8::is_ascii_chars_encode_utf8("input"@);
    vstd::utf8::is_ascii_chars_encode_utf8("ftp"@);
    vstd::utf8::is_ascii_chars_encode_utf8("socks5"@);
    vstd::utf8::is_ascii_chars_encode_utf8("stage0"@);
    let r = registry();
    assert(r[0].name_bytes().len() == 9);
    assert(r[1].name_bytes().len() == 7);
    assert(r[2].name_bytes().len() == 5);
    assert(r[3].name_bytes().len() == 3);
    assert(r[4].name_bytes().len() == 6);
    assert(r[5].name_bytes().len() == 6);
    assert(r[0].name_bytes()[1] == 108u8);
    assert(r[1].name_bytes()[1] == 111u8);
    assert(r[4].name_bytes()[1] == 111u8);
    assert(r[5].name_bytes()[1] == 116u8);
    reveal_with_fuel(lookup_from, 7);
}

/// The first service of the registry whose name has these bytes.
pub open spec fn lookup_spec(name: Seq<u8>) -> Option<Service> {
    lookup_from(name, 0)
}

/// The first service at or after position `from` whose name has these bytes.
pub open spec fn lookup_from(name: Seq<u8>, from: int) -> Option<Service>
    decreases registry().len() - from,
{
    if from < 0 || from >= registry().len() {
        None
    } else if registry()[from].name_bytes() == name {
        Some(registry()[from])
    } else {
        lookup_from(name, from + 1)
    }
}

/// Whether two byte strings are the same.
pub fn bytes_eq(a: &[u8], b: &[u8]) -> (same: bool)
    ensures
        same == (a@ == b@),
{
    if a.len() != b.len() {
        return false;
    }
    let mut i: usize = 0;
    while i < a.len()
        invariant
            a@.len() == b@.len(),
            i <= a@.len(),
            forall|j: int| 0 <= j < i ==> a@[j] == b@[j],
        decreases a@.len() - i,
    {
        if a[i] != b[i] {
            return false;
        }
        i = i + 1;
    }
    assert(a@ =~= b@);
    true
}

/// The service that a start chunk names in its payload.
pub fn lookup_bytes(bytes: &[u8]) -> (found: Option<Service>)
    ensures
        found == lookup_spec(bytes@),
{
    let all: [Service; 6] = services();
    let mut i: usize = 0;
    while i < 6
        invariant
            i <= 6,
            all@ == registry(),
            lookup_spec(bytes@) == lookup_from(bytes@, i as int),
        decreases 6 - i,
    {
        let candidate: Service = all[i];
        if bytes_eq(candidate.name.as_bytes(), bytes) {
            return Some(candidate);
        }
        i = i + 1;
    }
    None
}

/// The service of this name.
pub fn lookup(name: &str) -> (found: Option<Service>)
    ensures
        found == lookup_spec(name.spec_bytes()),
{
    lookup_bytes(name.as_bytes())
}

/// The sending end of the queue that leads to the reader of one client. The
/// queue holds 16 chunks at most: who sends into a full queue waits.
pub type Queue = crossbeam_channel::Sender<Chunk>;

/// Puts `chunk` into `queue`, behind the chunks that wait there, and waits
/// while the queue is full. Whether the queue takes it is up to the reader
/// at its other end: a chunk that is not taken, because the reader has
/// gone, comes back.
pub fn deliver(queue: &Queue, chunk: Chunk) -> (r: Result<(), Chunk>)
    ensures
        r is Err ==> r->Err_0 == chunk,
{
    send(queue, chunk)
}

/// The end chunk of a client, as a value.
pub open spec fn end_frame(client_id: ClientId) -> Frame {
    Frame { client_id, kind: ID_END, payload: Seq::empty() }
}

/// The queue of a client that has left the table, and the end chunk to put
/// into it, so that its reader wakes up and sees the end of its stream.
#[derive(Debug)]
pub struct Closed {
    pub queue: Queue,
    pub end: Chunk,
}

impl Closed {
    /// Puts the end chunk into the queue, so that the reader wakes up and
    /// sees the end of its stream. If the reader has gone the chunk comes
    /// back.
    pub fn wake(self) -> (r: Result<(), Chunk>)
        ensures
            r is Err ==> r->Err_0 == self.end,
    {
        deliver(&self.queue, self.end)
    }
}

/// Whether `closed` holds, for each client of `table` and for no other, its
/// queue with its end chunk, each client once.
pub open spec fn is_fan_out(closed: Seq<Closed>, table: Map<ClientId, Queue>) -> bool {
    &&& closed.len() == table.dom().len()
    &&& forall|i: int|
        0 <= i < closed.len() ==> {
            let id = (#[trigger] closed[i]).end@.client_id;
            &&& table.contains_key(id)
            &&& closed[i].queue == table[id]
            &&& closed[i].end@ == end_frame(id)
        }
    &&& forall|i: int, j: int|
        0 <= i < j < closed.len() ==> (#[trigger] closed[i]).end@.client_id != (
        #[trigger] closed[j]).end@.client_id
    &&& forall|id: ClientId| #[trigger]
        table.contains_key(id) ==> exists|i: int|
            0 <= i < closed.len() && (#[trigger] closed[i]).end@.client_id == id
}

/// Shutdown reaches every reader: the fan-out holds, for each client of the
/// table, its queue with its end chunk; and once that chunk is behind the
/// chunks that wait for the client, the bytes that its reader will hand out
/// are those that waited, closed by the end of the stream.
pub proof fn lemma_fan_out_ends_stream(
    closed: Seq<Closed>,
    table: Map<ClientId, Queue>,
    client_id: ClientId,
    waiting: Seq<Frame>,
)
    requires
        is_fan_out(closed, table),
        table.contains_key(client_id),
    ensures
        exists|i: int|
            0 <= i < closed.len() && (#[trigger] closed[i]).queue == table[client_id]
                && closed[i].end@ == end_frame(client_id) && crate::stream::stream_bytes(
                waiting.push(closed[i].end@),
            ) == crate::stream::stream_bytes(waiting) && crate::stream::has_end(
                waiting.push(closed[i].end@),
            ),
{
    let i = choose|i: int| 0 <= i < closed.len() && (#[trigger] closed[i]).end@.client_id == client_id;
    let end = closed[i].end@;
    assert(end == end_frame(client_id));
    crate::stream::lemma_stream_bytes_push(waiting, end);
    let pushed = waiting.push(end);
    assert(pushed[waiting.len() as int].kind == ID_END);
}

/// Why a message from the transport was dropped.
#[derive(Clone, Copy, Debug, PartialEq, Eq, Structural)]
pub enum Discarded {
    /// The kind byte of the chunk is unknown.
    InvalidChunk,
    /// A start chunk on the frontend, which accepts no streams.
    UnexpectedStart,
    /// A start chunk for a client that is in the table already.
    DuplicateStart,
    /// An end chunk for a client that is not in the table.
    UnknownClient,
    ResetClient,
    InputSetting,
    InputAction,
}

/// What the multiplexer asks of its caller after it has looked at one
/// message from the transport.
#[derive(Debug)]
pub enum Action {
    /// Nothing.
    Discard(Discarded),
    /// The channel is down: put each end chunk into its queue.
    Shutdown(Vec<Closed>),
    /// A new client of a known service: run the handler of the service on
    /// this stream.
    Accept(RdpStream),
    /// Put the chunk into the queue of this client, and wait while the queue
    /// is full.
    Deliver(ClientId, Chunk),
    /// The client has left the table: put its end chunk into its queue.
    Close(Closed),
    /// A start chunk named no known service: send this end chunk to the peer.
    Refuse(Chunk),
    /// A data chunk came for no known client: send this end chunk to the
    /// peer, best effort.
    Reject(Chunk),
}

/// The client table: which clients have a stream, and the queue that leads
/// to each of them.
pub struct Channel {
    clients: HashMap<ClientId, Queue>,
    ids: ClientIds,
}

impl Channel {
    /// The table.
    pub closed spec fn clients(&self) -> Map<ClientId, Queue> {
        self.clients@
    }

    /// How many client identifiers this channel has handed out.
    pub closed spec fn issued(&self) -> nat {
        self.ids.issued()
    }

    pub fn new() -> (channel: Channel)
        ensures
            channel.clients() == Map::<ClientId, Queue>::empty(),
            channel.issued() == 0,
    {
        Channel { clients: HashMap::new(), ids: ClientIds::new() }
    }

    /// How many clients are in the table.
    pub fn len(&self) -> (n: usize)
        ensures
            n == self.clients().dom().len(),
    {
        broadcast use group_hash_axioms;

        self.clients.len()
    }

    pub fn contains(&self, client_id: ClientId) -> (known: bool)
        ensures
            known == self.clients().contains_key(client_id),
    {
        broadcast use group_hash_axioms;

        self.clients.contains_key(&client_id)
    }

    /// The queue that leads to a client.
    pub fn queue(&self, client_id: ClientId) -> (queue: Option<&Queue>)
        ensures
            queue is Some == self.clients().contains_key(client_id),
            queue is Some ==> *queue->Some_0 == self.clients()[client_id],
    {
        broadcast use group_hash_axioms;

        self.clients.get(&client_id)
    }

    /// Removes a client from the table, as its stream does when it ends.
    pub fn forget(&mut self, client_id: ClientId) -> (queue: Option<Queue>)
        ensures
            final(self).clients() == old(self).clients().remove(client_id),
            final(self).issued() == old(self).issued(),
            queue is Some == old(self).clients().contains_key(client_id),
            queue is Some ==> queue->Some_0 == old(self).clients()[client_id],
    {
        broadcast use group_hash_axioms;

        self.clients.remove(&client_id)
    }

    /// The identifiers of the clients in the table, each once.
    pub fn client_ids(&self) -> (ids: Vec<ClientId>)
        ensures
            ids@.no_duplicates(),
            ids@.to_set() == self.clients().dom(),
            ids@.len() == self.clients().dom().len(),
    {
        broadcast use group_hash_axioms;

        let mut ids: Vec<ClientId> = Vec::new();
        for id in it: self.clients.keys()
            invariant
                ids@.len() == it.index(),
                forall|j: int| 0 <= j < ids@.len() ==> ids@[j] == *it.seq()[j],
        {
            ids.push(*id);
        }
        assert(ids@ =~= spec_keys_iter(&self.clients).remaining().unref());
        ids
    }

    /// Empties the table, as when the transport reports that the channel is
    /// down, and gives for each client that was in it its queue and its end
    /// chunk: every reader then sees the end of its stream. Identifiers
    /// handed out before are not handed out again afterwards.
    pub fn shutdown(&mut self) -> (closed: Vec<Closed>)
        ensures
            final(self).clients() == Map::<ClientId, Queue>::empty(),
            final(self).issued() == old(self).issued(),
            is_fan_out(closed@, old(self).clients()),
    {
        broadcast use group_hash_axioms;

        let ids: Vec<ClientId> = self.client_ids();
        let ghost table = self.clients@;
        let mut closed: Vec<Closed> = Vec::new();
        let mut i: usize = 0;
        while i < ids.len()
            invariant
                i <= ids@.len(),
                ids@.no_duplicates(),
                ids@.to_set() == table.dom(),
                ids@.len() == table.dom().len(),
                self.ids == old(self).ids,
                closed@.len() == i,
                forall|id: ClientId|
                    self.clients@.contains_key(id) <==> table.contains_key(id) && !ids@.subrange(
                        0,
                        i as int,
                    ).contains(id),
                forall|id: ClientId| #[trigger]
                    self.clients@.contains_key(id) ==> self.clients@[id] == table[id],
                forall|j: int|
                    0 <= j < i ==> {
                        &&& (#[trigger] closed@[j]).end@ == end_frame(ids@[j])
                        &&& closed@[j].queue == table[ids@[j]]
                    },
            decreases ids@.len() - i,
        {
            let id: ClientId = ids[i];
            assert(ids@.to_set().contains(id));
            assert(self.clients@.contains_key(id)) by {
                if ids@.subrange(0, i as int).contains(id) {
                    let j = choose|j: int| 0 <= j < i && ids@.subrange(0, i as int)[j] == id;
                    assert(ids@[j] == ids@[i as int]);
                }
            }
            let ghost prev = self.clients@;
            let removed: Option<Queue> = self.clients.remove(&id);
            assert(self.clients@ == prev.remove(id));
            match removed {
                Some(queue) => {
                    let end: Chunk = Chunk::end(id);
                    proof {
                        lemma_encode_is_frame(id, ID_END, Seq::<u8>::empty());
                    }
                    closed.push(Closed { queue, end });
                },
                None => {},
            }
            proof {
                let before = ids@.subrange(0, i as int);
                let after = ids@.subrange(0, i + 1);
                assert(after =~= before.push(id));
                assert forall|other: ClientId|
                    self.clients@.contains_key(other) <==> table.contains_key(other)
                        && !after.contains(other) by {
                    assert(prev.contains_key(other) <==> table.contains_key(other)
                        && !before.contains(other));
                    assert(self.clients@.contains_key(other) <==> prev.contains_key(other) && other
                        != id);
                    if after.contains(other) {
                        let j = choose|j: int| 0 <= j < after.len() && after[j] == other;
                        if j < i {
                            assert(before[j] == other);
                        }
                    }
                    if before.contains(other) {
                        let j = choose|j: int| 0 <= j < before.len() && before[j] == other;
                        assert(after[j] == other);
                    }
                    if other == id {
                        assert(after[i as int] == id);
                    }
                }
            }
            i = i + 1;
        }
        self.clients.clear();
        proof {
            assert(self.clients@ =~= Map::<ClientId, Queue>::empty());
            assert forall|id: ClientId| #[trigger] table.contains_key(id) implies exists|j: int|
                0 <= j < closed@.len() && (#[trigger] closed@[j]).end@.client_id == id by {
                assert(ids@.to_set().contains(id));
                let j = choose|j: int| 0 <= j < ids@.len() && ids@[j] == id;
                assert(closed@[j].end@.client_id == id);
            }
            assert forall|j: int| 0 <= j < closed@.len() implies table.contains_key(
                (#[trigger] closed@[j]).end@.client_id,
            ) by {
                assert(ids@.to_set().contains(ids@[j]));
            }
        }
        closed
    }

    /// Opens a stream towards `service`, frontend side: takes a fresh client
    /// identifier, makes the queue of 16 chunks that leads to the reader of
    /// the stream, puts its sending end into the table under the identifier,
    /// and gives the connected stream with the start chunk to hand to the
    /// transport.
    ///
    /// Fails with `Other` when no identifier is left, and with `InvalidData`
    /// when the name of the service does not fit in a chunk; the table is
    /// then without the client.
    pub fn connect(&mut self, service: &Service) -> (r: Result<(RdpStream, Chunk), IoErrorKind>)
        ensures
            old(self).issued() > u32::MAX ==> {
                &&& r matches Err(IoErrorKind::Other)
                &&& final(self).clients() == old(self).clients()
                &&& final(self).issued() == old(self).issued()
            },
            old(self).issued() <= u32::MAX ==> final(self).issued() == old(self).issued() + 1,
            old(self).issued() <= u32::MAX && service.name_bytes().len() > MAX_PAYLOAD_LENGTH ==> {
                &&& r matches Err(IoErrorKind::InvalidData)
                &&& final(self).clients() == old(self).clients().remove(old(self).issued() as u32)
            },
            old(self).issued() <= u32::MAX && service.name_bytes().len() <= MAX_PAYLOAD_LENGTH ==> {
                let id = old(self).issued() as u32;
                &&& r is Ok
                &&& is_added(old(self).clients(), id, final(self).clients())
                &&& r->Ok_0.0.control.spec_client_id() == id
                &&& r->Ok_0.0.control.spec_service() == *service
                &&& r->Ok_0.0.control.spec_state() == RdpStreamState::Connected
                &&& r->Ok_0.0.reader.leftover() == Seq::<u8>::empty()
                &&& r->Ok_0.0.writer.buffered() == Seq::<u8>::empty()
                &&& r->Ok_0.1@ == (Frame {
                    client_id: id,
                    kind: ID_START,
                    payload: service.name_bytes(),
                })
            },
    {
        broadcast use group_hash_axioms;

        let client_id: ClientId = match self.ids.new_client_id() {
            Some(id) => id,
            None => {
                return Err(IoErrorKind::Other);
            },
        };
        let (from_rdp_send, from_rdp_recv) = bounded::<Chunk>(CLIENT_CHUNK_BUFFER_SIZE);
        let _ = self.clients.insert(client_id, from_rdp_send);
        let mut stream: RdpStream = RdpStream::new(*service, client_id, from_rdp_recv);
        match stream.control.connect() {
            Err(e) => {
                let _ = self.clients.remove(&client_id);
                assert(self.clients@ =~= old(self).clients().remove(client_id));
                Err(e)
            },
            Ok(start) => {
                assert(self.clients@ =~= old(self).clients().insert(
                    client_id,
                    self.clients@[client_id],
                ));
                Ok((stream, start))
            },
        }
    }

    /// Backend side: takes up the stream that a start chunk announces.
    ///
    /// A client that is in the table already is not started again. A payload
    /// that names no service is answered with an end chunk, and nothing is
    /// kept. Else a queue of 16 chunks is made, its sending end enters the
    /// table under `client_id`, and the stream comes back, connected, for
    /// the handler of the service.
    pub fn handle_backend_start(&mut self, client_id: ClientId, payload: &[u8]) -> (action: Action)
        ensures
            final(self).issued() == old(self).issued(),
            is_backend_start(old(self).clients(), client_id, payload@, final(self).clients(), action),
    {
        broadcast use group_hash_axioms;

        if self.clients.contains_key(&client_id) {
            return Action::Discard(Discarded::DuplicateStart);
        }
        match lookup_bytes(payload) {
            None => {
                let end: Chunk = Chunk::end(client_id);
                proof {
                    lemma_encode_is_frame(client_id, ID_END, Seq::<u8>::empty());
                }
                Action::Refuse(end)
            },
            Some(service) => {
                let (from_rdp_send, from_rdp_recv) = bounded::<Chunk>(CLIENT_CHUNK_BUFFER_SIZE);
                let _ = self.clients.insert(client_id, from_rdp_send);
                let mut stream: RdpStream = RdpStream::new(service, client_id, from_rdp_recv);
                let _ = stream.control.accept();
                assert(self.clients@ =~= old(self).clients().insert(
                    client_id,
                    self.clients@[client_id],
                ));
                Action::Accept(stream)
            },
        }
    }

    /// Puts a data chunk into the queue of its client, and waits while the
    /// queue is full: this is how a reader that is slow holds the dispatcher
    /// back. A chunk for a client that is not in the table, or whose reader
    /// has gone, comes back.
    pub fn deliver(&self, client_id: ClientId, chunk: Chunk) -> (r: Result<(), Chunk>)
        ensures
            r is Err ==> r->Err_0 == chunk,
            !self.clients().contains_key(client_id) ==> r is Err,
    {
        broadcast use group_hash_axioms;

        match self.clients.get(&client_id) {
            Some(queue) => deliver(queue, chunk),
            None => Err(chunk),
        }
    }

    /// Looks at one message from the transport and says what is to be done
    /// with it; the table changes as the message asks.
    ///
    /// A shutdown empties the table and ends every stream. A chunk of unknown
    /// kind is dropped. A start chunk counts on the backend only. A data
    /// chunk goes to the queue of its client; for a client that is not in the
    /// table the peer gets an end chunk. An end chunk takes its client out of
    /// the table and follows the data into the queue.
    pub fn handle(&mut self, service_kind: Kind, control: ChannelControl) -> (action: Action)
        ensures
            final(self).issued() == old(self).issued(),
            match control {
                ChannelControl::Shutdown => {
                    &&& final(self).clients() == Map::<ClientId, Queue>::empty()
                    &&& action matches Action::Shutdown(closed)
                    &&& is_fan_out(closed@, old(self).clients())
                },
                ChannelControl::ResetClient => {
                    &&& final(self).clients() == old(self).clients()
                    &&& action matches Action::Discard(Discarded::ResetClient)
                },
                ChannelControl::SendInputSetting(_) => {
                    &&& final(self).clients() == old(self).clients()
                    &&& action matches Action::Discard(Discarded::InputSetting)
                },
                ChannelControl::SendInputAction(_) => {
                    &&& final(self).clients() == old(self).clients()
                    &&& action matches Action::Discard(Discarded::InputAction)
                },
                ChannelControl::SendChunk(chunk) => match chunk_type_of(chunk@.kind) {
                    Err(_) => {
                        &&& final(self).clients() == old(self).clients()
                        &&& action matches Action::Discard(Discarded::InvalidChunk)
                    },
                    Ok(ChunkType::Start) => match service_kind {
                        Kind::Frontend => {
                            &&& final(self).clients() == old(self).clients()
                            &&& action matches Action::Discard(Discarded::UnexpectedStart)
                        },
                        Kind::Backend => is_backend_start(
                            old(self).clients(),
                            chunk@.client_id,
                            chunk@.payload,
                            final(self).clients(),
                            action,
                        ),
                    },
                    Ok(ChunkType::Data) => {
                        &&& final(self).clients() == old(self).clients()
                        &&& if old(self).clients().contains_key(chunk@.client_id) {
                            action matches Action::Deliver(id, c) && id == chunk@.client_id && c
                                == chunk
                        } else {
                            action matches Action::Reject(end) && end@ == end_frame(
                                chunk@.client_id,
                            )
                        }
                    },
                    Ok(ChunkType::End) => {
                        &&& final(self).clients() == old(self).clients().remove(chunk@.client_id)
                        &&& if old(self).clients().contains_key(chunk@.client_id) {
                            action matches Action::Close(closed) && closed.queue == old(
                                self,
                            ).clients()[chunk@.client_id] && closed.end == chunk
                        } else {
                            action matches Action::Discard(Discarded::UnknownClient)
                        }
                    },
                },
            },
    {
        broadcast use group_hash_axioms;

        match control {
            ChannelControl::Shutdown => Action::Shutdown(self.shutdown()),
            ChannelControl::ResetClient => Action::Discard(Discarded::ResetClient),
            ChannelControl::SendInputSetting(_) => Action::Discard(Discarded::InputSetting),
            ChannelControl::SendInputAction(_) => Action::Discard(Discarded::InputAction),
            ChannelControl::SendChunk(chunk) => match chunk.chunk_type() {
                Err(_) => Action::Discard(Discarded::InvalidChunk),
                Ok(chunk_type) => {
                    let client_id: ClientId = chunk.client_id();
                    match chunk_type {
                        ChunkType::Start => match service_kind {
                            Kind::Frontend => Action::Discard(Discarded::UnexpectedStart),
                            Kind::Backend => self.handle_backend_start(client_id, chunk.payload()),
                        },
                        ChunkType::Data => {
                            if self.clients.contains_key(&client_id) {
                                Action::Deliver(client_id, chunk)
                            } else {
                                let end: Chunk = Chunk::end(client_id);
                                proof {
                                    lemma_encode_is_frame(client_id, ID_END, Seq::<u8>::empty());
                                }
                                Action::Reject(end)
                            }
                        },
                        ChunkType::End => {
                            let removed: Option<Queue> = self.clients.remove(&client_id);
                            match removed {
                                Some(queue) => Action::Close(Closed { queue, end: chunk }),
                                None => {
                                    assert(self.clients@ =~= old(self).clients().remove(client_id));
                                    Action::Discard(Discarded::UnknownClient)
                                },
                            }
                        },
                    }
                },
            },
        }
    }
}

/// Whether `after` is `before` with a queue for `client_id` added, and
/// nothing else changed.
pub open spec fn is_added(
    before: Map<ClientId, Queue>,
    client_id: ClientId,
    after: Map<ClientId, Queue>,
) -> bool {
    after.contains_key(client_id) && after == before.insert(client_id, after[client_id])
}

/// What a start chunk for `client_id` with this payload does to a backend
/// table, and what it asks for.
pub open spec fn is_backend_start(
    before: Map<ClientId, Queue>,
    client_id: ClientId,
    payload: Seq<u8>,
    after: Map<ClientId, Queue>,
    action: Action,
) -> bool {
    if before.contains_key(client_id) {
        &&& after == before
        &&& action matches Action::Discard(Discarded::DuplicateStart)
    } else {
        match lookup_spec(payload) {
            None => {
                &&& after == before
                &&& action matches Action::Refuse(end)
                &&& end@ == end_frame(client_id)
            },
            Some(service) => {
                &&& is_added(before, client_id, after)
                &&& action matches Action::Accept(stream)
                &&& stream.control.spec_client_id() == client_id
                &&& stream.control.spec_service() == service
                &&& stream.control.spec_state() == RdpStreamState::Connected
                &&& stream.reader.leftover() == Seq::<u8>::empty()
                &&& stream.writer.buffered() == Seq::<u8>::empty()
            },
        }
    }
}

/// The way from the multiplexer and its streams to the transport: a queue
/// that the transport empties.
pub struct ToRdp {
    sender: crossbeam_channel::Sender<ChannelControl>,
}

/// What the end of a hand-over means for the pipeline: the message was
/// taken, or it came back and the pipeline is broken.
pub fn handed_over(outcome: Result<(), ChannelControl>) -> (r: Result<(), Error>)
    ensures
        outcome is Ok ==> r == Ok::<(), Error>(()),
        outcome is Err ==> r == Err::<(), Error>(Error::PipelineBroken),
{
    match outcome {
        Ok(()) => Ok(()),
        Err(_) => Err(Error::PipelineBroken),
    }
}

impl ToRdp {
    /// The sending end of the queue that leads to the transport.
    pub closed spec fn sender(&self) -> crossbeam_channel::Sender<ChannelControl> {
        self.sender
    }

    /// The way to the transport that empties the queue of `sender`.
    pub fn new(sender: crossbeam_channel::Sender<ChannelControl>) -> (to_rdp: ToRdp)
        ensures
            to_rdp.sender() == sender,
    {
        ToRdp { sender }
    }

    /// Hands a message to the transport. The pipeline is broken if the
    /// transport has gone.
    pub fn send_control(&self, control: ChannelControl) -> (r: Result<(), Error>)
        ensures
            r is Err ==> r == Err::<(), Error>(Error::PipelineBroken),
    {
        handed_over(send(&self.sender, control))
    }

    pub fn send_chunk(&self, chunk: Chunk) -> (r: Result<(), Error>)
        ensures
            r is Err ==> r == Err::<(), Error>(Error::PipelineBroken),
    {
        self.send_control(ChannelControl::SendChunk(chunk))
    }

    pub fn reset_client(&self) -> (r: Result<(), Error>)
        ensures
            r is Err ==> r == Err::<(), Error>(Error::PipelineBroken),
    {
        self.send_control(ChannelControl::ResetClient)
    }

    pub fn send_input_setting(&self, setting: InputSetting) -> (r: Result<(), Error>)
        ensures
            r is Err ==> r == Err::<(), Error>(Error::PipelineBroken),
    {
        self.send_control(ChannelControl::SendInputSetting(setting))
    }

    pub fn send_input_action(&self, action: InputAction) -> (r: Result<(), Error>)
        ensures
            r is Err ==> r == Err::<(), Error>(Error::PipelineBroken),
    {
        self.send_control(ChannelControl::SendInputAction(action))
    }

    /// Hands a chunk of a stream to the transport. If the transport does not
    /// take it the stream is over: the stream is disconnected, and the error
    /// says what its end asks of the caller, which is to remove the client
    /// from the client table unless the stream had ended before. Whether
    /// the transport takes the chunk is up to it.
    pub fn send_for(&self, control: &mut RdpStreamCommon, chunk: Chunk) -> (r: Result<
        (),
        Disconnection,
    >)
        ensures
            final(control).spec_client_id() == old(control).spec_client_id(),
            final(control).spec_service() == old(control).spec_service(),
            r is Ok ==> final(control).spec_state() == old(control).spec_state(),
            r is Err ==> {
                &&& r->Err_0.end is None
                &&& r->Err_0.forget == (old(control).spec_state() != RdpStreamState::Disconnected)
                &&& final(control).spec_state() == RdpStreamState::Disconnected
            },
            stream_step(old(control).spec_state(), None, final(control).spec_state()),
    {
        let delivered: bool = match self.send_chunk(chunk) {
            Ok(()) => true,
            Err(_) => false,
        };
        control.sent(delivered)
    }
}

} // verus!
