//! The SOCKS5 service: what the local client says and is told, and the
//! messages that the two ends of the tunnel exchange about it.
//!
//! Between the two ends a command is one byte, 1 for connect and 2 for bind;
//! a connect is followed by the length of its target in four bytes,
//! little-endian, and the target as text. A response is one byte, 0 for
//! success and 1 to 4 for the failures; a success is followed by the length
//! of an address in four bytes and the address as SOCKS5 writes it.

use crate::api::IoErrorKind;
use crate::wire::{
    Parsed, Reading, be16, from_be16, from_le32, le32, lemma_le32_roundtrip, read_as, u16_from_be,
    u16_to_be, u32_from_le, u32_to_le,
};
use crate::text::{concat, decimal, from_utf8_lossy, lossy_text, u64_to_string};
use vstd::prelude::*;
use vstd::slice::*;
use vstd::string::*;
use vstd::utf8::encode_utf8;

verus! {

pub const VERSION: u8 = 0x05;

pub const AUTHENTICATION_NONE: u8 = 0x00;

pub const ID_CMD_CONNECT: u8 = 0x01;

pub const ID_CMD_BIND: u8 = 0x02;

pub const ID_RESP_OK: u8 = 0x00;

pub const ID_RESP_NETWORK_UNREACHABLE: u8 = 0x01;

pub const ID_RESP_HOST_UNREACHABLE: u8 = 0x02;

pub const ID_RESP_CONNECTION_REFUSED: u8 = 0x03;

pub const ID_RESP_BIND_FAILED: u8 = 0x04;

pub const RSP_OK: u8 = 0x00;

pub const RSP_GENERAL_SOCKS_SERVER_FAILURE: u8 = 0x01;

pub const RSP_NETWORK_UNREACHABLE: u8 = 0x03;

pub const RSP_HOST_UNREACHABLE: u8 = 0x04;

pub const RSP_CONNECTION_REFUSED: u8 = 0x05;

pub const RSP_COMMAND_NOT_SUPPORTED: u8 = 0x07;

pub const RSP_ADDRESS_TYPE_NOT_SUPPORTED: u8 = 0x08;

/// Why the talk with the local client ended.
#[derive(Clone, Copy, Debug, PartialEq, Eq, Structural)]
pub enum Error {
    Io(IoErrorKind),
    UnsupportedVersion(u8),
    UnsupportedAuthentication(u8),
    UnsupportedCommand(u8),
    AddressTypeNotSupported(u8),
}

/// What the frontend asks of the backend. The target of a connect is
/// `host:port`.
#[derive(Debug, PartialEq, Eq)]
pub enum Command {
    Connect(String),
    Bind,
}

impl Command {
    /// The bytes that carry this command through the tunnel.
    pub open spec fn wire(&self) -> Seq<u8> {
        match self {
            Command::Connect(target) => seq![ID_CMD_CONNECT] + le32(
                encode_utf8(target@).len() as u32,
            ) + encode_utf8(target@),
            Command::Bind => seq![ID_CMD_BIND],
        }
    }

    /// Writes the command behind what `stream` holds. A target of more than
    /// 32 bits of length cannot be written: only the first byte is, and the
    /// call fails.
    pub fn send(&self, stream: &mut Vec<u8>) -> (r: Result<(), IoErrorKind>)
        ensures
            match self {
                Command::Connect(target) if encode_utf8(target@).len() > u32::MAX => {
                    &&& r == Err::<(), IoErrorKind>(IoErrorKind::InvalidData)
                    &&& final(stream)@ == old(stream)@ + seq![ID_CMD_CONNECT]
                },
                _ => r is Ok && final(stream)@ == old(stream)@ + self.wire(),
            },
    {
        match self {
            Command::Connect(target) => {
                let bytes: &[u8] = target.as_str().as_bytes();
                stream.push(ID_CMD_CONNECT);
                assert(stream@ =~= old(stream)@ + seq![ID_CMD_CONNECT]);
                if bytes.len() > 0xffff_ffff {
                    return Err(IoErrorKind::InvalidData);
                }
                let len: [u8; 4] = u32_to_le(bytes.len() as u32);
                stream.extend_from_slice(len.as_slice());
                stream.extend_from_slice(bytes);
                assert(stream@ =~= old(stream)@ + self.wire());
            },
            Command::Bind => {
                stream.push(ID_CMD_BIND);
                assert(stream@ =~= old(stream)@ + self.wire());
            },
        }
        Ok(())
    }

    /// Reads the command at the start of `stream`. The target is taken as
    /// text even where its bytes are not valid UTF-8. A first byte that
    /// names no command is invalid data.
    pub fn receive(stream: &[u8]) -> (r: Result<Parsed<Command>, IoErrorKind>)
        ensures
            read_as(r, tagged_reading(stream@, ID_CMD_CONNECT, ID_CMD_BIND, ID_CMD_BIND)),
            r matches Ok(Parsed::Complete(n, command)) ==> match command {
                Command::Connect(target) => stream@[0] == ID_CMD_CONNECT && target@ == lossy_text(
                    stream@.subrange(5, n as int),
                ),
                Command::Bind => stream@[0] == ID_CMD_BIND,
            },
    {
        if stream.len() == 0 {
            return Ok(Parsed::Incomplete(1));
        }
        let id: u8 = stream[0];
        if id == ID_CMD_CONNECT {
            match counted(stream) {
                Err(e) => Err(e),
                Ok(Parsed::Incomplete(n)) => Ok(Parsed::Incomplete(n)),
                Ok(Parsed::Complete(n, target)) => {
                    let target: String = from_utf8_lossy(target.as_slice());
                    Ok(Parsed::Complete(n, Command::Connect(target)))
                },
            }
        } else if id == ID_CMD_BIND {
            Ok(Parsed::Complete(1, Command::Bind))
        } else {
            Err(IoErrorKind::InvalidData)
        }
    }
}

/// What is found at the start of `buf` where a message is one byte, and the
/// byte `counted` is followed by a length in four bytes and as many bytes.
/// The bytes from `first` to `last` stand alone.
pub open spec fn tagged_reading(buf: Seq<u8>, counted: u8, first: u8, last: u8) -> Reading<
    IoErrorKind,
> {
    if buf.len() == 0 {
        Reading::Incomplete(1)
    } else if buf[0] == counted {
        counted_reading(buf)
    } else if first <= buf[0] <= last {
        Reading::Complete(1)
    } else {
        Reading::Invalid(IoErrorKind::InvalidData)
    }
}

/// What is found at the start of `buf` where one byte is followed by a
/// length in four bytes, little-endian, and as many bytes. A message too
/// long for the machine to hold is invalid data.
pub open spec fn counted_reading(buf: Seq<u8>) -> Reading<IoErrorKind> {
    if buf.len() < 5 {
        Reading::Incomplete(5)
    } else {
        let total = 5 + from_le32(buf[1], buf[2], buf[3], buf[4]);
        if total > usize::MAX {
            Reading::Invalid(IoErrorKind::InvalidData)
        } else if buf.len() < total {
            Reading::Incomplete(total as nat)
        } else {
            Reading::Complete(total as nat)
        }
    }
}

/// Reads what follows the first byte of a counted message: its length and
/// its bytes.
fn counted(stream: &[u8]) -> (r: Result<Parsed<Vec<u8>>, IoErrorKind>)
    requires
        stream@.len() > 0,
    ensures
        read_as(r, counted_reading(stream@)),
        r matches Ok(Parsed::Complete(n, bytes)) ==> bytes@ == stream@.subrange(5, n as int),
{
    if stream.len() < 5 {
        return Ok(Parsed::Incomplete(5));
    }
    let len: u32 = u32_from_le(stream[1], stream[2], stream[3], stream[4]);
    if len as u64 + 5 > usize::MAX as u64 {
        return Err(IoErrorKind::InvalidData);
    }
    let total: usize = len as usize + 5;
    if stream.len() < total {
        return Ok(Parsed::Incomplete(total));
    }
    let bytes: Vec<u8> = slice_to_vec(slice_subrange(stream, 5, total));
    Ok(Parsed::Complete(total, bytes))
}

/// A counted message that was read is its first byte, the length of what it
/// carries, and what it carries.
proof fn lemma_counted(buf: Seq<u8>, bytes: Seq<u8>)
    requires
        counted_reading(buf) is Complete,
        bytes == buf.subrange(5, counted_reading(buf)->Complete_0 as int),
    ensures
        buf.subrange(0, counted_reading(buf)->Complete_0 as int) == seq![buf[0]] + le32(
            bytes.len() as u32,
        ) + bytes,
{
    let n = counted_reading(buf)->Complete_0 as int;
    crate::wire::lemma_from_le32_roundtrip(buf[1], buf[2], buf[3], buf[4]);
    assert(buf.subrange(0, n) =~= seq![buf[0]] + le32(bytes.len() as u32) + bytes);
}

/// What the backend answers. The address of a success is written as SOCKS5
/// writes addresses: the type, the address, the port.
#[derive(Debug, PartialEq, Eq)]
pub enum Response {
    /// Done; the address that the backend bound or connected from follows.
    Success(Vec<u8>),
    NetworkUnreachable,
    HostUnreachable,
    ConnectionRefused,
    BindFailed,
}

/// The reply that tells the local client of a failure: version, code, a
/// reserved byte, and the IPv4 address 0.0.0.0 with port 0.
pub open spec fn failure_reply(code: u8) -> Seq<u8> {
    seq![VERSION, code, 0x00, 0x01, 0x00, 0x00, 0x00, 0x00, 0x00, 0x00]
}

impl Response {
    pub open spec fn spec_is_ok(&self) -> bool {
        self is Success
    }

    #[verifier::when_used_as_spec(spec_is_ok)]
    pub fn is_ok(&self) -> (ok: bool)
        ensures
            ok == self.spec_is_ok(),
    {
        match self {
            Response::Success(_) => true,
            _ => false,
        }
    }

    /// The bytes that tell the local client of this response.
    pub open spec fn client_reply(&self) -> Seq<u8> {
        match self {
            Response::Success(data) => seq![VERSION, RSP_OK, 0x00] + data@,
            Response::NetworkUnreachable => failure_reply(RSP_NETWORK_UNREACHABLE),
            Response::HostUnreachable => failure_reply(RSP_HOST_UNREACHABLE),
            Response::ConnectionRefused => failure_reply(RSP_CONNECTION_REFUSED),
            Response::BindFailed => failure_reply(RSP_GENERAL_SOCKS_SERVER_FAILURE),
        }
    }

    /// Writes what the local client is to be told behind what `writer`
    /// holds.
    pub fn answer_to_client(&self, writer: &mut Vec<u8>)
        ensures
            final(writer)@ == old(writer)@ + self.client_reply(),
    {
        match self {
            Response::NetworkUnreachable => write_failure(writer, RSP_NETWORK_UNREACHABLE),
            Response::HostUnreachable => write_failure(writer, RSP_HOST_UNREACHABLE),
            Response::ConnectionRefused => write_failure(writer, RSP_CONNECTION_REFUSED),
            Response::BindFailed => write_failure(writer, RSP_GENERAL_SOCKS_SERVER_FAILURE),
            Response::Success(data) => {
                let head: [u8; 3] = [VERSION, RSP_OK, 0x00];
                writer.extend_from_slice(head.as_slice());
                writer.extend_from_slice(data.as_slice());
                assert(writer@ =~= old(writer)@ + self.client_reply());
            },
        }
    }

    /// The bytes that carry this response through the tunnel.
    pub open spec fn wire(&self) -> Seq<u8> {
        match self {
            Response::Success(data) => seq![ID_RESP_OK] + le32(data@.len() as u32) + data@,
            Response::NetworkUnreachable => seq![ID_RESP_NETWORK_UNREACHABLE],
            Response::HostUnreachable => seq![ID_RESP_HOST_UNREACHABLE],
            Response::ConnectionRefused => seq![ID_RESP_CONNECTION_REFUSED],
            Response::BindFailed => seq![ID_RESP_BIND_FAILED],
        }
    }

    /// Writes the response behind what `stream` holds. An address of more
    /// than 32 bits of length cannot be written: only the first byte is,
    /// and the call fails.
    pub fn send(&self, stream: &mut Vec<u8>) -> (r: Result<(), IoErrorKind>)
        ensures
            match self {
                Response::Success(data) if data@.len() > u32::MAX => {
                    &&& r == Err::<(), IoErrorKind>(IoErrorKind::InvalidData)
                    &&& final(stream)@ == old(stream)@ + seq![ID_RESP_OK]
                },
                _ => r is Ok && final(stream)@ == old(stream)@ + self.wire(),
            },
    {
        match self {
            Response::Success(data) => {
                stream.push(ID_RESP_OK);
                assert(stream@ =~= old(stream)@ + seq![ID_RESP_OK]);
                if data.len() > 0xffff_ffff {
                    return Err(IoErrorKind::InvalidData);
                }
                let len: [u8; 4] = u32_to_le(data.len() as u32);
                stream.extend_from_slice(len.as_slice());
                stream.extend_from_slice(data.as_slice());
            },
            Response::NetworkUnreachable => {
                stream.push(ID_RESP_NETWORK_UNREACHABLE);
            },
            Response::HostUnreachable => {
                stream.push(ID_RESP_HOST_UNREACHABLE);
            },
            Response::ConnectionRefused => {
                stream.push(ID_RESP_CONNECTION_REFUSED);
            },
            Response::BindFailed => {
                stream.push(ID_RESP_BIND_FAILED);
            },
        }
        assert(stream@ =~= old(stream)@ + self.wire());
        Ok(())
    }

    /// Reads the response at the start of `stream`. A first byte that names
    /// no response is invalid data.
    pub fn receive(stream: &[u8]) -> (r: Result<Parsed<Response>, IoErrorKind>)
        ensures
            read_as(
                r,
                tagged_reading(
                    stream@,
                    ID_RESP_OK,
                    ID_RESP_NETWORK_UNREACHABLE,
                    ID_RESP_BIND_FAILED,
                ),
            ),
            r matches Ok(Parsed::Complete(n, response)) ==> stream@.subrange(0, n as int)
                == response.wire(),
    {
        if stream.len() == 0 {
            return Ok(Parsed::Incomplete(1));
        }
        let code: u8 = stream[0];
        if code == ID_RESP_OK {
            match counted(stream) {
                Err(e) => Err(e),
                Ok(Parsed::Incomplete(n)) => Ok(Parsed::Incomplete(n)),
                Ok(Parsed::Complete(n, data)) => {
                    proof {
                        lemma_counted(stream@, data@);
                    }
                    Ok(Parsed::Complete(n, Response::Success(data)))
                },
            }
        } else {
            let response: Response = if code == ID_RESP_NETWORK_UNREACHABLE {
                Response::NetworkUnreachable
            } else if code == ID_RESP_HOST_UNREACHABLE {
                Response::HostUnreachable
            } else if code == ID_RESP_CONNECTION_REFUSED {
                Response::ConnectionRefused
            } else if code == ID_RESP_BIND_FAILED {
                Response::BindFailed
            } else {
                return Err(IoErrorKind::InvalidData);
            };
            assert(stream@.subrange(0, 1) =~= seq![code]);
            Ok(Parsed::Complete(1, response))
        }
    }
}

fn write_failure(writer: &mut Vec<u8>, code: u8)
    ensures
        final(writer)@ == old(writer)@ + failure_reply(code),
{
    let reply: [u8; 10] = [VERSION, code, 0x00, 0x01, 0x00, 0x00, 0x00, 0x00, 0x00, 0x00];
    writer.extend_from_slice(reply.as_slice());
    assert(writer@ =~= old(writer)@ + failure_reply(code));
}

/// Round trip: a command that was sent is received as it was, whatever
/// follows it.
pub proof fn lemma_command_roundtrip(command: Command, rest: Seq<u8>)
    requires
        command matches Command::Connect(target) ==> encode_utf8(target@).len() + 5 <= usize::MAX
            && encode_utf8(target@).len() <= u32::MAX,
    ensures
        tagged_reading(command.wire() + rest, ID_CMD_CONNECT, ID_CMD_BIND, ID_CMD_BIND)
            == Reading::<IoErrorKind>::Complete(command.wire().len()),
        match command {
            Command::Connect(target) => (command.wire() + rest)[0] == ID_CMD_CONNECT && lossy_text(
                (command.wire() + rest).subrange(5, command.wire().len() as int),
            ) == target@,
            Command::Bind => (command.wire() + rest)[0] == ID_CMD_BIND,
        },
{
    let buf = command.wire() + rest;
    match command {
        Command::Connect(target) => {
            let bytes = encode_utf8(target@);
            lemma_le32_roundtrip(bytes.len() as u32);
            let l = le32(bytes.len() as u32);
            assert(buf[1] == l[0] && buf[2] == l[1] && buf[3] == l[2] && buf[4] == l[3]);
            assert(buf.subrange(5, command.wire().len() as int) =~= bytes);
            vstd::utf8::encode_utf8_valid_utf8(target@);
            vstd::utf8::encode_utf8_decode_utf8(target@);
        },
        Command::Bind => {},
    }
}

/// Round trip: a response that was sent is received as it was, whatever
/// follows it.
pub proof fn lemma_response_roundtrip(response: Response, rest: Seq<u8>)
    requires
        response matches Response::Success(data) ==> data@.len() + 5 <= usize::MAX && data@.len()
            <= u32::MAX,
    ensures
        tagged_reading(
            response.wire() + rest,
            ID_RESP_OK,
            ID_RESP_NETWORK_UNREACHABLE,
            ID_RESP_BIND_FAILED,
        ) == Reading::<IoErrorKind>::Complete(response.wire().len()),
        (response.wire() + rest).subrange(0, response.wire().len() as int) == response.wire(),
{
    let buf = response.wire() + rest;
    assert(buf.subrange(0, response.wire().len() as int) =~= response.wire());
    match response {
        Response::Success(data) => {
            lemma_le32_roundtrip(data@.len() as u32);
            let l = le32(data@.len() as u32);
            assert(buf[1] == l[0] && buf[2] == l[1] && buf[3] == l[2] && buf[4] == l[3]);
        },
        _ => {},
    }
}

/// Where the local client wants to go, as it wrote it: an IPv4 address, a
/// name, or an IPv6 address, each with a port.
#[derive(Debug, PartialEq, Eq)]
pub enum Destination {
    V4([u8; 4], u16),
    Domain(Vec<u8>, u16),
    V6([u8; 16], u16),
}

/// An IPv4 address as text: its four bytes in decimal, with dots between.
pub open spec fn dotted(address: [u8; 4]) -> Seq<char> {
    decimal(address@[0] as nat) + "."@ + decimal(address@[1] as nat) + "."@ + decimal(
        address@[2] as nat,
    ) + "."@ + decimal(address@[3] as nat)
}

/// An IPv4 address as text.
pub fn ipv4_text(address: &[u8; 4]) -> (text: String)
    ensures
        text@ == dotted(*address),
{
    let mut text: String = u64_to_string(address[0] as u64);
    text = concat(text, ".");
    text = concat(text, u64_to_string(address[1] as u64).as_str());
    text = concat(text, ".");
    text = concat(text, u64_to_string(address[2] as u64).as_str());
    text = concat(text, ".");
    concat(text, u64_to_string(address[3] as u64).as_str())
}

/// A host and a port as the target of a connection: the host, a colon, and
/// the port in decimal.
pub fn host_port(host: &str, port: u16) -> (target: String)
    ensures
        target@ == host@ + ":"@ + decimal(port as nat),
{
    let target: String = concat(host.to_owned(), ":");
    concat(target, u64_to_string(port as u64).as_str())
}

impl Destination {
    pub open spec fn spec_port(&self) -> u16 {
        match self {
            Destination::V4(_, port) => *port,
            Destination::Domain(_, port) => *port,
            Destination::V6(_, port) => *port,
        }
    }

    #[verifier::when_used_as_spec(spec_port)]
    pub fn port(&self) -> (port: u16)
        ensures
            port == self.spec_port(),
    {
        match self {
            Destination::V4(_, port) => *port,
            Destination::Domain(_, port) => *port,
            Destination::V6(_, port) => *port,
        }
    }

    /// The host as text: an IPv4 address with dots, a name as it is, bytes
    /// that are no text replaced. The text of an IPv6 address is not made
    /// here.
    pub fn host(&self) -> (host: Option<String>)
        ensures
            match self {
                Destination::V4(address, _) => host is Some && host->Some_0@ == dotted(*address),
                Destination::Domain(name, _) => host is Some && host->Some_0@ == lossy_text(name@),
                Destination::V6(_, _) => host is None,
            },
    {
        match self {
            Destination::V4(address, _) => Some(ipv4_text(address)),
            Destination::Domain(name, _) => Some(from_utf8_lossy(name.as_slice())),
            Destination::V6(_, _) => None,
        }
    }
}

/// The target of a connection to `destination`, as the backend takes it:
/// host, colon, port. The text of an IPv6 address is not made in this
/// library; for such a destination there is no answer, and the caller
/// joins the text of the address and the port with `host_port`.
pub fn target(destination: &Destination) -> (t: Option<String>)
    ensures
        match destination {
            Destination::V4(address, port) => t is Some && t->Some_0@ == dotted(*address) + ":"@
                + decimal(*port as nat),
            Destination::Domain(name, port) => t is Some && t->Some_0@ == lossy_text(name@)
                + ":"@ + decimal(*port as nat),
            Destination::V6(_, _) => t is None,
        },
{
    match destination.host() {
        Some(host) => Some(host_port(host.as_str(), destination.port())),
        None => None,
    }
}

/// What the local client asks for.
#[derive(Debug, PartialEq, Eq)]
pub enum Request {
    Connect(Destination),
    Bind,
}

/// What is found at the start of `buf` where the local client writes its
/// request: version, command, a reserved byte, the type of the address, the
/// address and the port.
///
/// The version is judged first, then the type of the address, and the
/// command only when the whole request is there.
pub open spec fn request_reading(buf: Seq<u8>) -> Reading<Error> {
    if buf.len() < 4 {
        Reading::Incomplete(4)
    } else if buf[0] != VERSION {
        Reading::Invalid(Error::UnsupportedVersion(buf[0]))
    } else if buf[3] != 0x01 && buf[3] != 0x03 && buf[3] != 0x04 {
        Reading::Invalid(Error::AddressTypeNotSupported(buf[3]))
    } else if buf[3] == 0x03 && buf.len() < 5 {
        Reading::Incomplete(5)
    } else {
        let total: nat = if buf[3] == 0x01 {
            10
        } else if buf[3] == 0x03 {
            7 + buf[4] as nat
        } else {
            22
        };
        if buf.len() < total {
            Reading::Incomplete(total)
        } else if buf[1] != ID_CMD_CONNECT && buf[1] != ID_CMD_BIND {
            Reading::Invalid(Error::UnsupportedCommand(buf[1]))
        } else {
            Reading::Complete(total)
        }
    }
}

/// Whether `destination` is the address and port that the request in `buf`
/// holds.
pub open spec fn is_destination(destination: Destination, buf: Seq<u8>) -> bool {
    match destination {
        Destination::V4(address, port) => {
            &&& buf[3] == 0x01
            &&& address@ == buf.subrange(4, 8)
            &&& port == from_be16(buf[8], buf[9])
        },
        Destination::Domain(name, port) => {
            &&& buf[3] == 0x03
            &&& name@ == buf.subrange(5, 5 + buf[4])
            &&& port == from_be16(buf[5 + buf[4]], buf[6 + buf[4]])
        },
        Destination::V6(address, port) => {
            &&& buf[3] == 0x04
            &&& address@ == buf.subrange(4, 20)
            &&& port == from_be16(buf[20], buf[21])
        },
    }
}

impl Command {
    /// Reads the request of the local client at the start of `buf`.
    pub fn read(buf: &[u8]) -> (r: Result<Parsed<Request>, Error>)
        ensures
            read_as(r, request_reading(buf@)),
            r matches Ok(Parsed::Complete(_, request)) ==> match request {
                Request::Connect(destination) => buf@[1] == ID_CMD_CONNECT && is_destination(
                    destination,
                    buf@,
                ),
                Request::Bind => buf@[1] == ID_CMD_BIND,
            },
    {
        if buf.len() < 4 {
            return Ok(Parsed::Incomplete(4));
        }
        if buf[0] != VERSION {
            return Err(Error::UnsupportedVersion(buf[0]));
        }
        let kind: u8 = buf[3];
        let (total, destination): (usize, Destination) = if kind == 0x01 {
            if buf.len() < 10 {
                return Ok(Parsed::Incomplete(10));
            }
            let address: [u8; 4] = [buf[4], buf[5], buf[6], buf[7]];
            assert(address@ =~= buf@.subrange(4, 8));
            (10, Destination::V4(address, u16_from_be(buf[8], buf[9])))
        } else if kind == 0x03 {
            if buf.len() < 5 {
                return Ok(Parsed::Incomplete(5));
            }
            let len: usize = buf[4] as usize;
            if buf.len() < 7 + len {
                return Ok(Parsed::Incomplete(7 + len));
            }
            let name: Vec<u8> = slice_to_vec(slice_subrange(buf, 5, 5 + len));
            (7 + len, Destination::Domain(name, u16_from_be(buf[5 + len], buf[6 + len])))
        } else if kind == 0x04 {
            if buf.len() < 22 {
                return Ok(Parsed::Incomplete(22));
            }
            let address: [u8; 16] = [
                buf[4],
                buf[5],
                buf[6],
                buf[7],
                buf[8],
                buf[9],
                buf[10],
                buf[11],
                buf[12],
                buf[13],
                buf[14],
                buf[15],
                buf[16],
                buf[17],
                buf[18],
                buf[19],
            ];
            assert(address@ =~= buf@.subrange(4, 20));
            (22, Destination::V6(address, u16_from_be(buf[20], buf[21])))
        } else {
            return Err(Error::AddressTypeNotSupported(kind));
        };
        let command: u8 = buf[1];
        if command == ID_CMD_CONNECT {
            Ok(Parsed::Complete(total, Request::Connect(destination)))
        } else if command == ID_CMD_BIND {
            Ok(Parsed::Complete(total, Request::Bind))
        } else {
            Err(Error::UnsupportedCommand(command))
        }
    }
}

/// What is found at the start of `buf` where the local client greets:
/// version, the number of authentication methods it offers, and the methods.
/// Only version 5 is spoken, and the client must offer to go without
/// authentication.
pub open spec fn greeting_reading(buf: Seq<u8>) -> Reading<Error> {
    if buf.len() < 2 {
        Reading::Incomplete(2)
    } else if buf[0] != VERSION {
        Reading::Invalid(Error::UnsupportedVersion(buf[0]))
    } else if buf.len() < 2 + buf[1] {
        Reading::Incomplete(2 + buf[1] as nat)
    } else if !buf.subrange(2, 2 + buf[1]).contains(AUTHENTICATION_NONE) {
        Reading::Invalid(Error::UnsupportedAuthentication(AUTHENTICATION_NONE))
    } else {
        Reading::Complete(2 + buf[1] as nat)
    }
}

/// Reads the greeting of the local client at the start of `buf`.
pub fn handshake(buf: &[u8]) -> (r: Result<Parsed<()>, Error>)
    ensures
        read_as(r, greeting_reading(buf@)),
{
    if buf.len() < 2 {
        return Ok(Parsed::Incomplete(2));
    }
    if buf[0] != VERSION {
        return Err(Error::UnsupportedVersion(buf[0]));
    }
    let nb_auth: usize = buf[1] as usize;
    let total: usize = 2 + nb_auth;
    if buf.len() < total {
        return Ok(Parsed::Incomplete(total));
    }
    let ghost methods = buf@.subrange(2, total as int);
    let mut i: usize = 2;
    while i < total
        invariant
            2 <= i <= total <= buf@.len(),
            total == 2 + buf@[1],
            buf@[0] == VERSION,
            methods == buf@.subrange(2, total as int),
            forall|j: int| 0 <= j < i - 2 ==> methods[j] != AUTHENTICATION_NONE,
        decreases total - i,
    {
        if buf[i] == AUTHENTICATION_NONE {
            assert(methods[i - 2] == AUTHENTICATION_NONE);
            assert(methods.contains(AUTHENTICATION_NONE));
            return Ok(Parsed::Complete(total, ()));
        }
        i = i + 1;
    }
    Err(Error::UnsupportedAuthentication(AUTHENTICATION_NONE))
}

/// What the greeting is answered with: version 5, no authentication.
pub fn method_selection() -> (reply: [u8; 2])
    ensures
        reply@ == seq![VERSION, AUTHENTICATION_NONE],
{
    let reply: [u8; 2] = [VERSION, AUTHENTICATION_NONE];
    assert(reply@ =~= seq![VERSION, AUTHENTICATION_NONE]);
    reply
}

/// The bytes that tell the local client why it is turned away: no method
/// is acceptable for a wrong version or a client that insists on
/// authentication, and the failure replies for an unknown command or type
/// of address. Nothing is said after an I/O error.
pub open spec fn refusal_spec(error: Error) -> Option<Seq<u8>> {
    match error {
        Error::Io(_) => None,
        Error::UnsupportedVersion(_) => Some(seq![VERSION, 0xFF]),
        Error::UnsupportedAuthentication(_) => Some(seq![VERSION, 0xFF]),
        Error::UnsupportedCommand(_) => Some(failure_reply(RSP_COMMAND_NOT_SUPPORTED)),
        Error::AddressTypeNotSupported(_) => Some(
            failure_reply(RSP_ADDRESS_TYPE_NOT_SUPPORTED),
        ),
    }
}

/// The bytes that tell the local client why it is turned away, if it is
/// told.
pub fn refusal(error: Error) -> (reply: Option<Vec<u8>>)
    ensures
        reply is Some == refusal_spec(error) is Some,
        reply is Some ==> reply->Some_0@ == refusal_spec(error)->Some_0,
{
    let mut reply: Vec<u8> = Vec::new();
    match error {
        Error::Io(_) => {
            return None;
        },
        Error::UnsupportedVersion(_) | Error::UnsupportedAuthentication(_) => {
            reply.push(VERSION);
            reply.push(0xFF);
            assert(reply@ =~= seq![VERSION, 0xFF]);
        },
        Error::UnsupportedCommand(_) => {
            write_failure(&mut reply, RSP_COMMAND_NOT_SUPPORTED);
            assert(reply@ =~= failure_reply(RSP_COMMAND_NOT_SUPPORTED));
        },
        Error::AddressTypeNotSupported(_) => {
            write_failure(&mut reply, RSP_ADDRESS_TYPE_NOT_SUPPORTED);
            assert(reply@ =~= failure_reply(RSP_ADDRESS_TYPE_NOT_SUPPORTED));
        },
    }
    Some(reply)
}

/// The address of a socket.
#[derive(Clone, Copy, Debug, PartialEq, Eq)]
pub enum SocketAddress {
    V4([u8; 4], u16),
    V6([u8; 16], u16),
}

/// The address as SOCKS5 writes it: the type, 1 for IPv4 and 4 for IPv6, the
/// address, and the port, most significant byte first.
pub open spec fn encoded_address(address: SocketAddress) -> Seq<u8> {
    match address {
        SocketAddress::V4(ip, port) => seq![0x01u8] + ip@ + be16(port),
        SocketAddress::V6(ip, port) => seq![0x04u8] + ip@ + be16(port),
    }
}

/// The address as SOCKS5 writes it.
pub fn encode_addr(address: &SocketAddress) -> (data: Vec<u8>)
    ensures
        data@ == encoded_address(*address),
{
    let mut data: Vec<u8> = Vec::with_capacity(192);
    match address {
        SocketAddress::V4(ip, port) => {
            data.push(0x01);
            data.extend_from_slice(ip.as_slice());
            let p: [u8; 2] = u16_to_be(*port);
            data.extend_from_slice(p.as_slice());
        },
        SocketAddress::V6(ip, port) => {
            data.push(0x04);
            data.extend_from_slice(ip.as_slice());
            let p: [u8; 2] = u16_to_be(*port);
            data.extend_from_slice(p.as_slice());
        },
    }
    assert(data@ =~= encoded_address(*address));
    data
}

/// The backend of the service: what it answers to what happened when it
/// tried to do what was asked.
pub struct Server {}

impl Server {
    /// The answer to a connection or a binding that was made from or at
    /// `local`.
    pub fn established(local: &SocketAddress) -> (response: Response)
        ensures
            response matches Response::Success(data) && data@ == encoded_address(*local),
    {
        Response::Success(encode_addr(local))
    }

    /// The answer to a connection that failed: the host is unreachable if
    /// the connection was aborted or timed out, the connection is refused if
    /// it was, and else the network is unreachable.
    pub fn connect_failed(kind: IoErrorKind) -> (response: Response)
        ensures
            response == match kind {
                IoErrorKind::ConnectionAborted | IoErrorKind::TimedOut => Response::HostUnreachable,
                IoErrorKind::ConnectionRefused => Response::ConnectionRefused,
                _ => Response::NetworkUnreachable,
            },
    {
        match kind {
            IoErrorKind::ConnectionAborted | IoErrorKind::TimedOut => Response::HostUnreachable,
            IoErrorKind::ConnectionRefused => Response::ConnectionRefused,
            _ => Response::NetworkUnreachable,
        }
    }

    /// The answer to a binding or an accepting that failed.
    pub fn bind_failed() -> (response: Response)
        ensures
            response == Response::BindFailed,
    {
        Response::BindFailed
    }
}

} // verus!
