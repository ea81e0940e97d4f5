//! The clipboard service: the lines of the local client, and the messages
//! that the two ends of the tunnel exchange.
//!
//! Between the two ends a command is one byte, 0 to read and 1 to write; a
//! write is followed by the length of the text in eight bytes,
//! little-endian, and the text. A response is one byte, 0 for the text
//! read, 1 for a failure, 2 for a write done; the text read follows its
//! byte like the text to write.

use crate::api::IoErrorKind;
use crate::text::{
    concat, debug_format, from_utf8_lossy, is_whole_line, lossy_text, order_of, quoted,
    split_order, str_eq,
};
use crate::wire::{
    Parsed, Reading, from_le64, le64, lemma_from_le64_roundtrip, lemma_le64_roundtrip, read_as,
    u64_from_le, u64_to_le,
};
use vstd::prelude::*;
use vstd::slice::*;
use vstd::string::*;

verus! {

pub const ID_READ: u8 = 0x0;

pub const ID_WRITE_TEXT: u8 = 0x1;

pub const ID_TEXT: u8 = 0x0;

pub const ID_FAILED: u8 = 0x1;

pub const ID_WRITE_DONE: u8 = 0x2;

/// What the frontend asks of the backend.
#[derive(Debug, PartialEq, Eq)]
pub enum Command {
    Read,
    WriteText(Vec<u8>),
}

/// What is found at the start of `buf` where a message is one byte, and
/// the byte `counted` is followed by a length in eight bytes, little-endian,
/// and as many bytes. The other bytes up to `last` stand alone. A message
/// too long for the machine to hold is invalid data.
pub open spec fn tagged_reading(buf: Seq<u8>, counted: u8, last: u8) -> Reading<IoErrorKind> {
    if buf.len() < 1 {
        Reading::Incomplete(1)
    } else if buf[0] == counted {
        if buf.len() < 9 {
            Reading::Incomplete(9)
        } else {
            let total = 9 + from_le64(buf.subrange(1, 9));
            if total > usize::MAX {
                Reading::Invalid(IoErrorKind::InvalidData)
            } else if buf.len() < total {
                Reading::Incomplete(total as nat)
            } else {
                Reading::Complete(total as nat)
            }
        }
    } else if buf[0] <= last {
        Reading::Complete(1)
    } else {
        Reading::Invalid(IoErrorKind::InvalidData)
    }
}

/// Writes a byte, the length of `data` and `data` behind what `stream`
/// holds.
fn send_counted(stream: &mut Vec<u8>, id: u8, data: &Vec<u8>)
    ensures
        final(stream)@ == old(stream)@ + (seq![id] + le64(data@.len() as u64) + data@),
{
    stream.push(id);
    let len: [u8; 8] = u64_to_le(data.len() as u64);
    stream.extend_from_slice(len.as_slice());
    stream.extend_from_slice(data.as_slice());
    assert(stream@ =~= old(stream)@ + (seq![id] + le64(data@.len() as u64) + data@));
}

/// Reads what follows the first byte of a counted message.
fn receive_counted(stream: &[u8]) -> (r: Result<Parsed<Vec<u8>>, IoErrorKind>)
    requires
        stream@.len() >= 1,
    ensures
        read_as(r, tagged_reading(stream@, stream@[0], stream@[0])),
        r matches Ok(Parsed::Complete(n, data)) ==> stream@.subrange(0, n as int) == seq![
            stream@[0],
        ] + le64(data@.len() as u64) + data@,
{
    if stream.len() < 9 {
        return Ok(Parsed::Incomplete(9));
    }
    let len: u64 = u64_from_le(stream, 1);
    if len > (usize::MAX - 9) as u64 {
        return Err(IoErrorKind::InvalidData);
    }
    let total: usize = len as usize + 9;
    if stream.len() < total {
        return Ok(Parsed::Incomplete(total));
    }
    let data: Vec<u8> = slice_to_vec(slice_subrange(stream, 9, total));
    proof {
        lemma_from_le64_roundtrip(stream@.subrange(1, 9));
        assert(stream@.subrange(0, total as int) =~= seq![stream@[0]] + stream@.subrange(1, 9)
            + data@);
    }
    Ok(Parsed::Complete(total, data))
}

impl Command {
    /// The bytes that carry this command through the tunnel.
    pub open spec fn wire(&self) -> Seq<u8> {
        match self {
            Command::Read => seq![ID_READ],
            Command::WriteText(data) => seq![ID_WRITE_TEXT] + le64(data@.len() as u64) + data@,
        }
    }

    /// Writes the command behind what `stream` holds.
    pub fn send(&self, stream: &mut Vec<u8>)
        ensures
            final(stream)@ == old(stream)@ + self.wire(),
    {
        match self {
            Command::Read => {
                stream.push(ID_READ);
                assert(stream@ =~= old(stream)@ + self.wire());
            },
            Command::WriteText(data) => {
                send_counted(stream, ID_WRITE_TEXT, data);
            },
        }
    }

    /// Reads the command at the start of `stream`. A first byte that names
    /// no command is invalid data.
    pub fn receive(stream: &[u8]) -> (r: Result<Parsed<Command>, IoErrorKind>)
        ensures
            read_as(r, tagged_reading(stream@, ID_WRITE_TEXT, ID_WRITE_TEXT)),
            r matches Ok(Parsed::Complete(n, command)) ==> stream@.subrange(0, n as int)
                == command.wire(),
    {
        if stream.len() < 1 {
            return Ok(Parsed::Incomplete(1));
        }
        let id: u8 = stream[0];
        if id == ID_READ {
            assert(stream@.subrange(0, 1) =~= seq![ID_READ]);
            Ok(Parsed::Complete(1, Command::Read))
        } else if id == ID_WRITE_TEXT {
            match receive_counted(stream) {
                Err(e) => Err(e),
                Ok(Parsed::Incomplete(n)) => Ok(Parsed::Incomplete(n)),
                Ok(Parsed::Complete(n, data)) => Ok(Parsed::Complete(n, Command::WriteText(data))),
            }
        } else {
            Err(IoErrorKind::InvalidData)
        }
    }
}

/// What the backend answers.
#[derive(Debug, PartialEq, Eq)]
pub enum Response {
    Text(Vec<u8>),
    Failed,
    WriteDone,
}

impl Response {
    /// The bytes that carry this response through the tunnel.
    pub open spec fn wire(&self) -> Seq<u8> {
        match self {
            Response::Text(data) => seq![ID_TEXT] + le64(data@.len() as u64) + data@,
            Response::Failed => seq![ID_FAILED],
            Response::WriteDone => seq![ID_WRITE_DONE],
        }
    }

    /// Writes the response behind what `stream` holds.
    pub fn send(&self, stream: &mut Vec<u8>)
        ensures
            final(stream)@ == old(stream)@ + self.wire(),
    {
        match self {
            Response::Text(data) => {
                send_counted(stream, ID_TEXT, data);
            },
            Response::Failed => {
                stream.push(ID_FAILED);
                assert(stream@ =~= old(stream)@ + self.wire());
            },
            Response::WriteDone => {
                stream.push(ID_WRITE_DONE);
                assert(stream@ =~= old(stream)@ + self.wire());
            },
        }
    }

    /// Reads the response at the start of `stream`. A first byte that names
    /// no response is invalid data.
    pub fn receive(stream: &[u8]) -> (r: Result<Parsed<Response>, IoErrorKind>)
        ensures
            read_as(r, tagged_reading(stream@, ID_TEXT, ID_WRITE_DONE)),
            r matches Ok(Parsed::Complete(n, response)) ==> stream@.subrange(0, n as int)
                == response.wire(),
    {
        if stream.len() < 1 {
            return Ok(Parsed::Incomplete(1));
        }
        let id: u8 = stream[0];
        if id == ID_TEXT {
            match receive_counted(stream) {
                Err(e) => Err(e),
                Ok(Parsed::Incomplete(n)) => Ok(Parsed::Incomplete(n)),
                Ok(Parsed::Complete(n, data)) => Ok(Parsed::Complete(n, Response::Text(data))),
            }
        } else if id == ID_FAILED {
            assert(stream@.subrange(0, 1) =~= seq![ID_FAILED]);
            Ok(Parsed::Complete(1, Response::Failed))
        } else if id == ID_WRITE_DONE {
            assert(stream@.subrange(0, 1) =~= seq![ID_WRITE_DONE]);
            Ok(Parsed::Complete(1, Response::WriteDone))
        } else {
            Err(IoErrorKind::InvalidData)
        }
    }
}

/// Round trip: a command that was sent is received as it was, whatever
/// follows it.
pub proof fn lemma_command_roundtrip(command: Command, rest: Seq<u8>)
    requires
        command matches Command::WriteText(data) ==> data@.len() + 9 <= usize::MAX,
    ensures
        tagged_reading(command.wire() + rest, ID_WRITE_TEXT, ID_WRITE_TEXT) == Reading::<
            IoErrorKind,
        >::Complete(command.wire().len()),
        (command.wire() + rest).subrange(0, command.wire().len() as int) == command.wire(),
{
    let buf = command.wire() + rest;
    assert(buf.subrange(0, command.wire().len() as int) =~= command.wire());
    match command {
        Command::WriteText(data) => {
            lemma_le64_roundtrip(data@.len() as u64);
            assert(buf.subrange(1, 9) =~= le64(data@.len() as u64));
        },
        Command::Read => {},
    }
}

/// Round trip: a response that was sent is received as it was, whatever
/// follows it.
pub proof fn lemma_response_roundtrip(response: Response, rest: Seq<u8>)
    requires
        response matches Response::Text(data) ==> data@.len() + 9 <= usize::MAX,
    ensures
        tagged_reading(response.wire() + rest, ID_TEXT, ID_WRITE_DONE) == Reading::<
            IoErrorKind,
        >::Complete(response.wire().len()),
        (response.wire() + rest).subrange(0, response.wire().len() as int) == response.wire(),
{
    let buf = response.wire() + rest;
    assert(buf.subrange(0, response.wire().len() as int) =~= response.wire());
    match response {
        Response::Text(data) => {
            lemma_le64_roundtrip(data@.len() as u64);
            assert(buf.subrange(1, 9) =~= le64(data@.len() as u64));
        },
        _ => {},
    }
}

/// What a line of the local client asks for.
#[derive(Debug, PartialEq, Eq)]
pub enum Order {
    /// Tell what the clipboard holds.
    Read,
    /// Put this text into the clipboard.
    Write(String),
    /// End the session.
    Exit,
    /// Nothing that is known.
    Invalid,
}

/// What the command of a line, in capitals, asks for.
pub open spec fn is_order(order: Order, command: Seq<char>, argument: Seq<char>) -> bool {
    if command == "READ"@ || command == "GET"@ {
        order is Read
    } else if command == "WRITE"@ || command == "PUT"@ {
        order matches Order::Write(text) && text@ == argument
    } else if command == "EXIT"@ || command == "QUIT"@ {
        order is Exit
    } else {
        order is Invalid
    }
}

/// Reads a line of the local client. A line without a line feed at its end
/// was cut off: the connection is broken.
pub fn order(line: &str) -> (r: Result<Order, IoErrorKind>)
    ensures
        !crate::text::ends_with(line@, "\n"@) ==> r == Err::<Order, IoErrorKind>(
            IoErrorKind::BrokenPipe,
        ),
        crate::text::ends_with(line@, "\n"@) ==> r is Ok && is_order(
            r->Ok_0,
            order_of(line@).0,
            order_of(line@).1,
        ),
{
    if !is_whole_line(line) {
        return Err(IoErrorKind::BrokenPipe);
    }
    let (command, argument): (String, String) = split_order(line);
    Ok(order_named(command.as_str(), argument))
}

/// What a command in capitals asks for with its argument.
pub fn order_named(command: &str, argument: String) -> (r: Order)
    ensures
        is_order(r, command@, argument@),
{
    if str_eq(command, "READ") || str_eq(command, "GET") {
        Order::Read
    } else if str_eq(command, "WRITE") || str_eq(command, "PUT") {
        Order::Write(argument)
    } else if str_eq(command, "EXIT") || str_eq(command, "QUIT") {
        Order::Exit
    } else {
        Order::Invalid
    }
}

/// The line that tells the text read; `shown` is the text as it is to be
/// shown, between quotes.
pub fn text_reply(shown: &str) -> (line: String)
    ensures
        line@ == "ok "@ + shown@,
{
    concat("ok ".to_owned(), shown)
}

/// The line that answers a reading: the text between quotes, or `KO`. A
/// response that answers no reading gives no line.
pub fn read_reply(response: &Response) -> (line: Option<String>)
    ensures
        match response {
            Response::Text(value) => line is Some && line->Some_0@ == "ok "@ + quoted(
                lossy_text(value@),
            ),
            Response::Failed => line is Some && line->Some_0@ == "KO"@,
            Response::WriteDone => line is None,
        },
{
    match response {
        Response::Text(value) => {
            let text: String = from_utf8_lossy(value.as_slice());
            let shown: String = debug_format(text.as_str());
            Some(text_reply(shown.as_str()))
        },
        Response::Failed => Some("KO".to_owned()),
        Response::WriteDone => None,
    }
}

/// The line that answers a writing: `ok` or `KO`. A response that answers
/// no writing gives no line.
pub fn write_reply(response: &Response) -> (line: Option<String>)
    ensures
        match response {
            Response::WriteDone => line is Some && line->Some_0@ == "ok"@,
            Response::Failed => line is Some && line->Some_0@ == "KO"@,
            Response::Text(_) => line is None,
        },
{
    match response {
        Response::WriteDone => Some("ok".to_owned()),
        Response::Failed => Some("KO".to_owned()),
        Response::Text(_) => None,
    }
}

/// What a clipboard holds.
#[derive(Clone, Copy, Debug, PartialEq, Eq, Structural)]
pub enum ContentKind {
    Text,
    Image,
}

/// The response to a reading, given what the clipboard gave: its content,
/// or nothing if it could not be read. Only text is passed on.
pub fn read_response(content: Option<(ContentKind, Vec<u8>)>) -> (response: Response)
    ensures
        response == match content {
            Some((ContentKind::Text, data)) => Response::Text(data),
            _ => Response::Failed,
        },
{
    match content {
        Some((ContentKind::Text, data)) => Response::Text(data),
        _ => Response::Failed,
    }
}

/// The response to a writing, given whether the clipboard took the text.
pub fn write_response(written: bool) -> (response: Response)
    ensures
        response == if written {
            Response::WriteDone
        } else {
            Response::Failed
        },
{
    if written {
        Response::WriteDone
    } else {
        Response::Failed
    }
}

} // verus!
