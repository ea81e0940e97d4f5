//! The FTP service: the commands of the local client and the replies it
//! gets, and the messages that the two ends of the tunnel exchange.
//!
//! Between the two ends a command is one byte, 0 to 6, then the length of a
//! path in eight bytes, little-endian, and the path as text. A reply is one
//! byte, 0 to 4; the reply to a question of size carries the size in eight
//! bytes behind it.

use crate::api::IoErrorKind;
use crate::text::{
    concat, debug_format, decimal, ends_with, from_utf8_lossy,
    lossy_text, quoted, split_once, str_eq, strip_suffix, to_uppercase, u64_to_string, uppercase,
    without_end, word_and_argument,
};
use crate::wire::{
    Parsed, Reading, from_le64, le64, lemma_le64_roundtrip, read_as, u64_from_le, u64_to_le,
};
use vstd::prelude::*;
use vstd::slice::*;
use vstd::string::*;
use vstd::utf8::encode_utf8;

verus! {

pub const ID_CWD: u8 = 0x0;

pub const ID_DELE: u8 = 0x1;

pub const ID_LIST: u8 = 0x2;

pub const ID_NLST: u8 = 0x3;

pub const ID_RETR: u8 = 0x4;

pub const ID_SIZE: u8 = 0x5;

pub const ID_STOR: u8 = 0x6;

pub const ID_DATA_TRANSFER_OK: u8 = 0x0;

pub const ID_CWD_OK: u8 = 0x1;

pub const ID_SIZE_OK: u8 = 0x2;

pub const ID_DELETE_OK: u8 = 0x3;

pub const ID_KO: u8 = 0x4;

/// What the frontend asks of the backend, each about a path.
#[derive(Debug, PartialEq, Eq)]
pub enum DataCommand {
    Cwd(String),
    Dele(String),
    List(String),
    NLst(String),
    Retr(String),
    Size(String),
    Stor(String),
}

impl DataCommand {
    /// The byte that stands for the command.
    pub open spec fn code(&self) -> u8 {
        match self {
            DataCommand::Cwd(_) => ID_CWD,
            DataCommand::Dele(_) => ID_DELE,
            DataCommand::List(_) => ID_LIST,
            DataCommand::NLst(_) => ID_NLST,
            DataCommand::Retr(_) => ID_RETR,
            DataCommand::Size(_) => ID_SIZE,
            DataCommand::Stor(_) => ID_STOR,
        }
    }

    /// The path that the command is about.
    pub open spec fn path(&self) -> String {
        match self {
            DataCommand::Cwd(s) => *s,
            DataCommand::Dele(s) => *s,
            DataCommand::List(s) => *s,
            DataCommand::NLst(s) => *s,
            DataCommand::Retr(s) => *s,
            DataCommand::Size(s) => *s,
            DataCommand::Stor(s) => *s,
        }
    }

    /// The bytes that carry this command through the tunnel.
    pub open spec fn wire(&self) -> Seq<u8> {
        seq![self.code()] + le64(encode_utf8(self.path()@).len() as u64)
            + encode_utf8(self.path()@)
    }

    /// Whether the backend answers the command with a reply: else it
    /// answers with data.
    pub fn is_ftp_control(&self) -> (control: bool)
        ensures
            control == (self is Dele || self is Cwd || self is Size),
    {
        match self {
            DataCommand::Dele(_) | DataCommand::Cwd(_) | DataCommand::Size(_) => true,
            DataCommand::List(_) | DataCommand::NLst(_) | DataCommand::Retr(_) | DataCommand::Stor(
                _,
            ) => false,
        }
    }

    /// Whether data goes to the backend: else it comes from it.
    pub fn is_upload(&self) -> (upload: bool)
        ensures
            upload == (self is Stor),
    {
        match self {
            DataCommand::Stor(_) => true,
            _ => false,
        }
    }

    /// Writes the command behind what `stream` holds.
    pub fn send(&self, stream: &mut Vec<u8>)
        ensures
            final(stream)@ == old(stream)@ + self.wire(),
    {
        let (code, value): (u8, &String) = match self {
            DataCommand::Cwd(s) => (ID_CWD, s),
            DataCommand::Dele(s) => (ID_DELE, s),
            DataCommand::List(s) => (ID_LIST, s),
            DataCommand::NLst(s) => (ID_NLST, s),
            DataCommand::Retr(s) => (ID_RETR, s),
            DataCommand::Size(s) => (ID_SIZE, s),
            DataCommand::Stor(s) => (ID_STOR, s),
        };
        let bytes: &[u8] = value.as_str().as_bytes();
        stream.push(code);
        let len: [u8; 8] = u64_to_le(bytes.len() as u64);
        stream.extend_from_slice(len.as_slice());
        stream.extend_from_slice(bytes);
        assert(stream@ =~= old(stream)@ + self.wire());
    }

    /// Reads the command at the start of `stream`. The path is taken as
    /// text even where its bytes are not valid UTF-8. A first byte that
    /// names no command is invalid data, once the whole message is there.
    pub fn receive(stream: &[u8]) -> (r: Result<Parsed<DataCommand>, IoErrorKind>)
        ensures
            read_as(r, command_reading(stream@)),
            r matches Ok(Parsed::Complete(n, command)) ==> command.code() == stream@[0]
                && command.path()@ == lossy_text(stream@.subrange(9, n as int)),
    {
        if stream.len() < 9 {
            return Ok(Parsed::Incomplete(9));
        }
        let code: u8 = stream[0];
        let len: u64 = u64_from_le(stream, 1);
        if len > (usize::MAX - 9) as u64 {
            return Err(IoErrorKind::InvalidData);
        }
        let total: usize = len as usize + 9;
        if stream.len() < total {
            return Ok(Parsed::Incomplete(total));
        }
        let value: String = from_utf8_lossy(slice_subrange(stream, 9, total));
        match DataCommand::with_code(code, value) {
            Some(command) => Ok(Parsed::Complete(total, command)),
            None => Err(IoErrorKind::InvalidData),
        }
    }

    /// The command that a byte stands for, about `path`.
    pub fn with_code(code: u8, path: String) -> (r: Option<DataCommand>)
        ensures
            code > ID_STOR ==> r is None,
            code <= ID_STOR ==> r is Some && r->Some_0.code() == code && r->Some_0.path() == path,
    {
        if code == ID_CWD {
            Some(DataCommand::Cwd(path))
        } else if code == ID_DELE {
            Some(DataCommand::Dele(path))
        } else if code == ID_LIST {
            Some(DataCommand::List(path))
        } else if code == ID_NLST {
            Some(DataCommand::NLst(path))
        } else if code == ID_RETR {
            Some(DataCommand::Retr(path))
        } else if code == ID_SIZE {
            Some(DataCommand::Size(path))
        } else if code == ID_STOR {
            Some(DataCommand::Stor(path))
        } else {
            None
        }
    }
}

/// What is found at the start of `buf` where a command of the tunnel is
/// read. A message too long for the machine to hold is invalid data.
pub open spec fn command_reading(buf: Seq<u8>) -> Reading<IoErrorKind> {
    if buf.len() < 9 {
        Reading::Incomplete(9)
    } else {
        let total = 9 + from_le64(buf.subrange(1, 9));
        if total > usize::MAX {
            Reading::Invalid(IoErrorKind::InvalidData)
        } else if buf.len() < total {
            Reading::Incomplete(total as nat)
        } else if buf[0] > ID_STOR {
            Reading::Invalid(IoErrorKind::InvalidData)
        } else {
            Reading::Complete(total as nat)
        }
    }
}

/// Round trip: a command that was sent is read with the same code and the
/// same path, whatever follows it.
pub proof fn lemma_data_command_roundtrip(command: DataCommand, rest: Seq<u8>)
    requires
        encode_utf8(command.path()@).len() + 9 <= usize::MAX,
    ensures
        command_reading(command.wire() + rest) == Reading::<IoErrorKind>::Complete(
            command.wire().len(),
        ),
        (command.wire() + rest)[0] == command.code(),
        lossy_text((command.wire() + rest).subrange(9, command.wire().len() as int))
            == command.path()@,
{
    let path = encode_utf8(command.path()@);
    let buf = command.wire() + rest;
    lemma_le64_roundtrip(path.len() as u64);
    assert(buf.subrange(1, 9) =~= le64(path.len() as u64));
    assert(buf.subrange(9, command.wire().len() as int) =~= path);
    vstd::utf8::encode_utf8_valid_utf8(command.path()@);
    vstd::utf8::encode_utf8_decode_utf8(command.path()@);
}

/// What the backend answers to a command that asks for a reply, and how a
/// transfer of data ended.
#[derive(Clone, Copy, Debug, PartialEq, Eq, Structural)]
pub enum DataReply {
    DataTransferOk,
    CwdOk,
    SizeOk(u64),
    DeleteOk,
    Ko,
}

impl DataReply {
    pub open spec fn spec_is_ok(&self) -> bool {
        !(self is Ko)
    }

    #[verifier::when_used_as_spec(spec_is_ok)]
    pub fn is_ok(&self) -> (ok: bool)
        ensures
            ok == self.spec_is_ok(),
    {
        match self {
            DataReply::DataTransferOk | DataReply::CwdOk | DataReply::SizeOk(_) | DataReply::DeleteOk => true,
            DataReply::Ko => false,
        }
    }

    /// The bytes that carry this reply through the tunnel.
    pub open spec fn wire(&self) -> Seq<u8> {
        match self {
            DataReply::DataTransferOk => seq![ID_DATA_TRANSFER_OK],
            DataReply::CwdOk => seq![ID_CWD_OK],
            DataReply::SizeOk(size) => seq![ID_SIZE_OK] + le64(*size),
            DataReply::DeleteOk => seq![ID_DELETE_OK],
            DataReply::Ko => seq![ID_KO],
        }
    }

    /// Writes the reply behind what `stream` holds.
    pub fn send(&self, stream: &mut Vec<u8>)
        ensures
            final(stream)@ == old(stream)@ + self.wire(),
    {
        match self {
            DataReply::DataTransferOk => {
                stream.push(ID_DATA_TRANSFER_OK);
            },
            DataReply::CwdOk => {
                stream.push(ID_CWD_OK);
            },
            DataReply::SizeOk(size) => {
                stream.push(ID_SIZE_OK);
                let value: [u8; 8] = u64_to_le(*size);
                stream.extend_from_slice(value.as_slice());
            },
            DataReply::DeleteOk => {
                stream.push(ID_DELETE_OK);
            },
            DataReply::Ko => {
                stream.push(ID_KO);
            },
        }
        assert(stream@ =~= old(stream)@ + self.wire());
    }

    /// Reads the reply at the start of `stream`. A first byte that names no
    /// reply is invalid data.
    pub fn receive(stream: &[u8]) -> (r: Result<Parsed<DataReply>, IoErrorKind>)
        ensures
            read_as(r, reply_reading(stream@)),
            r matches Ok(Parsed::Complete(n, reply)) ==> stream@.subrange(0, n as int)
                == reply.wire(),
    {
        if stream.len() < 1 {
            return Ok(Parsed::Incomplete(1));
        }
        let code: u8 = stream[0];
        if code == ID_SIZE_OK {
            if stream.len() < 9 {
                return Ok(Parsed::Incomplete(9));
            }
            let size: u64 = u64_from_le(stream, 1);
            proof {
                crate::wire::lemma_from_le64_roundtrip(stream@.subrange(1, 9));
                assert(stream@.subrange(0, 9) =~= seq![ID_SIZE_OK] + stream@.subrange(1, 9));
            }
            return Ok(Parsed::Complete(9, DataReply::SizeOk(size)));
        }
        let reply: DataReply = if code == ID_DATA_TRANSFER_OK {
            DataReply::DataTransferOk
        } else if code == ID_CWD_OK {
            DataReply::CwdOk
        } else if code == ID_DELETE_OK {
            DataReply::DeleteOk
        } else if code == ID_KO {
            DataReply::Ko
        } else {
            return Err(IoErrorKind::InvalidData);
        };
        assert(stream@.subrange(0, 1) =~= seq![code]);
        Ok(Parsed::Complete(1, reply))
    }
}

/// What is found at the start of `buf` where a reply of the tunnel is read.
pub open spec fn reply_reading(buf: Seq<u8>) -> Reading<IoErrorKind> {
    if buf.len() < 1 {
        Reading::Incomplete(1)
    } else if buf[0] == ID_SIZE_OK {
        if buf.len() < 9 {
            Reading::Incomplete(9)
        } else {
            Reading::Complete(9)
        }
    } else if buf[0] <= ID_KO {
        Reading::Complete(1)
    } else {
        Reading::Invalid(IoErrorKind::InvalidData)
    }
}

/// Round trip: a reply that was sent is received as it was, whatever
/// follows it.
pub proof fn lemma_data_reply_roundtrip(reply: DataReply, rest: Seq<u8>)
    ensures
        reply_reading(reply.wire() + rest) == Reading::<IoErrorKind>::Complete(reply.wire().len()),
        (reply.wire() + rest).subrange(0, reply.wire().len() as int) == reply.wire(),
{
    let buf = reply.wire() + rest;
    assert(buf.subrange(0, reply.wire().len() as int) =~= reply.wire());
    match reply {
        DataReply::SizeOk(size) => {
            lemma_le64_roundtrip(size);
        },
        _ => {},
    }
}

/// The reply to a change of directory: it succeeds if the path exists.
pub fn cmd_cwd(found: bool) -> (reply: DataReply)
    ensures
        reply == if found {
            DataReply::CwdOk
        } else {
            DataReply::Ko
        },
{
    if found {
        DataReply::CwdOk
    } else {
        DataReply::Ko
    }
}

/// The reply to a deletion: it succeeds if the path existed and the file
/// was removed.
pub fn cmd_dele(found: bool, removed: bool) -> (reply: DataReply)
    ensures
        reply == if found && removed {
            DataReply::DeleteOk
        } else {
            DataReply::Ko
        },
{
    if found && removed {
        DataReply::DeleteOk
    } else {
        DataReply::Ko
    }
}

/// The reply to a question of size: the size, if the path exists and its
/// size is known.
pub fn cmd_size(found: bool, size: Option<u64>) -> (reply: DataReply)
    ensures
        reply == match size {
            Some(n) if found => DataReply::SizeOk(n),
            _ => DataReply::Ko,
        },
{
    match size {
        Some(n) => if found {
            DataReply::SizeOk(n)
        } else {
            DataReply::Ko
        },
        None => DataReply::Ko,
    }
}

/// What an entry of a directory is.
#[derive(Clone, Copy, Debug, PartialEq, Eq, Structural)]
pub enum EntryKind {
    Directory,
    File,
    Other,
}

/// The line of a listing for one entry, in the short format of `ls`: the
/// type with all permissions, one link, owner and group `ftp`, the size, 0
/// where it is not known, and the name.
pub open spec fn list_line(kind: EntryKind, size: Option<u64>, name: Seq<char>) -> Seq<char> {
    (match kind {
        EntryKind::Directory => "d"@,
        EntryKind::File => "-"@,
        EntryKind::Other => "l"@,
    }) + "rwxrwxrwx 1 ftp ftp "@ + (match size {
        Some(n) => decimal(n as nat),
        None => "0"@,
    }) + " "@ + name + "\r\n"@
}

/// The line of a listing for one entry.
pub fn cmd_list(kind: EntryKind, size: Option<u64>, name: &str) -> (line: String)
    ensures
        line@ == list_line(kind, size, name@),
{
    let mut line: String = match kind {
        EntryKind::Directory => "d".to_owned(),
        EntryKind::File => "-".to_owned(),
        EntryKind::Other => "l".to_owned(),
    };
    line = concat(line, "rwxrwxrwx 1 ftp ftp ");
    line = match size {
        Some(n) => {
            let digits: String = u64_to_string(n);
            concat(line, digits.as_str())
        },
        None => concat(line, "0"),
    };
    line = concat(line, " ");
    line = concat(line, name);
    concat(line, "\r\n")
}

/// The line of a list of names for one entry.
pub fn cmd_nlst(name: &str) -> (line: String)
    ensures
        line@ == name@ + "\r\n"@,
{
    concat(name.to_owned(), "\r\n")
}

/// The words that the local client may start a line with.
#[derive(Clone, Copy, Debug, PartialEq, Eq, Structural)]
pub enum Keyword {
    Cdup,
    Cwd,
    Dele,
    Epsv,
    Feat,
    List,
    Nlst,
    Opts,
    Pass,
    Pasv,
    Pwd,
    Quit,
    Retr,
    Size,
    Stor,
    Type,
    User,
}

/// The keyword that a word in capitals is.
pub open spec fn keyword_of(word: Seq<char>) -> Option<Keyword> {
    if word == "CDUP"@ {
        Some(Keyword::Cdup)
    } else if word == "CWD"@ {
        Some(Keyword::Cwd)
    } else if word == "DELE"@ {
        Some(Keyword::Dele)
    } else if word == "EPSV"@ {
        Some(Keyword::Epsv)
    } else if word == "FEAT"@ {
        Some(Keyword::Feat)
    } else if word == "LIST"@ {
        Some(Keyword::List)
    } else if word == "NLST"@ {
        Some(Keyword::Nlst)
    } else if word == "OPTS"@ {
        Some(Keyword::Opts)
    } else if word == "PASS"@ {
        Some(Keyword::Pass)
    } else if word == "PASV"@ {
        Some(Keyword::Pasv)
    } else if word == "PWD"@ {
        Some(Keyword::Pwd)
    } else if word == "QUIT"@ {
        Some(Keyword::Quit)
    } else if word == "RETR"@ {
        Some(Keyword::Retr)
    } else if word == "SIZE"@ {
        Some(Keyword::Size)
    } else if word == "STOR"@ {
        Some(Keyword::Stor)
    } else if word == "TYPE"@ {
        Some(Keyword::Type)
    } else if word == "USER"@ {
        Some(Keyword::User)
    } else {
        None
    }
}

/// The keyword that a word in capitals is.
pub fn keyword(word: &str) -> (k: Option<Keyword>)
    ensures
        k == keyword_of(word@),
{
    if str_eq(word, "CDUP") {
        Some(Keyword::Cdup)
    } else if str_eq(word, "CWD") {
        Some(Keyword::Cwd)
    } else if str_eq(word, "DELE") {
        Some(Keyword::Dele)
    } else if str_eq(word, "EPSV") {
        Some(Keyword::Epsv)
    } else if str_eq(word, "FEAT") {
        Some(Keyword::Feat)
    } else if str_eq(word, "LIST") {
        Some(Keyword::List)
    } else if str_eq(word, "NLST") {
        Some(Keyword::Nlst)
    } else if str_eq(word, "OPTS") {
        Some(Keyword::Opts)
    } else if str_eq(word, "PASS") {
        Some(Keyword::Pass)
    } else if str_eq(word, "PASV") {
        Some(Keyword::Pasv)
    } else if str_eq(word, "PWD") {
        Some(Keyword::Pwd)
    } else if str_eq(word, "QUIT") {
        Some(Keyword::Quit)
    } else if str_eq(word, "RETR") {
        Some(Keyword::Retr)
    } else if str_eq(word, "SIZE") {
        Some(Keyword::Size)
    } else if str_eq(word, "STOR") {
        Some(Keyword::Stor)
    } else if str_eq(word, "TYPE") {
        Some(Keyword::Type)
    } else if str_eq(word, "USER") {
        Some(Keyword::User)
    } else {
        None
    }
}

/// A command of the local client.
#[derive(Debug, PartialEq, Eq)]
pub enum Command {
    Cdup,
    Cwd(String),
    Dele(String),
    Epsv,
    Feat,
    List,
    Nlst,
    Opts,
    Pass,
    Pasv,
    Pwd,
    Quit,
    Retr(String),
    Stor(String),
    Size(String),
    Type,
    User,
}

impl Command {
    pub open spec fn keyword(&self) -> Keyword {
        match self {
            Command::Cdup => Keyword::Cdup,
            Command::Cwd(_) => Keyword::Cwd,
            Command::Dele(_) => Keyword::Dele,
            Command::Epsv => Keyword::Epsv,
            Command::Feat => Keyword::Feat,
            Command::List => Keyword::List,
            Command::Nlst => Keyword::Nlst,
            Command::Opts => Keyword::Opts,
            Command::Pass => Keyword::Pass,
            Command::Pasv => Keyword::Pasv,
            Command::Pwd => Keyword::Pwd,
            Command::Quit => Keyword::Quit,
            Command::Retr(_) => Keyword::Retr,
            Command::Stor(_) => Keyword::Stor,
            Command::Size(_) => Keyword::Size,
            Command::Type => Keyword::Type,
            Command::User => Keyword::User,
        }
    }

    /// The path that the command names, for those that name one.
    pub open spec fn argument(&self) -> Option<Seq<char>> {
        match self {
            Command::Cwd(s) => Some(s@),
            Command::Dele(s) => Some(s@),
            Command::Retr(s) => Some(s@),
            Command::Stor(s) => Some(s@),
            Command::Size(s) => Some(s@),
            _ => None,
        }
    }

    /// Reads a command from a line as the client sent it.
    ///
    /// The line must end with carriage return and line feed. Its first word,
    /// in small or capital letters, names the command; what follows the
    /// first space is the path of the commands that take one. A line that
    /// does not end so or names no command gives nothing.
    pub fn read(line: &str) -> (r: Option<Command>)
        ensures
            !ends_with(line@, "\r\n"@) ==> r is None,
            ends_with(line@, "\r\n"@) ==> ({
                let (word, argument) = word_and_argument(without_end(line@, 2));
                match keyword_of(uppercase(word)) {
                    None => r is None,
                    Some(k) => {
                        &&& r is Some
                        &&& r->Some_0.keyword() == k
                        &&& r->Some_0.argument() is Some ==> r->Some_0.argument() == Some(
                            argument,
                        )
                    },
                }
            }),
    {
        proof {
            reveal_strlit("\r\n");
        }
        let body: &str = match strip_suffix(line, "\r\n") {
            None => {
                return None;
            },
            Some(body) => body,
        };
        let (word, args): (&str, String) = match split_once(body, ' ') {
            Some((word, args)) => (word, args.to_owned()),
            None => (body, String::new()),
        };
        let word: String = to_uppercase(word);
        match keyword(word.as_str()) {
            None => None,
            Some(k) => Some(Command::with_keyword(k, args)),
        }
    }

    /// The command of a keyword; `argument` is its path if it takes one.
    pub fn with_keyword(k: Keyword, argument: String) -> (command: Command)
        ensures
            command.keyword() == k,
            command.argument() is Some ==> command.argument() == Some(argument@),
    {
        match k {
            Keyword::Cdup => Command::Cdup,
            Keyword::Cwd => Command::Cwd(argument),
            Keyword::Dele => Command::Dele(argument),
            Keyword::Epsv => Command::Epsv,
            Keyword::Feat => Command::Feat,
            Keyword::List => Command::List,
            Keyword::Nlst => Command::Nlst,
            Keyword::Opts => Command::Opts,
            Keyword::Pass => Command::Pass,
            Keyword::Pasv => Command::Pasv,
            Keyword::Pwd => Command::Pwd,
            Keyword::Quit => Command::Quit,
            Keyword::Retr => Command::Retr(argument),
            Keyword::Size => Command::Size(argument),
            Keyword::Stor => Command::Stor(argument),
            Keyword::Type => Command::Type,
            Keyword::User => Command::User,
        }
    }
}

/// Calls `PathBuf::push` on the path `base` with `path`, and gives the
/// result as text. What the result is depends on the platform: nothing is
/// promised of it.
#[verifier::external_body]
fn path_push(base: &str, path: &str) -> (joined: String) {
    let mut full = std::path::PathBuf::from(base);
    full.push(path);
    full.to_string_lossy().into_owned()
}

/// Calls `PathBuf::pop` on the path `base`, and gives what `pop` returned
/// and the path that is left as text. What they are depends on the
/// platform: nothing is promised of them.
#[verifier::external_body]
fn path_pop(base: &str) -> (popped: (bool, String)) {
    let mut full = std::path::PathBuf::from(base);
    let changed = full.pop();
    (changed, full.to_string_lossy().into_owned())
}

/// A command of the local client with its path worked out against the
/// current directory.
#[derive(Debug, PartialEq, Eq)]
pub enum Request {
    /// The parent of the current directory, and whether there is one.
    Cdup(bool, String),
    Cwd(String),
    Dele(String),
    Epsv,
    Feat,
    List,
    Nlst,
    Opts,
    Pass,
    Pasv,
    Pwd,
    Quit,
    Retr(String),
    Stor(String),
    Size(String),
    Type,
    User,
}

/// Whether a path starts at the root.
pub open spec fn is_absolute(path: Seq<char>) -> bool {
    path.len() > 0 && path[0] == '/'
}

impl Request {
    /// The path that the request names, for those that name one.
    pub open spec fn argument(&self) -> Option<Seq<char>> {
        match self {
            Request::Cwd(s) => Some(s@),
            Request::Dele(s) => Some(s@),
            Request::Retr(s) => Some(s@),
            Request::Stor(s) => Some(s@),
            Request::Size(s) => Some(s@),
            _ => None,
        }
    }

    pub open spec fn keyword(&self) -> Keyword {
        match self {
            Request::Cdup(_, _) => Keyword::Cdup,
            Request::Cwd(_) => Keyword::Cwd,
            Request::Dele(_) => Keyword::Dele,
            Request::Epsv => Keyword::Epsv,
            Request::Feat => Keyword::Feat,
            Request::List => Keyword::List,
            Request::Nlst => Keyword::Nlst,
            Request::Opts => Keyword::Opts,
            Request::Pass => Keyword::Pass,
            Request::Pasv => Keyword::Pasv,
            Request::Pwd => Keyword::Pwd,
            Request::Quit => Keyword::Quit,
            Request::Retr(_) => Keyword::Retr,
            Request::Stor(_) => Keyword::Stor,
            Request::Size(_) => Keyword::Size,
            Request::Type => Keyword::Type,
            Request::User => Keyword::User,
        }
    }
}

/// What is awaited from the backend before the client gets its reply.
#[derive(Debug, PartialEq, Eq)]
pub enum Awaiting {
    /// Whether this directory exists: it becomes the current one if so.
    Cwd(String),
    Dele,
    Size,
}

/// What follows a line of the local client.
#[derive(Debug, PartialEq, Eq)]
pub enum Step {
    /// These lines go to the client.
    Reply(Vec<String>),
    /// The command goes to the backend, and the client gets its reply when
    /// the backend has answered.
    Ask(DataCommand, Awaiting),
    /// The command goes to the backend, which answers with data or takes
    /// data; the lines go to the client at once.
    Transfer(DataCommand, Vec<String>),
    /// The session is over.
    Quit,
}

impl Step {
    /// The path of the command that goes to the backend, where one goes.
    pub open spec fn asked(&self) -> Option<Seq<char>> {
        match self {
            Step::Ask(command, _) => Some(command.path()@),
            Step::Transfer(command, _) => Some(command.path()@),
            _ => None,
        }
    }
}

/// Where the client may open its data connection: the IPv4 address of the
/// server, if it has one, and the port.
#[derive(Clone, Copy, Debug, PartialEq, Eq)]
pub struct Passive {
    pub ip: Option<[u8; 4]>,
    pub port: u16,
}

/// The characters of each line.
pub open spec fn texts(lines: Seq<String>) -> Seq<Seq<char>> {
    lines.map_values(|line: String| line@)
}

/// The reply that announces passive mode on an IPv4 address.
pub open spec fn pasv_text(ip: [u8; 4], port: u16) -> Seq<char> {
    "227 Entering Passive Mode ("@ + decimal(ip@[0] as nat) + ","@ + decimal(ip@[1] as nat)
        + ","@ + decimal(ip@[2] as nat) + ","@ + decimal(ip@[3] as nat) + ","@ + decimal(
        (port / 256) as nat,
    ) + ","@ + decimal((port % 256) as nat) + ")"@
}

/// The reply that announces extended passive mode.
pub open spec fn epsv_text(port: u16) -> Seq<char> {
    "229 Entering Extended Passive Mode (|||"@ + decimal(port as nat) + "|)"@
}

/// The reply that names the current directory.
pub open spec fn pwd_text(current: Seq<char>) -> Seq<char> {
    "257 "@ + quoted(current) + " is the current directory"@
}

/// The lines that list the features.
pub open spec fn feat_texts() -> Seq<Seq<char>> {
    seq![
        "211-Features:"@,
        " EPRT"@,
        " EPSV"@,
        " PASV"@,
        " REST STREAM"@,
        " SIZE"@,
        " TVFS"@,
        " UTF8"@,
        "211 End"@,
    ]
}

/// The lines that answer a request which needs nothing from the backend.
pub open spec fn plain_reply(current: Seq<char>, keyword: Keyword, passive: Passive) -> Seq<
    Seq<char>,
> {
    match keyword {
        Keyword::Epsv => seq![epsv_text(passive.port)],
        Keyword::Feat => feat_texts(),
        Keyword::Opts | Keyword::Type => seq!["200 Command okay"@],
        Keyword::Pass => seq!["220 Login successful"@],
        Keyword::Pasv => match passive.ip {
            Some(ip) => seq![pasv_text(ip, passive.port)],
            None => seq!["425 Can't open data connection"@],
        },
        Keyword::Pwd => seq![pwd_text(current)],
        Keyword::User => seq!["331 Provide password"@],
        _ => Seq::empty(),
    }
}

/// The line that names the current directory; `shown` is the directory as
/// it is to be shown, between quotes.
pub fn pwd_line(shown: &str) -> (line: String)
    ensures
        line@ == "257 "@ + shown@ + " is the current directory"@,
{
    let line: String = concat("257 ".to_owned(), shown);
    concat(line, " is the current directory")
}

fn one(line: String) -> (lines: Vec<String>)
    ensures
        texts(lines@) == seq![line@],
{
    let mut lines: Vec<String> = Vec::new();
    lines.push(line);
    assert(texts(lines@) =~= seq![line@]);
    lines
}

fn small(n: u8) -> (text: String)
    ensures
        text@ == decimal(n as nat),
{
    u64_to_string(n as u64)
}

/// The talk with one local client on its control connection, as far as it
/// keeps state: the current directory.
pub struct Session {
    current_path: String,
}

impl Session {
    /// The current directory.
    pub closed spec fn current(&self) -> Seq<char> {
        self.current_path@
    }

    /// A session at the root, and the line that welcomes the client.
    pub fn new() -> (r: (Session, Vec<String>))
        ensures
            r.0.current() == "/"@,
            texts(r.1@) == seq!["220 Welcome"@],
    {
        (Session { current_path: "/".to_owned() }, one("220 Welcome".to_owned()))
    }

    pub fn current_path(&self) -> (path: &str)
        ensures
            path@ == self.current(),
    {
        self.current_path.as_str()
    }

    /// The path that a command names, worked out against the current
    /// directory: a path that starts with a slash stands as it is, and any
    /// other is what the platform makes of the current directory and the
    /// path.
    pub fn full_path(&self, path: String) -> (full: String)
        ensures
            is_absolute(path@) ==> full@ == path@,
    {
        if path.as_str().unicode_len() > 0 && path.as_str().get_char(0) == '/' {
            path
        } else {
            path_push(self.current_path.as_str(), path.as_str())
        }
    }

    /// Works the path of a command out against the current directory, as
    /// `full_path` says. The parent of the current directory is what the
    /// platform says it is.
    pub fn resolve(&self, command: Command) -> (request: Request)
        ensures
            request.keyword() == command.keyword(),
            match command.argument() {
                Some(path) => is_absolute(path) ==> request.argument() == Some(path),
                None => true,
            },
    {
        match command {
            Command::Cdup => {
                let (changed, parent): (bool, String) = path_pop(self.current_path.as_str());
                Request::Cdup(changed, parent)
            },
            Command::Cwd(path) => Request::Cwd(self.full_path(path)),
            Command::Dele(path) => Request::Dele(self.full_path(path)),
            Command::Retr(path) => Request::Retr(self.full_path(path)),
            Command::Stor(path) => Request::Stor(self.full_path(path)),
            Command::Size(path) => Request::Size(self.full_path(path)),
            Command::Epsv => Request::Epsv,
            Command::Feat => Request::Feat,
            Command::List => Request::List,
            Command::Nlst => Request::Nlst,
            Command::Opts => Request::Opts,
            Command::Pass => Request::Pass,
            Command::Pasv => Request::Pasv,
            Command::Pwd => Request::Pwd,
            Command::Quit => Request::Quit,
            Command::Type => Request::Type,
            Command::User => Request::User,
        }
    }

    /// Says what follows a request, or a line that was no command.
    ///
    /// A line that was no command is a syntax error. Going up changes the
    /// current directory if it has a parent. Changing directory, deleting
    /// and asking for a size are put to the backend first. Listing,
    /// retrieving and storing start a transfer. The rest is answered at
    /// once.
    pub fn step(&mut self, request: Option<Request>, passive: &Passive) -> (step: Step)
        ensures
            match request {
                None => {
                    &&& final(self).current() == old(self).current()
                    &&& step matches Step::Reply(lines)
                    &&& texts(lines@) == seq!["500 Syntax error"@]
                },
                Some(Request::Cdup(changed, parent)) => {
                    &&& final(self).current() == if changed {
                        parent@
                    } else {
                        old(self).current()
                    }
                    &&& step matches Step::Reply(lines)
                    &&& texts(lines@) == if changed {
                        seq!["250 Directory successfully changed"@]
                    } else {
                        seq!["550 Failed to change directory"@]
                    }
                },
                Some(Request::Cwd(path)) => {
                    &&& final(self).current() == old(self).current()
                    &&& step matches Step::Ask(DataCommand::Cwd(asked), Awaiting::Cwd(kept))
                    &&& asked@ == path@
                    &&& kept@ == path@
                },
                Some(Request::Dele(path)) => {
                    &&& final(self).current() == old(self).current()
                    &&& step matches Step::Ask(DataCommand::Dele(asked), Awaiting::Dele)
                    &&& asked@ == path@
                },
                Some(Request::Size(path)) => {
                    &&& final(self).current() == old(self).current()
                    &&& step matches Step::Ask(DataCommand::Size(asked), Awaiting::Size)
                    &&& asked@ == path@
                },
                Some(Request::Retr(path)) => {
                    &&& final(self).current() == old(self).current()
                    &&& step matches Step::Transfer(DataCommand::Retr(asked), lines)
                    &&& asked@ == path@
                    &&& texts(lines@) == seq![
                        "125 Data connection already open; transfer starting"@,
                    ]
                },
                Some(Request::Stor(path)) => {
                    &&& final(self).current() == old(self).current()
                    &&& step matches Step::Transfer(DataCommand::Stor(asked), lines)
                    &&& asked@ == path@
                    &&& texts(lines@) == seq![
                        "125 Data connection already open; transfer starting"@,
                    ]
                },
                Some(Request::List) => {
                    &&& final(self).current() == old(self).current()
                    &&& step matches Step::Transfer(DataCommand::List(asked), lines)
                    &&& asked@ == old(self).current()
                    &&& texts(lines@) == seq!["150 Here comes the directory listing"@]
                },
                Some(Request::Nlst) => {
                    &&& final(self).current() == old(self).current()
                    &&& step matches Step::Transfer(DataCommand::NLst(asked), lines)
                    &&& asked@ == old(self).current()
                    &&& texts(lines@) == seq!["150 Here comes the directory listing"@]
                },
                Some(Request::Quit) => {
                    &&& final(self).current() == old(self).current()
                    &&& step matches Step::Quit
                },
                Some(other) => {
                    &&& final(self).current() == old(self).current()
                    &&& step matches Step::Reply(lines)
                    &&& texts(lines@) == plain_reply(old(self).current(), other.keyword(), *passive)
                },
            },
    {
        match request {
            None => Step::Reply(one("500 Syntax error".to_owned())),
            Some(Request::Cdup(changed, parent)) => {
                if changed {
                    self.current_path = parent;
                    Step::Reply(one("250 Directory successfully changed".to_owned()))
                } else {
                    Step::Reply(one("550 Failed to change directory".to_owned()))
                }
            },
            Some(Request::Cwd(path)) => {
                let kept: String = path.clone();
                Step::Ask(DataCommand::Cwd(path), Awaiting::Cwd(kept))
            },
            Some(Request::Dele(path)) => Step::Ask(DataCommand::Dele(path), Awaiting::Dele),
            Some(Request::Size(path)) => Step::Ask(DataCommand::Size(path), Awaiting::Size),
            Some(Request::Retr(path)) => Step::Transfer(
                DataCommand::Retr(path),
                one("125 Data connection already open; transfer starting".to_owned()),
            ),
            Some(Request::Stor(path)) => Step::Transfer(
                DataCommand::Stor(path),
                one("125 Data connection already open; transfer starting".to_owned()),
            ),
            Some(Request::List) => Step::Transfer(
                DataCommand::List(self.current_path.clone()),
                one("150 Here comes the directory listing".to_owned()),
            ),
            Some(Request::Nlst) => Step::Transfer(
                DataCommand::NLst(self.current_path.clone()),
                one("150 Here comes the directory listing".to_owned()),
            ),
            Some(Request::Quit) => Step::Quit,
            Some(Request::Epsv) => {
                let mut line: String = "229 Entering Extended Passive Mode (|||".to_owned();
                let port: String = u64_to_string(passive.port as u64);
                line = concat(line, port.as_str());
                line = concat(line, "|)");
                Step::Reply(one(line))
            },
            Some(Request::Feat) => {
                let mut lines: Vec<String> = Vec::new();
                lines.push("211-Features:".to_owned());
                lines.push(" EPRT".to_owned());
                lines.push(" EPSV".to_owned());
                lines.push(" PASV".to_owned());
                lines.push(" REST STREAM".to_owned());
                lines.push(" SIZE".to_owned());
                lines.push(" TVFS".to_owned());
                lines.push(" UTF8".to_owned());
                lines.push("211 End".to_owned());
                assert(texts(lines@) =~= feat_texts());
                Step::Reply(lines)
            },
            Some(Request::Opts) => Step::Reply(one("200 Command okay".to_owned())),
            Some(Request::Type) => Step::Reply(one("200 Command okay".to_owned())),
            Some(Request::Pass) => Step::Reply(one("220 Login successful".to_owned())),
            Some(Request::Pasv) => match passive.ip {
                Some(ip) => {
                    let mut line: String = "227 Entering Passive Mode (".to_owned();
                    line = concat(line, small(ip[0]).as_str());
                    line = concat(line, ",");
                    line = concat(line, small(ip[1]).as_str());
                    line = concat(line, ",");
                    line = concat(line, small(ip[2]).as_str());
                    line = concat(line, ",");
                    line = concat(line, small(ip[3]).as_str());
                    line = concat(line, ",");
                    line = concat(line, small((passive.port / 256) as u8).as_str());
                    line = concat(line, ",");
                    line = concat(line, small((passive.port % 256) as u8).as_str());
                    line = concat(line, ")");
                    Step::Reply(one(line))
                },
                None => Step::Reply(one("425 Can't open data connection".to_owned())),
            },
            Some(Request::Pwd) => {
                let shown: String = debug_format(self.current_path.as_str());
                Step::Reply(one(pwd_line(shown.as_str())))
            },
            Some(Request::User) => Step::Reply(one("331 Provide password".to_owned())),
        }
    }

    /// Takes a command, or nothing for a line that was none, works its path
    /// out and says what follows. The paths that go to the backend are what
    /// the platform made of them.
    pub fn control(&mut self, command: Option<Command>, passive: &Passive) -> (step: Step)
        ensures
            match command {
                None => step matches Step::Reply(lines) && texts(lines@) == seq![
                    "500 Syntax error"@,
                ],
                Some(c) => match c.keyword() {
                    Keyword::Cdup => step is Reply,
                    Keyword::Cwd => step matches Step::Ask(DataCommand::Cwd(_), Awaiting::Cwd(_)),
                    Keyword::Dele => step matches Step::Ask(DataCommand::Dele(_), Awaiting::Dele),
                    Keyword::Size => step matches Step::Ask(DataCommand::Size(_), Awaiting::Size),
                    Keyword::Retr => step matches Step::Transfer(DataCommand::Retr(_), _),
                    Keyword::Stor => step matches Step::Transfer(DataCommand::Stor(_), _),
                    Keyword::List => step matches Step::Transfer(DataCommand::List(path), _)
                        && path@ == old(self).current(),
                    Keyword::Nlst => step matches Step::Transfer(DataCommand::NLst(path), _)
                        && path@ == old(self).current(),
                    Keyword::Quit => step is Quit,
                    k => step matches Step::Reply(lines) && texts(lines@) == plain_reply(
                        old(self).current(),
                        k,
                        *passive,
                    ),
                },
            },
            match command {
                Some(c) => match c.argument() {
                    Some(path) => is_absolute(path) ==> step.asked() == Some(path),
                    None => true,
                },
                None => true,
            },
            !(command matches Some(Command::Cdup)) ==> final(self).current() == old(
                self,
            ).current(),
    {
        let request: Option<Request> = match command {
            None => None,
            Some(c) => Some(self.resolve(c)),
        };
        self.step(request, passive)
    }

    /// Takes the answer of the backend to what was asked, and gives the
    /// lines for the client. A directory that exists becomes the current
    /// one.
    pub fn answer(&mut self, awaiting: Awaiting, reply: DataReply) -> (lines: Vec<String>)
        ensures
            match awaiting {
                Awaiting::Cwd(path) => {
                    &&& final(self).current() == if reply.is_ok() {
                        path@
                    } else {
                        old(self).current()
                    }
                    &&& texts(lines@) == if reply.is_ok() {
                        seq!["250 Directory successfully changed"@]
                    } else {
                        seq!["550 Failed to change directory"@]
                    }
                },
                Awaiting::Dele => {
                    &&& final(self).current() == old(self).current()
                    &&& texts(lines@) == if reply.is_ok() {
                        seq!["200 Command okay"@]
                    } else {
                        seq!["550 Delete failed"@]
                    }
                },
                Awaiting::Size => {
                    &&& final(self).current() == old(self).current()
                    &&& texts(lines@) == match reply {
                        DataReply::SizeOk(size) => seq!["213 "@ + decimal(size as nat)],
                        _ => seq!["540 Invalid path"@],
                    }
                },
            },
    {
        match awaiting {
            Awaiting::Cwd(path) => {
                if reply.is_ok() {
                    self.current_path = path;
                    one("250 Directory successfully changed".to_owned())
                } else {
                    one("550 Failed to change directory".to_owned())
                }
            },
            Awaiting::Dele => {
                if reply.is_ok() {
                    one("200 Command okay".to_owned())
                } else {
                    one("550 Delete failed".to_owned())
                }
            },
            Awaiting::Size => match reply {
                DataReply::SizeOk(size) => {
                    let digits: String = u64_to_string(size);
                    one(concat("213 ".to_owned(), digits.as_str()))
                },
                _ => one("540 Invalid path".to_owned()),
            },
        }
    }
}

/// The line that tells the client how a transfer ended.
pub fn data_transfer(completed: bool) -> (lines: Vec<String>)
    ensures
        texts(lines@) == if completed {
            seq!["226 Closing data connection"@]
        } else {
            seq!["426 Connection closed; transfer aborted"@]
        },
{
    if completed {
        one("226 Closing data connection".to_owned())
    } else {
        one("426 Connection closed; transfer aborted".to_owned())
    }
}

} // verus!
