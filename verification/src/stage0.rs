//! The uploader: pushes a local file through a stream.

use crate::api::IoErrorKind;
use crate::text::{
    concat, decimal, ends_with, is_whole_line, order_of, split_order, str_eq, u64_to_string,
};
use vstd::prelude::*;
use vstd::string::*;

verus! {

/// What the line of the local client asks for.
#[derive(Debug, PartialEq, Eq)]
pub enum Order {
    /// Nothing more.
    Exit,
    /// Send this file.
    Upload(String),
    /// Nothing that is known.
    Invalid,
}

/// What the command of a line, in capitals, asks for with its argument.
pub open spec fn is_order(order: Order, command: Seq<char>, argument: Seq<char>) -> bool {
    if command == "EXIT"@ || command == "QUIT"@ {
        order is Exit
    } else if command == "CAT"@ || command == "PUSH"@ || command == "PUT"@ || command == "SEND"@
        || command == "UPLOAD"@ {
        order matches Order::Upload(file) && file@ == argument
    } else {
        order is Invalid
    }
}

/// Reads the line of the local client. A line without a line feed at its
/// end was cut off: the connection is broken.
pub fn order(line: &str) -> (r: Result<Order, IoErrorKind>)
    ensures
        !ends_with(line@, "\n"@) ==> r == Err::<Order, IoErrorKind>(IoErrorKind::BrokenPipe),
        ends_with(line@, "\n"@) ==> r is Ok && is_order(
            r->Ok_0,
            order_of(line@).0,
            order_of(line@).1,
        ),
{
    if !is_whole_line(line) {
        return Err(IoErrorKind::BrokenPipe);
    }
    let (command, argument): (String, String) = split_order(line);
    Ok(order_named(command.as_str(), argument))
}

/// What a command in capitals asks for with its argument.
pub fn order_named(command: &str, argument: String) -> (r: Order)
    ensures
        is_order(r, command@, argument@),
{
    if str_eq(command, "EXIT") || str_eq(command, "QUIT") {
        Order::Exit
    } else if str_eq(command, "CAT") || str_eq(command, "PUSH") || str_eq(command, "PUT")
        || str_eq(command, "SEND") || str_eq(command, "UPLOAD") {
        Order::Upload(argument)
    } else {
        Order::Invalid
    }
}

/// The line that tells the client how many bytes of its file were sent.
pub fn sent_reply(total: u64) -> (line: String)
    ensures
        line@ == "file sent ("@ + decimal(total as nat) + " bytes)"@,
{
    let digits: String = u64_to_string(total);
    let line: String = concat("file sent (".to_owned(), digits.as_str());
    concat(line, " bytes)")
}

/// Counts the bytes that the backend drains from a stream: the count after
/// a read of `read` bytes. The count stops at the largest number there is.
pub fn drained(total: u64, read: usize) -> (sum: u64)
    ensures
        sum == if total + read <= u64::MAX {
            (total + read) as u64
        } else {
            u64::MAX
        },
{
    let read: u64 = read as u64;
    if total <= u64::MAX - read {
        total + read
    } else {
        u64::MAX
    }
}

} // verus!
