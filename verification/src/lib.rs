//! Multiplexing of several byte streams over one remote-desktop virtual
//! channel: the chunk codec, the reassembly of frames from a byte stream, the
//! client table and the duplex stream that sit on top of it, and the
//! sub-protocols of the tunnelled services.
//!
//! Everything here is computation on plain values. Sockets, threads, queues
//! and the host's entry points belong to the program that drives this
//! library.

pub mod api;
pub mod backend;
pub mod citrix;
pub mod clipboard;
pub mod config;
pub mod ftp;
pub mod input;
pub mod queue;
pub mod service;
pub mod socks5;
pub mod stage0;
pub mod stream;
pub mod svc;
pub mod text;
pub mod tunnel;
pub mod util;
pub mod wire;
pub mod x11;

use crate::text::{str_eq, to_uppercase, uppercase};
use vstd::prelude::*;
use vstd::string::*;

verus! {

/// The name of the virtual channel that carries the tunnel.
pub const VIRTUAL_CHANNEL_NAME: &'static str = "SOXY";

/// How much is logged.
#[derive(Clone, Copy, Debug, PartialEq, Eq, Structural)]
pub enum Level {
    Off,
    Error,
    Warn,
    Info,
    Debug,
    Trace,
}

/// The level that a name in capitals stands for.
pub open spec fn level_named(name: Seq<char>) -> Option<Level> {
    if name == "OFF"@ {
        Some(Level::Off)
    } else if name == "ERROR"@ {
        Some(Level::Error)
    } else if name == "WARN"@ || name == "WARNING"@ {
        Some(Level::Warn)
    } else if name == "INFO"@ {
        Some(Level::Info)
    } else if name == "DEBUG"@ {
        Some(Level::Debug)
    } else if name == "TRACE"@ {
        Some(Level::Trace)
    } else {
        None
    }
}

impl Level {
    /// The level that a name stands for, in small or capital letters.
    pub fn try_from(s: &str) -> (r: Result<Level, String>)
        ensures
            match level_named(uppercase(s@)) {
                Some(level) => r == Ok::<Level, String>(level),
                None => r is Err && r->Err_0@ == "invalid log level"@,
            },
    {
        let name: String = to_uppercase(s);
        match Level::named(name.as_str()) {
            Some(level) => Ok(level),
            None => Err("invalid log level".to_owned()),
        }
    }

    /// The level that a name in capitals stands for.
    pub fn named(name: &str) -> (level: Option<Level>)
        ensures
            level == level_named(name@),
    {
        if str_eq(name, "OFF") {
            Some(Level::Off)
        } else if str_eq(name, "ERROR") {
            Some(Level::Error)
        } else if str_eq(name, "WARN") || str_eq(name, "WARNING") {
            Some(Level::Warn)
        } else if str_eq(name, "INFO") {
            Some(Level::Info)
        } else if str_eq(name, "DEBUG") {
            Some(Level::Debug)
        } else if str_eq(name, "TRACE") {
            Some(Level::Trace)
        } else {
            None
        }
    }
}

} // verus!
