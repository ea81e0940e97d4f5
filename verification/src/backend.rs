//! The backend's side of the virtual channel: the library that gives access
//! to it, and what is done with the bytes read from it.

use crate::api::{
    Chunk, ChannelControl, Error, Reassembly, Received, is_received, split_frames,
};
use vstd::prelude::*;

verus! {

/// The implementation of the virtual channel API that is at hand.
#[derive(Clone, Copy, Debug, PartialEq, Eq, Structural)]
pub enum Instance {
    Citrix,
    Horizon,
    Xrdp,
    Windows,
}

/// The names under which a library offers the four calls of the API.
#[derive(Clone, Copy, Debug)]
pub struct SymbolNames {
    pub open: &'static str,
    pub read: &'static str,
    pub write: &'static str,
    pub query: &'static str,
}

impl From<Instance> for SymbolNames {
    fn from(instance: Instance) -> (names: SymbolNames) {
        match instance {
            Instance::Citrix => SymbolNames {
                open: "WFVirtualChannelOpen",
                read: "WFVirtualChannelRead",
                write: "WFVirtualChannelWrite",
                query: "WFVirtualChannelQuery",
            },
            Instance::Horizon => SymbolNames {
                open: "VDP_VirtualChannelOpen",
                read: "VDP_VirtualChannelRead",
                write: "VDP_VirtualChannelWrite",
                query: "VDP_VirtualChannelQuery",
            },
            Instance::Xrdp => SymbolNames {
                open: "WTSVirtualChannelOpen",
                read: "WTSVirtualChannelRead",
                write: "WTSVirtualChannelWrite",
                query: "WTSVirtualChannelQuery",
            },
            Instance::Windows => SymbolNames {
                open: "WTSVirtualChannelOpen",
                read: "WTSVirtualChannelRead",
                write: "WTSVirtualChannelWrite",
                query: "WTSVirtualChannelQuery",
            },
        }
    }
}

impl vstd::std_specs::convert::FromSpecImpl<Instance> for SymbolNames {
    open spec fn obeys_from_spec() -> bool {
        true
    }

    open spec fn from_spec(instance: Instance) -> SymbolNames {
        match instance {
            Instance::Citrix => SymbolNames {
                open: "WFVirtualChannelOpen",
                read: "WFVirtualChannelRead",
                write: "WFVirtualChannelWrite",
                query: "WFVirtualChannelQuery",
            },
            Instance::Horizon => SymbolNames {
                open: "VDP_VirtualChannelOpen",
                read: "VDP_VirtualChannelRead",
                write: "VDP_VirtualChannelWrite",
                query: "VDP_VirtualChannelQuery",
            },
            Instance::Xrdp => SymbolNames {
                open: "WTSVirtualChannelOpen",
                read: "WTSVirtualChannelRead",
                write: "WTSVirtualChannelWrite",
                query: "WTSVirtualChannelQuery",
            },
            Instance::Windows => SymbolNames {
                open: "WTSVirtualChannelOpen",
                read: "WTSVirtualChannelRead",
                write: "WTSVirtualChannelWrite",
                query: "WTSVirtualChannelQuery",
            },
        }
    }
}

impl Instance {
    /// The name of the library that offers this implementation.
    pub fn library(self) -> (name: &'static str)
        ensures
            name == match self {
                Instance::Citrix => "wfapi64",
                Instance::Horizon => "vdp_rdpvcbridge",
                Instance::Windows => "wtsapi32",
                Instance::Xrdp => "xrdpapi",
            },
    {
        match self {
            Instance::Citrix => "wfapi64",
            Instance::Horizon => "vdp_rdpvcbridge",
            Instance::Windows => "wtsapi32",
            Instance::Xrdp => "xrdpapi",
        }
    }

    /// The implementations to try, in this order: the first whose library
    /// loads is taken. The one of Windows is tried on Windows only.
    pub fn candidates(windows: bool) -> (all: Vec<Instance>)
        ensures
            all@ == if windows {
                seq![Instance::Citrix, Instance::Horizon, Instance::Windows, Instance::Xrdp]
            } else {
                seq![Instance::Citrix, Instance::Horizon, Instance::Xrdp]
            },
    {
        let mut all: Vec<Instance> = Vec::new();
        all.push(Instance::Citrix);
        all.push(Instance::Horizon);
        if windows {
            all.push(Instance::Windows);
        }
        all.push(Instance::Xrdp);
        proof {
            if windows {
                assert(all@ =~= seq![
                    Instance::Citrix,
                    Instance::Horizon,
                    Instance::Windows,
                    Instance::Xrdp,
                ]);
            } else {
                assert(all@ =~= seq![Instance::Citrix, Instance::Horizon, Instance::Xrdp]);
            }
        }
        all
    }
}

/// Why the channel could not be opened.
#[derive(Clone, Copy, Debug, PartialEq, Eq, Structural)]
pub enum OpenError {
    InvalidChannelName,
}

/// The name of a channel as the API takes it: eight characters, the name
/// and zeros behind it. A name must leave room for one zero and hold no
/// byte above 127.
pub fn channel_name(name: &[u8]) -> (r: Result<[i8; 8], OpenError>)
    ensures
        name@.len() <= 7 && (forall|i: int| 0 <= i < name@.len() ==> name@[i] <= 127) ==> {
            &&& r is Ok
            &&& forall|i: int| 0 <= i < name@.len() ==> r->Ok_0@[i] == name@[i]
            &&& forall|i: int| name@.len() <= i < 8 ==> r->Ok_0@[i] == 0
        },
        !(name@.len() <= 7 && (forall|i: int| 0 <= i < name@.len() ==> name@[i] <= 127)) ==> r
            == Err::<[i8; 8], OpenError>(OpenError::InvalidChannelName),
{
    if name.len() > 7 {
        return Err(OpenError::InvalidChannelName);
    }
    let mut cname: [i8; 8] = [0; 8];
    let mut i: usize = 0;
    while i < name.len()
        invariant
            i <= name@.len() <= 7,
            forall|j: int| 0 <= j < i ==> name@[j] <= 127 && cname@[j] == name@[j],
            forall|j: int| i <= j < 8 ==> cname@[j] == 0,
        decreases name@.len() - i,
    {
        if name[i] > 127 {
            return Err(OpenError::InvalidChannelName);
        }
        cname[i] = name[i] as i8;
        i = i + 1;
    }
    Ok(cname)
}

/// What follows a call of the channel's write.
#[derive(Clone, Copy, Debug, PartialEq, Eq, Structural)]
pub enum AfterWrite {
    /// Nothing was taken: give the host time and write again.
    Retry,
    /// Part was taken, or the call failed: the write has failed.
    Failed,
    /// All was taken: this many bytes.
    Written(u64),
}

/// Judges a call of the channel's write of `to_write` bytes, given whether
/// the call succeeded and how many bytes it says it wrote.
///
/// A call that took nothing is made again, whether it failed or not. A call
/// that took a part only, or failed after taking something, has failed.
pub fn after_write(succeeded: bool, written: u64, to_write: u64) -> (r: AfterWrite)
    ensures
        r == if succeeded && written == to_write {
            AfterWrite::Written(written)
        } else if written == 0 {
            AfterWrite::Retry
        } else {
            AfterWrite::Failed
        },
{
    if !succeeded || written != to_write {
        if written == 0 {
            AfterWrite::Retry
        } else {
            AfterWrite::Failed
        }
    } else {
        AfterWrite::Written(written)
    }
}

/// What the backend does with a message of its multiplexer.
#[derive(Debug, PartialEq, Eq)]
pub enum ToFrontend {
    /// Nothing.
    Discard,
    /// Let go of the channel.
    Disconnect,
    /// Write these bytes on the channel, and let go of the channel if that
    /// fails.
    Write(Vec<u8>),
}

/// What a message of the multiplexer asks of the channel: a shutdown lets go
/// of it, a chunk is written on it in its serialized form, anything else is
/// dropped.
pub fn backend_to_frontend(control: ChannelControl) -> (action: ToFrontend)
    ensures
        match control {
            ChannelControl::Shutdown => action == ToFrontend::Disconnect,
            ChannelControl::SendChunk(chunk) => action matches ToFrontend::Write(bytes) && bytes@
                == chunk.bytes(),
            _ => action == ToFrontend::Discard,
        },
{
    match control {
        ChannelControl::Shutdown => ToFrontend::Disconnect,
        ChannelControl::SendChunk(chunk) => ToFrontend::Write(chunk.serialized()),
        _ => ToFrontend::Discard,
    }
}

/// What the backend does after it has read from the channel.
#[derive(Debug)]
pub struct FromFrontend {
    /// The chunks for the multiplexer, in order.
    pub chunks: Vec<Chunk>,
    /// Why frames that were no chunks were dropped, for a warning.
    pub dropped: Vec<Error>,
    /// Whether the channel is to be let go and the multiplexer shut down:
    /// so it is after a read that failed.
    pub disconnect: bool,
}

/// The reading end of the backend's channel: cuts what is read into chunks.
pub struct Link {
    received: Reassembly,
}

impl Link {
    /// The bytes read that do not yet make a chunk.
    pub closed spec fn pending(&self) -> Seq<u8> {
        self.received.pending()
    }

    pub fn new() -> (link: Link)
        ensures
            link.pending() == Seq::<u8>::empty(),
    {
        Link { received: Reassembly::new() }
    }

    /// Takes what a read gave: bytes, or none if the read failed.
    ///
    /// The bytes are cut into frames, and every frame that is a chunk goes
    /// to the multiplexer, in order. A frame that is none is dropped, and
    /// nothing else happens on its account. Only a failed read lets go of
    /// the channel: what was read and not yet used is then dropped.
    pub fn frontend_to_backend(&mut self, read: Option<&[u8]>) -> (r: FromFrontend)
        ensures
            match read {
                None => {
                    &&& r.chunks@.len() == 0
                    &&& r.dropped@.len() == 0
                    &&& r.disconnect
                    &&& final(self).pending() == Seq::<u8>::empty()
                },
                Some(data) => {
                    let (frames, rest) = split_frames(old(self).pending() + data@);
                    &&& is_received(Received { chunks: r.chunks, dropped: r.dropped }, frames)
                    &&& !r.disconnect
                    &&& final(self).pending() == rest
                },
            },
    {
        match read {
            None => {
                self.received.clear();
                FromFrontend { chunks: Vec::new(), dropped: Vec::new(), disconnect: true }
            },
            Some(data) => {
                let received: Received = self.received.receive(data);
                FromFrontend {
                    chunks: received.chunks,
                    dropped: received.dropped,
                    disconnect: false,
                }
            },
        }
    }
}

} // verus!
