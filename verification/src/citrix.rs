//! The outbound side of a polled virtual driver.
//!
//! The host of a polled driver asks for output; the driver cannot write when
//! it wants to. Frames therefore wait in a queue, and each poll writes a few
//! of them: at most eight, so that a long upload does not keep the host's
//! half-duplex queue to itself.

use crate::api::CHUNK_LENGTH;
use crate::svc::MAX_CHUNKS_IN_FLIGHT;
use crate::queue::{bounded, is_empty, send, try_recv};
use vstd::prelude::*;

verus! {

/// How many frames one poll writes at most.
pub const MAX_CHUNK_BATCH_SEND: usize = 8;

/// How the host answered a write.
#[derive(Clone, Copy, Debug, PartialEq, Eq, Structural)]
pub enum WriteOutcome {
    /// The host took the frame.
    Success,
    /// The host has no output buffer left for now.
    NoOutBuf,
    /// Any other answer.
    Failed,
}

/// What the driver answers to a poll.
#[derive(Clone, Copy, Debug, PartialEq, Eq, Structural)]
pub enum PollStatus {
    /// All is written.
    Success,
    /// Frames are left: poll again.
    Retry,
    Error,
}

/// What comes next within a poll.
#[derive(Debug, PartialEq, Eq)]
pub enum PollStep {
    /// Hand this frame to the host and report its answer.
    Write(Vec<u8>),
    /// Answer the poll.
    Finished(PollStatus),
}

/// Whether the host's largest write is large enough for the driver: it must
/// hold a chunk short of one byte.
pub fn accepts_write_size(maximum_write_size: u16) -> (ok: bool)
    ensures
        ok == (maximum_write_size >= CHUNK_LENGTH - 1),
{
    maximum_write_size as usize >= CHUNK_LENGTH - 1
}

/// The bit that stands for a channel in the mask of channels: bit number
/// `channel`, counted modulo 32.
pub fn channel_mask(channel: u16) -> (mask: u32)
    ensures
        mask == 1u32 << ((channel % 32) as u32),
{
    1u32 << ((channel % 32) as u32)
}

/// Why a call of the driver failed.
#[derive(Clone, Copy, Debug, PartialEq, Eq, Structural)]
pub enum DriverError {
    /// The call is to be made again.
    Retry,
    Error,
}

/// What the driver answers to a poll that ended with `status`.
pub fn poll_result(status: PollStatus) -> (r: Result<(), DriverError>)
    ensures
        r == match status {
            PollStatus::Success => Ok::<(), DriverError>(()),
            PollStatus::Retry => Err::<(), DriverError>(DriverError::Retry),
            PollStatus::Error => Err::<(), DriverError>(DriverError::Error),
        },
{
    match status {
        PollStatus::Success => Ok(()),
        PollStatus::Retry => Err(DriverError::Retry),
        PollStatus::Error => Err(DriverError::Error),
    }
}

/// The step of a poll after the queue was asked for its oldest frame: the
/// frame is written, or there is none and the poll ends well.
pub fn step_for(next: Option<Vec<u8>>) -> (step: PollStep)
    ensures
        step == match next {
            Some(data) => PollStep::Write(data),
            None => PollStep::Finished(PollStatus::Success),
        },
{
    match next {
        Some(data) => PollStep::Write(data),
        None => PollStep::Finished(PollStatus::Success),
    }
}

/// The end of a poll that has written eight frames, after the queue was
/// asked whether it is empty: the poll ends well if it is, and asks for
/// another poll if frames are left.
pub fn step_at_limit(empty: bool) -> (step: PollStep)
    ensures
        step == if empty {
            PollStep::Finished(PollStatus::Success)
        } else {
            PollStep::Finished(PollStatus::Retry)
        },
{
    if empty {
        PollStep::Finished(PollStatus::Success)
    } else {
        PollStep::Finished(PollStatus::Retry)
    }
}

/// The frames that wait for the host, in a queue of 64 at most, and the
/// poll that writes them.
pub struct Outbound {
    write_last_miss: Option<Vec<u8>>,
    write_queue_send: crossbeam_channel::Sender<Vec<u8>>,
    write_queue_receive: crossbeam_channel::Receiver<Vec<u8>>,
    batch_sent: usize,
}

impl Outbound {
    #[verifier::type_invariant]
    closed spec fn bounded(&self) -> bool {
        self.batch_sent <= MAX_CHUNK_BATCH_SEND
    }

    /// The frame that the host had no buffer for: it is written first by
    /// the next poll.
    pub closed spec fn last_miss(&self) -> Option<Vec<u8>> {
        self.write_last_miss
    }

    /// How many frames the running poll has written.
    pub closed spec fn batch(&self) -> nat {
        self.batch_sent as nat
    }

    /// A queue of 64 frames with none kept back.
    pub fn new() -> (outbound: Outbound)
        ensures
            outbound.last_miss() is None,
            outbound.batch() == 0,
    {
        let (write_queue_send, write_queue_receive) = bounded::<Vec<u8>>(MAX_CHUNKS_IN_FLIGHT);
        Outbound { write_last_miss: None, write_queue_send, write_queue_receive, batch_sent: 0 }
    }

    /// Puts a frame behind those that wait, and waits while 64 are queued.
    /// A frame that the queue does not take comes back.
    pub fn queue(&self, data: Vec<u8>) -> (r: Result<(), Vec<u8>>)
        ensures
            r is Err ==> r->Err_0 == data,
    {
        send(&self.write_queue_send, data)
    }

    /// Starts a poll: the frame that the host had no buffer for is written
    /// first; else the oldest frame of the queue, if the queue holds one,
    /// and if not the poll ends well.
    pub fn poll_start(&mut self) -> (step: PollStep)
        ensures
            final(self).batch() == 0,
            final(self).last_miss() is None,
            match old(self).last_miss() {
                Some(data) => step == PollStep::Write(data),
                None => step is Write || step == PollStep::Finished(PollStatus::Success),
            },
    {
        proof {
            use_type_invariant(&*self);
        }
        self.batch_sent = 0;
        let mut missed: Option<Vec<u8>> = None;
        core::mem::swap(&mut self.write_last_miss, &mut missed);
        match missed {
            Some(data) => PollStep::Write(data),
            None => step_for(try_recv(&self.write_queue_receive)),
        }
    }

    /// Takes the host's answer to the write of `data` and gives the next
    /// step of the poll.
    ///
    /// After a success the oldest frame of the queue is written next, unless
    /// eight are written: then the poll ends, and asks for another if the
    /// queue is not empty. Without output buffer the frame is kept back for
    /// the next poll, and the poll asks for another. Any other answer ends
    /// the poll with an error, and the frame is lost. What the queue holds
    /// is up to those who fill it. A poll never asks for a ninth write.
    pub fn poll_written(&mut self, data: Vec<u8>, outcome: WriteOutcome) -> (step: PollStep)
        ensures
            step is Write ==> final(self).batch() < MAX_CHUNK_BATCH_SEND,
            match outcome {
                WriteOutcome::Success => {
                    &&& final(self).last_miss() == old(self).last_miss()
                    &&& final(self).batch() == if old(self).batch() < MAX_CHUNK_BATCH_SEND {
                        old(self).batch() + 1
                    } else {
                        old(self).batch()
                    }
                    &&& if final(self).batch() < MAX_CHUNK_BATCH_SEND {
                        step is Write || step == PollStep::Finished(PollStatus::Success)
                    } else {
                        step == PollStep::Finished(PollStatus::Success) || step
                            == PollStep::Finished(PollStatus::Retry)
                    }
                },
                WriteOutcome::NoOutBuf => {
                    &&& final(self).last_miss() == Some(data)
                    &&& final(self).batch() == old(self).batch()
                    &&& step == PollStep::Finished(PollStatus::Retry)
                },
                WriteOutcome::Failed => {
                    &&& final(self).last_miss() == old(self).last_miss()
                    &&& final(self).batch() == old(self).batch()
                    &&& step == PollStep::Finished(PollStatus::Error)
                },
            },
    {
        proof {
            use_type_invariant(&*self);
        }
        match outcome {
            WriteOutcome::Success => {
                if self.batch_sent < MAX_CHUNK_BATCH_SEND {
                    self.batch_sent = self.batch_sent + 1;
                }
                if self.batch_sent < MAX_CHUNK_BATCH_SEND {
                    step_for(try_recv(&self.write_queue_receive))
                } else {
                    step_at_limit(is_empty(&self.write_queue_receive))
                }
            },
            WriteOutcome::NoOutBuf => {
                self.write_last_miss = Some(data);
                PollStep::Finished(PollStatus::Retry)
            },
            WriteOutcome::Failed => PollStep::Finished(PollStatus::Error),
        }
    }
}

/// Closes the driver: the queue and what it holds are let go.
#[allow(non_snake_case)]
pub fn DriverClose(handle: &mut Option<Outbound>) -> (r: Result<(), DriverError>)
    ensures
        r == Ok::<(), DriverError>(()),
        *final(handle) is None,
{
    *handle = None;
    Ok(())
}

/// Answers a request for information about the driver. The driver has none
/// to give: the request fails.
#[allow(non_snake_case)]
pub fn DriverQueryInformation() -> (r: Result<(), DriverError>)
    ensures
        r == Err::<(), DriverError>(DriverError::Error),
{
    Err(DriverError::Error)
}

/// Takes information for the driver. The driver needs none: the request
/// is done at once.
#[allow(non_snake_case)]
pub fn DriverSetInformation() -> (r: Result<(), DriverError>)
    ensures
        r == Ok::<(), DriverError>(()),
{
    Ok(())
}

} // verus!
