//! The poller of outgoing packets: it takes the packets of the queue one by
//! one, in the order in which they were queued, and writes each to the
//! stream before it takes the next.

use crate::error::PollOutputError;
use tokio_xmpp::Packet;
use vstd::prelude::*;

verus! {

/// What the poller has just done.
#[derive(Debug, PartialEq, Eq)]
pub enum OutputEvent {
    /// It took the next packet from the queue; `None` where the queue is
    /// closed and empty.
    Received(Option<Packet>),
    /// It wrote a packet to the stream, which took it or not.
    Written(bool),
}

/// What the poller does next.
#[derive(Debug, PartialEq, Eq)]
pub enum OutputStep {
    /// Take the next packet from the queue.
    Receive,
    /// Write this packet to the stream.
    Write(Packet),
    /// Stop.
    Stop(Result<(), PollOutputError>),
}

/// What the poller does after `event`: it writes the packet it received,
/// takes the next one after a write that the stream took, stops without
/// error when the queue is closed, and stops with `PacketSendError` after a
/// write that the stream refused.
pub open spec fn output_step(event: OutputEvent) -> OutputStep {
    match event {
        OutputEvent::Received(Some(packet)) => OutputStep::Write(packet),
        OutputEvent::Received(None) => OutputStep::Stop(Ok(())),
        OutputEvent::Written(true) => OutputStep::Receive,
        OutputEvent::Written(false) => OutputStep::Stop(Err(PollOutputError::PacketSendError)),
    }
}

/// One turn of the poller: what to do after `event`. The poller starts by
/// taking a packet from the queue.
pub fn poll_output_event(event: OutputEvent) -> (step: OutputStep)
    ensures
        step == output_step(event),
{
    match event {
        OutputEvent::Received(Some(packet)) => OutputStep::Write(packet),
        OutputEvent::Received(None) => OutputStep::Stop(Ok(())),
        OutputEvent::Written(written) => {
            if written {
                OutputStep::Receive
            } else {
                OutputStep::Stop(Err(PollOutputError::PacketSendError))
            }
        },
    }
}

} // verus!
