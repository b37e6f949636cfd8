//! The steps by which a session drives its codec and its container, and the draining of
//! finished packets that follows every submission.
//!
//! A session never touches the codec or the file itself. It hands out one [`Step`] at a
//! time; the caller carries it out and reports whether it succeeded; the session answers
//! with the next step, until the call is [`Step::Done`].

use vstd::prelude::*;
use crate::error::EncoderError;
use crate::rate::TimeBase;

verus! {

/// One thing for the caller to do next.
#[derive(Clone, Copy, Debug, PartialEq, Eq, Structural)]
pub enum Step {
    /// Submit the retained frame, which is the previous one again, stamped `pts`.
    SubmitDuplicate { pts: i64 },
    /// Submit the retained frame, which is the new one, stamped `pts`.
    SubmitFrame { pts: i64 },
    /// Ask the codec for its next finished packet. It succeeds when there is one.
    ReceivePacket,
    /// Write the packet just received: tag it with `stream_index`, rescale its timestamps
    /// from `time_base`, the encoder's, to the time base that the container declares for
    /// that stream, and write it interleaved with the packets of the other streams.
    WritePacket { stream_index: usize, time_base: TimeBase },
    /// Tell the codec that no more frames will come.
    SignalEndOfStream,
    /// Finish the container by writing its trailer.
    WriteTrailer,
    /// The call is complete.
    Done,
    /// The call is over and the session failed for good.
    Failed(EncoderError),
}

/// Where the draining of packets stands.
#[derive(Clone, Copy, Debug, PartialEq, Eq, Structural)]
pub enum DrainStage {
    /// The codec was asked for a packet.
    Receiving,
    /// A packet was handed out to be written.
    Writing,
}

/// How draining goes on after the outstanding step succeeded (`ok`) or not: a packet
/// that was received is written, after a packet that was written the next is asked for,
/// and draining ends (`None`) when the codec has no more packets or a write failed.
pub open spec fn drain_next(stage: DrainStage, ok: bool) -> Option<DrainStage> {
    match stage {
        DrainStage::Receiving => if ok {
            Some(DrainStage::Writing)
        } else {
            None
        },
        DrainStage::Writing => if ok {
            Some(DrainStage::Receiving)
        } else {
            None
        },
    }
}

/// The step that a stage of draining asks of the caller.
pub open spec fn drain_step(stage: DrainStage, stream_index: usize, time_base: TimeBase) -> Step {
    match stage {
        DrainStage::Receiving => Step::ReceivePacket,
        DrainStage::Writing => Step::WritePacket { stream_index, time_base },
    }
}

/// The stage of draining that follows `stage`, given how its step ended; `None` when
/// draining is over. A failed write ends it early: the packets still in the codec stay
/// there for the next call.
pub fn drain_advance(stage: DrainStage, ok: bool) -> (next: Option<DrainStage>)
    ensures
        next == drain_next(stage, ok),
{
    if ok {
        match stage {
            DrainStage::Receiving => Some(DrainStage::Writing),
            DrainStage::Writing => Some(DrainStage::Receiving),
        }
    } else {
        None
    }
}

/// The step to hand out for a stage of draining on the stream `stream_index`, whose
/// encoder counts time in `time_base`.
pub fn drain_request(stage: DrainStage, stream_index: usize, time_base: TimeBase) -> (step: Step)
    ensures
        step == drain_step(stage, stream_index, time_base),
{
    match stage {
        DrainStage::Receiving => Step::ReceivePacket,
        DrainStage::Writing => Step::WritePacket { stream_index, time_base },
    }
}

} // verus!
