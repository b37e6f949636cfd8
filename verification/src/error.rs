//! The ways in which a recording session can fail, and which stage of setting one up
//! gives which failure.

use vstd::prelude::*;

verus! {

/// What went wrong.
#[derive(Clone, Copy, Debug, PartialEq, Eq, Structural)]
pub enum EncoderError {
    /// The output container could not be opened, begun or finished.
    ContainerOpenFailed,
    /// No bitstream encoder for the wanted codec is at hand.
    CodecUnavailable,
    /// The encoder did not accept its parameters, or refused to start or to finish.
    EncoderNegotiationFailed,
    /// A finished packet could not be written to the container.
    PacketWriteFailed,
    /// A pixel buffer does not have the size that its dimensions and layout call for.
    InvalidBufferSize,
    /// The session was closed: it takes no more frames and cannot be closed again.
    SessionClosed,
    /// The steps of an earlier call on this session have not all been carried out.
    CallInProgress,
}

/// The stages of setting up an encoder, in the order in which they are gone through.
#[derive(Clone, Copy, Debug, PartialEq, Eq, Structural)]
pub enum SetupStage {
    /// Opening the output container at its path.
    OpenContainer,
    /// Looking up the bitstream encoder.
    FindCodec,
    /// Adding the stream to the container.
    AddStream,
    /// Making the encoder's context.
    CreateEncoder,
    /// Opening the encoder with its parameters and options.
    OpenEncoder,
    /// Writing the container's header.
    WriteHeader,
}

/// The failure that a session reports when the given stage of its setup fails: what
/// concerns the container is a failure to open it, a missing codec is a codec that is not
/// available, and what concerns the encoder's context is a failed negotiation.
pub open spec fn failure_at(stage: SetupStage) -> EncoderError {
    match stage {
        SetupStage::OpenContainer => EncoderError::ContainerOpenFailed,
        SetupStage::FindCodec => EncoderError::CodecUnavailable,
        SetupStage::AddStream => EncoderError::ContainerOpenFailed,
        SetupStage::CreateEncoder => EncoderError::EncoderNegotiationFailed,
        SetupStage::OpenEncoder => EncoderError::EncoderNegotiationFailed,
        SetupStage::WriteHeader => EncoderError::ContainerOpenFailed,
    }
}

/// The failure to report when `stage` of the setup fails. Every such failure ends the
/// session before it began.
pub fn setup_failure(stage: SetupStage) -> (error: EncoderError)
    ensures
        error == failure_at(stage),
        error == EncoderError::ContainerOpenFailed || error == EncoderError::CodecUnavailable
            || error == EncoderError::EncoderNegotiationFailed,
{
    match stage {
        SetupStage::OpenContainer => EncoderError::ContainerOpenFailed,
        SetupStage::FindCodec => EncoderError::CodecUnavailable,
        SetupStage::AddStream => EncoderError::ContainerOpenFailed,
        SetupStage::CreateEncoder => EncoderError::EncoderNegotiationFailed,
        SetupStage::OpenEncoder => EncoderError::EncoderNegotiationFailed,
        SetupStage::WriteHeader => EncoderError::ContainerOpenFailed,
    }
}

impl EncoderError {
    /// Whether a failure of this kind ends the session: those of setting up and closing do,
    /// a packet that could not be written and a rejected call do not.
    pub open spec fn fatal(self) -> bool {
        self == EncoderError::ContainerOpenFailed || self == EncoderError::CodecUnavailable
            || self == EncoderError::EncoderNegotiationFailed
    }

    /// Whether a failure of this kind ends the session.
    pub fn is_fatal(&self) -> (fatal: bool)
        ensures
            fatal == self.fatal(),
    {
        match self {
            EncoderError::ContainerOpenFailed => true,
            EncoderError::CodecUnavailable => true,
            EncoderError::EncoderNegotiationFailed => true,
            EncoderError::PacketWriteFailed => false,
            EncoderError::InvalidBufferSize => false,
            EncoderError::SessionClosed => false,
            EncoderError::CallInProgress => false,
        }
    }

    /// A short description of the failure, for a log line.
    pub fn message(&self) -> (text: &'static str)
        ensures
            text@ == match *self {
                EncoderError::ContainerOpenFailed => "output container could not be opened"@,
                EncoderError::CodecUnavailable => "codec is not available"@,
                EncoderError::EncoderNegotiationFailed => "encoder refused its parameters"@,
                EncoderError::PacketWriteFailed => "packet could not be written"@,
                EncoderError::InvalidBufferSize => "buffer size does not match the dimensions"@,
                EncoderError::SessionClosed => "session is closed"@,
                EncoderError::CallInProgress => "an earlier call is still in progress"@,
            },
    {
        match self {
            EncoderError::ContainerOpenFailed => "output container could not be opened",
            EncoderError::CodecUnavailable => "codec is not available",
            EncoderError::EncoderNegotiationFailed => "encoder refused its parameters",
            EncoderError::PacketWriteFailed => "packet could not be written",
            EncoderError::InvalidBufferSize => "buffer size does not match the dimensions",
            EncoderError::SessionClosed => "session is closed",
            EncoderError::CallInProgress => "an earlier call is still in progress",
        }
    }
}

} // verus!
