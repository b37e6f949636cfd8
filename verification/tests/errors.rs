use capture_encoder::error::{setup_failure, EncoderError, SetupStage};

#[test]
fn each_stage_of_setup_has_its_failure() {
    assert_eq!(setup_failure(SetupStage::OpenContainer), EncoderError::ContainerOpenFailed);
    assert_eq!(setup_failure(SetupStage::FindCodec), EncoderError::CodecUnavailable);
    assert_eq!(setup_failure(SetupStage::AddStream), EncoderError::ContainerOpenFailed);
    assert_eq!(setup_failure(SetupStage::CreateEncoder), EncoderError::EncoderNegotiationFailed);
    assert_eq!(setup_failure(SetupStage::OpenEncoder), EncoderError::EncoderNegotiationFailed);
    assert_eq!(setup_failure(SetupStage::WriteHeader), EncoderError::ContainerOpenFailed);
}

#[test]
fn failures_of_setup_and_close_are_fatal() {
    assert!(EncoderError::ContainerOpenFailed.is_fatal());
    assert!(EncoderError::CodecUnavailable.is_fatal());
    assert!(EncoderError::EncoderNegotiationFailed.is_fatal());
    assert!(!EncoderError::PacketWriteFailed.is_fatal());
    assert!(!EncoderError::InvalidBufferSize.is_fatal());
    assert!(!EncoderError::SessionClosed.is_fatal());
    assert!(!EncoderError::CallInProgress.is_fatal());
}

#[test]
fn every_failure_has_its_own_message() {
    let all = [
        EncoderError::ContainerOpenFailed,
        EncoderError::CodecUnavailable,
        EncoderError::EncoderNegotiationFailed,
        EncoderError::PacketWriteFailed,
        EncoderError::InvalidBufferSize,
        EncoderError::SessionClosed,
        EncoderError::CallInProgress,
    ];
    for (i, a) in all.iter().enumerate() {
        assert!(!a.message().is_empty());
        for b in all.iter().skip(i + 1) {
            assert_ne!(a.message(), b.message());
        }
    }
    assert_eq!(EncoderError::PacketWriteFailed.message(), "packet could not be written");
}
