use chorus::error::{Error, ManifestStoreError, ProtocolError, RecordError};
use chorus::seqno::{AppendReceipt, WalSeqNo};
use chorus::transport::{TransportCode, TransportError};

#[test]
fn append_outcome_predicate_is_conservative_only_for_ambiguous_classes() {
    for error in [
        Error::Closed,
        Error::Internal("opaque invariant".into()),
        Error::Poisoned,
        Error::Fenced("new owner".into()),
        Error::PipelineClosed,
        Error::Transport {
            zone: 0,
            code: TransportCode::Unavailable,
            message: "response lost".into(),
        },
    ] {
        assert!(error.may_have_committed(), "{error:?}");
    }

    for error in [
        Error::InvalidConfig("bad limit"),
        Error::NoQuorum,
        Error::SegmentDirectoryFull,
        Error::ManifestUnavailable,
        Error::Finalized,
        Error::OutOfOrder { expected: WalSeqNo::zero(), actual: WalSeqNo::record(1) },
        Error::ActiveSegmentFull { max: 8, current: 8, requested: 1 },
    ] {
        assert!(!error.may_have_committed(), "{error:?}");
    }
}

#[test]
fn protocol_errors_keep_structured_public_classifications() {
    assert!(matches!(Error::from(ProtocolError::NoQuorum), Error::NoQuorum));
    assert!(matches!(
        Error::from(ProtocolError::Fenced("new owner".into())),
        Error::Fenced(message) if message == "new owner"
    ));
    assert!(matches!(
        Error::from(ProtocolError::SegmentDirectoryFull),
        Error::SegmentDirectoryFull
    ));
    assert!(matches!(
        Error::from(ProtocolError::ManifestUnavailable),
        Error::ManifestUnavailable
    ));
    assert!(matches!(
        Error::from(ProtocolError::InvalidManifest("bad register".into())),
        Error::InvalidManifest(message) if message == "bad register"
    ));
    assert!(matches!(Error::from(ProtocolError::Finalized), Error::Finalized));
    assert!(matches!(
        Error::from(ProtocolError::ConflictingPrefix { record_index: 7 }),
        Error::ConflictingPrefix { record_index: 7 }
    ));
    assert!(matches!(
        Error::from(ProtocolError::RecoveryPrefixTooShort { expected: 4, actual: 3 }),
        Error::RecoveryPrefixTooShort { expected: 4, actual: 3 }
    ));
    assert!(matches!(
        Error::from(ProtocolError::SealDigestMismatch {
            expected: "expected".into(),
            actual: "actual".into(),
        }),
        Error::SealDigestMismatch { expected, actual }
            if expected == "expected" && actual == "actual"
    ));
    assert!(matches!(
        Error::from(ProtocolError::SealCrc32cMismatch { expected: 1, actual: 2 }),
        Error::SealCrc32cMismatch { expected: 1, actual: 2 }
    ));
    assert!(matches!(
        Error::from(ProtocolError::ManifestStore(ManifestStoreError::Backend("failed".into()))),
        Error::ManifestStore(ManifestStoreError::Backend(message)) if message == "failed"
    ));
    assert!(matches!(Error::from(ProtocolError::PipelineClosed), Error::PipelineClosed));
    assert!(matches!(
        Error::from(ProtocolError::Transport(TransportError {
            zone: 2,
            code: TransportCode::Unavailable,
            message: "down".into(),
        })),
        Error::Transport { zone: 2, code: TransportCode::Unavailable, message }
            if message == "down"
    ));
}

#[test]
fn conversions_keep_their_causes() {
    let transport = TransportError {
        zone: 1,
        code: TransportCode::NotFound,
        message: "gone".into(),
    };
    assert!(matches!(
        Error::from(transport.clone()),
        Error::Transport { zone: 1, code: TransportCode::NotFound, message } if message == "gone"
    ));
    assert_eq!(transport.message, "gone");
    assert!(matches!(
        Error::from(RecordError { message: "bad frame".into() }),
        Error::InvalidSegmentData(message) if message == "bad frame"
    ));
    assert!(matches!(
        Error::from(ManifestStoreError::Conflict),
        Error::ManifestStore(ManifestStoreError::Conflict)
    ));
}

#[test]
fn a_receipt_names_the_next_sequence_number() {
    let receipt = AppendReceipt { seqno: WalSeqNo::record(41) };
    assert_eq!(receipt.next_seqno(), WalSeqNo::record(42));
    assert_eq!(WalSeqNo::zero().record_index, 0);
}
