//! The public failure taxonomy and the conversions into it.

use crate::seqno::WalSeqNo;
use crate::time::Span;
use crate::transport::{TransportCode, TransportError};
use vstd::prelude::*;

verus! {

/// Failure of a manifest register operation.
#[derive(Debug)]
pub enum ManifestStoreError {
    /// The register could not be reached; retrying may help.
    Unavailable(String),
    /// The register failed terminally.
    Backend(String),
    /// A create found an existing register.
    AlreadyExists,
    /// A compare-and-swap lost against another update.
    Conflict,
}

impl Clone for ManifestStoreError {
    fn clone(&self) -> (copy: Self)
        ensures
            copy == *self,
    {
        match self {
            ManifestStoreError::Unavailable(message) => ManifestStoreError::Unavailable(
                message.clone(),
            ),
            ManifestStoreError::Backend(message) => ManifestStoreError::Backend(message.clone()),
            ManifestStoreError::AlreadyExists => ManifestStoreError::AlreadyExists,
            ManifestStoreError::Conflict => ManifestStoreError::Conflict,
        }
    }
}

/// Failure of record framing.
#[derive(Clone, Debug)]
pub struct RecordError {
    /// What is wrong with the frame.
    pub message: String,
}

/// Failure of the replication protocol below the public interface.
#[derive(Clone, Debug)]
pub enum ProtocolError {
    /// The replica count is none of 1, 3 and 5.
    ReplicaCount,
    /// An operation could not reach a strict-majority replica quorum.
    NoQuorum,
    /// An indeterminate append broke the ordered commit prefix.
    Poisoned,
    /// A newer manifest epoch owns the log.
    Fenced(String),
    /// Witnesses disagree at one record boundary.
    ConflictingPrefix {
        /// First record index where the witnesses disagree.
        record_index: usize,
    },
    /// Fewer records were recovered than were committed.
    RecoveryPrefixTooShort {
        /// Minimum record count required by the committed boundary.
        expected: usize,
        /// Record count recovered.
        actual: usize,
    },
    /// Recovered bytes disagree with the committed SHA-256 seal.
    SealDigestMismatch {
        /// Digest committed by the manifest.
        expected: String,
        /// Digest of the recovered bytes.
        actual: String,
    },
    /// Recovered bytes disagree with the committed CRC32C.
    SealCrc32cMismatch {
        /// Checksum committed by the manifest.
        expected: u32,
        /// Checksum of the recovered bytes.
        actual: u32,
    },
    /// The manifest register is malformed or belongs to another volume.
    InvalidManifest(String),
    /// The manifest cannot retain another sealed-segment entry.
    SegmentDirectoryFull,
    /// A caller-supplied manifest register failed.
    ManifestStore(ManifestStoreError),
    /// The register remained unavailable through its retry budget.
    ManifestUnavailable,
    /// A commit notification path closed before reporting a result.
    PipelineClosed,
    /// The segment writer is already finalized.
    Finalized,
    /// Record framing failed.
    Record(RecordError),
    /// A replica operation failed.
    Transport(TransportError),
}

/// Failure of a public operation of the log.
///
/// Admission errors are definitive and may be corrected by the caller. In
/// particular, `ActiveSegmentFull` does not consume the supplied sequence
/// number: truncate retained history so rotation can proceed, then retry the
/// same append. Use [`Error::may_have_committed`] on an append completion error
/// before deciding whether recovery must resolve an ambiguous outcome.
#[derive(Debug)]
#[non_exhaustive]
pub enum Error {
    /// The background task was aborted, failed, or shut down.
    Closed,
    /// Graceful shutdown exceeded its configured deadline.
    ShutdownTimeout {
        /// Configured graceful-shutdown deadline.
        timeout: Span,
    },
    /// A channel could not be constructed or connected.
    Connection(String),
    /// The configured identity provider could not issue a token.
    TokenSource(String),
    /// A bearer token cannot be represented in an ASCII header.
    InvalidToken,
    /// Refreshing would busy-loop because an interval was zero.
    InvalidRefreshInterval,
    /// A capacity or size limit was invalid or inconsistent.
    InvalidConfig(&'static str),
    /// Fewer than a strict-majority quorum of replicas could be read.
    NoReadQuorum,
    /// An operation could not reach a strict-majority replica quorum.
    NoQuorum,
    /// Listed objects or decoded finalized bytes did not form one chain.
    InvalidCatalog(String),
    /// The application supplied a checkpoint below its prior checkpoint.
    CheckpointRegression {
        /// Checkpoint previously supplied to this writer.
        current: WalSeqNo,
        /// Regressing checkpoint supplied by the caller.
        requested: WalSeqNo,
    },
    /// Finalized bytes or inferred bounds disagree with record framing.
    InvalidSegmentData(String),
    /// Recovery witnesses contain different bytes at one record boundary.
    ConflictingPrefix {
        /// First record index where the recovered witnesses disagree.
        record_index: usize,
    },
    /// Recovery did not find the committed number of records.
    RecoveryPrefixTooShort {
        /// Minimum record count required by the committed boundary.
        expected: usize,
        /// Record count recovered from the available witnesses.
        actual: usize,
    },
    /// Recovered bytes disagree with the manifest's committed SHA-256 seal.
    SealDigestMismatch {
        /// Digest committed by the manifest.
        expected: String,
        /// Digest computed from the recovered bytes.
        actual: String,
    },
    /// Recovered bytes disagree with the manifest's committed CRC32C.
    SealCrc32cMismatch {
        /// CRC32C committed by the manifest.
        expected: u32,
        /// CRC32C computed from the recovered bytes.
        actual: u32,
    },
    /// The manifest register is malformed or inconsistent with this volume.
    InvalidManifest(String),
    /// The manifest cannot retain another sealed-segment directory entry.
    SegmentDirectoryFull,
    /// The manifest register remained unavailable through its retry budget.
    ManifestUnavailable,
    /// A caller-supplied manifest register operation failed.
    ManifestStore(ManifestStoreError),
    /// A commit notification path closed before reporting a result.
    PipelineClosed,
    /// The low-level segment writer is already finalized.
    Finalized,
    /// An internal invariant failed without a more stable public taxonomy.
    Internal(String),
    /// An indeterminate append broke the ordered commit prefix.
    Poisoned,
    /// This writer lost ownership to a newer manifest epoch.
    Fenced(String),
    /// The caller supplied a sequence number other than the next admission.
    OutOfOrder {
        /// Exact sequence number required for the next admission.
        expected: WalSeqNo,
        /// Sequence number supplied by the caller.
        actual: WalSeqNo,
    },
    /// A record exceeded the configured application-payload limit.
    RecordTooLarge {
        /// Configured per-record payload-byte limit.
        max: usize,
        /// Payload bytes supplied by the caller.
        actual: usize,
    },
    /// The active object cannot admit another encoded record without crossing
    /// its configured hard ceiling.
    ///
    /// The writer remains healthy and the sequence number was not consumed.
    ActiveSegmentFull {
        /// Configured hard active-object ceiling.
        max: usize,
        /// Encoded bytes already charged to the active segment.
        current: usize,
        /// Encoded bytes required by the rejected record.
        requested: usize,
    },
    /// No further contiguous sequence number can be represented.
    SequenceExhausted,
    /// Startup replay did not reach its fixed end successfully.
    RecoveryIncomplete,
    /// A provider operation failed with a stable classification.
    Transport {
        /// Replica zone where the operation failed.
        zone: usize,
        /// Stable protocol-facing classification.
        code: TransportCode,
        /// Provider diagnostic text; correctness never matches this string.
        message: String,
    },
}

impl Clone for Error {
    fn clone(&self) -> (copy: Self)
        ensures
            copy == *self,
    {
        match self {
            Error::Closed => Error::Closed,
            Error::ShutdownTimeout { timeout } => Error::ShutdownTimeout { timeout: *timeout },
            Error::Connection(inner) => Error::Connection(inner.clone()),
            Error::TokenSource(inner) => Error::TokenSource(inner.clone()),
            Error::InvalidToken => Error::InvalidToken,
            Error::InvalidRefreshInterval => Error::InvalidRefreshInterval,
            Error::InvalidConfig(reason) => Error::InvalidConfig(*reason),
            Error::NoReadQuorum => Error::NoReadQuorum,
            Error::NoQuorum => Error::NoQuorum,
            Error::InvalidCatalog(inner) => Error::InvalidCatalog(inner.clone()),
            Error::CheckpointRegression { current, requested } => Error::CheckpointRegression { current: *current, requested: *requested },
            Error::InvalidSegmentData(inner) => Error::InvalidSegmentData(inner.clone()),
            Error::ConflictingPrefix { record_index } => Error::ConflictingPrefix { record_index: *record_index },
            Error::RecoveryPrefixTooShort { expected, actual } => Error::RecoveryPrefixTooShort { expected: *expected, actual: *actual },
            Error::SealDigestMismatch { expected, actual } => Error::SealDigestMismatch { expected: expected.clone(), actual: actual.clone() },
            Error::SealCrc32cMismatch { expected, actual } => Error::SealCrc32cMismatch { expected: *expected, actual: *actual },
            Error::InvalidManifest(inner) => Error::InvalidManifest(inner.clone()),
            Error::SegmentDirectoryFull => Error::SegmentDirectoryFull,
            Error::ManifestUnavailable => Error::ManifestUnavailable,
            Error::ManifestStore(inner) => Error::ManifestStore(inner.clone()),
            Error::PipelineClosed => Error::PipelineClosed,
            Error::Finalized => Error::Finalized,
            Error::Internal(inner) => Error::Internal(inner.clone()),
            Error::Poisoned => Error::Poisoned,
            Error::Fenced(inner) => Error::Fenced(inner.clone()),
            Error::OutOfOrder { expected, actual } => Error::OutOfOrder { expected: *expected, actual: *actual },
            Error::RecordTooLarge { max, actual } => Error::RecordTooLarge { max: *max, actual: *actual },
            Error::ActiveSegmentFull { max, current, requested } => Error::ActiveSegmentFull { max: *max, current: *current, requested: *requested },
            Error::SequenceExhausted => Error::SequenceExhausted,
            Error::RecoveryIncomplete => Error::RecoveryIncomplete,
            Error::Transport { zone, code, message } => Error::Transport { zone: *zone, code: *code, message: message.clone() },
        }
    }
}

impl Error {
    /// The failures that an admitted append can meet before recovery has
    /// determined its durable outcome.
    pub open spec fn ambiguous(self) -> bool {
        ||| self is Closed
        ||| self is Internal
        ||| self is Poisoned
        ||| self is Fenced
        ||| self is PipelineClosed
        ||| self is Transport
    }

    /// Whether this error can be observed after an append was admitted but
    /// before recovery determines its durable outcome.
    ///
    /// `true` is deliberately conservative: a caller handling an admitted
    /// append must then assume that it may replay after takeover. Every other
    /// failure is definitive for the attempted append.
    pub fn may_have_committed(&self) -> (ambiguous: bool)
        ensures
            ambiguous == self.ambiguous(),
    {
        match self {
            Error::Closed => true,
            Error::Internal(_) => true,
            Error::Poisoned => true,
            Error::Fenced(_) => true,
            Error::PipelineClosed => true,
            Error::Transport { .. } => true,
            _ => false,
        }
    }
}

impl vstd::std_specs::convert::FromSpecImpl<TransportError> for Error {
    open spec fn obeys_from_spec() -> bool {
        true
    }

    open spec fn from_spec(error: TransportError) -> Self {
        Error::Transport { zone: error.zone, code: error.code, message: error.message }
    }
}

impl From<TransportError> for Error {
    fn from(error: TransportError) -> (converted: Self) {
        Error::Transport { zone: error.zone, code: error.code, message: error.message }
    }
}

impl vstd::std_specs::convert::FromSpecImpl<RecordError> for Error {
    open spec fn obeys_from_spec() -> bool {
        true
    }

    open spec fn from_spec(error: RecordError) -> Self {
        Error::InvalidSegmentData(error.message)
    }
}

impl From<RecordError> for Error {
    fn from(error: RecordError) -> (converted: Self) {
        Error::InvalidSegmentData(error.message)
    }
}

impl vstd::std_specs::convert::FromSpecImpl<ManifestStoreError> for Error {
    open spec fn obeys_from_spec() -> bool {
        true
    }

    open spec fn from_spec(error: ManifestStoreError) -> Self {
        Error::ManifestStore(error)
    }
}

impl From<ManifestStoreError> for Error {
    fn from(error: ManifestStoreError) -> (converted: Self) {
        Error::ManifestStore(error)
    }
}

impl vstd::std_specs::convert::FromSpecImpl<ProtocolError> for Error {
    open spec fn obeys_from_spec() -> bool {
        true
    }

    open spec fn from_spec(error: ProtocolError) -> Self {
        match error {
            ProtocolError::ReplicaCount => Error::InvalidConfig("replica count must be 1, 3, or 5"),
            ProtocolError::NoQuorum => Error::NoQuorum,
            ProtocolError::Poisoned => Error::Poisoned,
            ProtocolError::Fenced(message) => Error::Fenced(message),
            ProtocolError::ConflictingPrefix { record_index } => Error::ConflictingPrefix {
                record_index,
            },
            ProtocolError::RecoveryPrefixTooShort { expected, actual } => {
                Error::RecoveryPrefixTooShort { expected, actual }
            },
            ProtocolError::SealDigestMismatch { expected, actual } => Error::SealDigestMismatch {
                expected,
                actual,
            },
            ProtocolError::SealCrc32cMismatch { expected, actual } => Error::SealCrc32cMismatch {
                expected,
                actual,
            },
            ProtocolError::InvalidManifest(message) => Error::InvalidManifest(message),
            ProtocolError::SegmentDirectoryFull => Error::SegmentDirectoryFull,
            ProtocolError::ManifestStore(inner) => Error::ManifestStore(inner),
            ProtocolError::ManifestUnavailable => Error::ManifestUnavailable,
            ProtocolError::PipelineClosed => Error::PipelineClosed,
            ProtocolError::Finalized => Error::Finalized,
            ProtocolError::Record(inner) => Error::InvalidSegmentData(inner.message),
            ProtocolError::Transport(inner) => Error::Transport {
                zone: inner.zone,
                code: inner.code,
                message: inner.message,
            },
        }
    }
}

impl From<ProtocolError> for Error {
    fn from(error: ProtocolError) -> (converted: Self) {
        match error {
            ProtocolError::ReplicaCount => Error::InvalidConfig("replica count must be 1, 3, or 5"),
            ProtocolError::NoQuorum => Error::NoQuorum,
            ProtocolError::Poisoned => Error::Poisoned,
            ProtocolError::Fenced(message) => Error::Fenced(message),
            ProtocolError::ConflictingPrefix { record_index } => Error::ConflictingPrefix {
                record_index,
            },
            ProtocolError::RecoveryPrefixTooShort { expected, actual } => {
                Error::RecoveryPrefixTooShort { expected, actual }
            },
            ProtocolError::SealDigestMismatch { expected, actual } => Error::SealDigestMismatch {
                expected,
                actual,
            },
            ProtocolError::SealCrc32cMismatch { expected, actual } => Error::SealCrc32cMismatch {
                expected,
                actual,
            },
            ProtocolError::InvalidManifest(message) => Error::InvalidManifest(message),
            ProtocolError::SegmentDirectoryFull => Error::SegmentDirectoryFull,
            ProtocolError::ManifestStore(inner) => Error::ManifestStore(inner),
            ProtocolError::ManifestUnavailable => Error::ManifestUnavailable,
            ProtocolError::PipelineClosed => Error::PipelineClosed,
            ProtocolError::Finalized => Error::Finalized,
            ProtocolError::Record(inner) => Error::InvalidSegmentData(inner.message),
            ProtocolError::Transport(inner) => Error::from(inner),
        }
    }
}

/// Converting a protocol failure keeps the distinction that callers act on:
/// the public error is ambiguous exactly when the protocol failure leaves an
/// admitted append undecided.
pub proof fn law_conversion_keeps_ambiguity(error: ProtocolError)
    ensures
        <Error as vstd::std_specs::convert::FromSpec<ProtocolError>>::from_spec(error).ambiguous() <==> {
            ||| error is Poisoned
            ||| error is Fenced
            ||| error is PipelineClosed
            ||| error is Transport
        },
{
}

/// An outcome is undecided exactly for the failures that can strike between
/// admission and outcome: a closed or poisoned log, a fenced writer, an internal
/// failure, a closed pipeline, or a transport. Every other error is definitive.
pub proof fn law_undecided_outcomes(error: &Error, ambiguous: bool)
    requires
        call_ensures(Error::may_have_committed, (error,), ambiguous),
    ensures
        ambiguous <==> error is Closed || error is Internal || error is Poisoned || error is Fenced
            || error is PipelineClosed || error is Transport,
{
}

/// Converting a protocol failure loses nothing: it becomes the public error of
/// the same kind, with what it carried.
pub proof fn law_conversion_keeps_the_failure(error: ProtocolError, converted: Error)
    requires
        call_ensures(<Error as From<ProtocolError>>::from, (error,), converted),
    ensures
        error is ReplicaCount <==> converted is InvalidConfig,
        error is NoQuorum <==> converted is NoQuorum,
        error is Poisoned <==> converted is Poisoned,
        error is Fenced <==> converted is Fenced,
        error is Fenced ==> converted->Fenced_0 == error->Fenced_0,
        error is ConflictingPrefix <==> converted is ConflictingPrefix,
        error is ConflictingPrefix ==> converted->ConflictingPrefix_record_index
            == error->ConflictingPrefix_record_index,
        error is RecoveryPrefixTooShort <==> converted is RecoveryPrefixTooShort,
        error is RecoveryPrefixTooShort ==> converted->RecoveryPrefixTooShort_expected
            == error->RecoveryPrefixTooShort_expected && converted->RecoveryPrefixTooShort_actual
            == error->RecoveryPrefixTooShort_actual,
        error is SealDigestMismatch <==> converted is SealDigestMismatch,
        error is SealDigestMismatch ==> converted->SealDigestMismatch_expected
            == error->SealDigestMismatch_expected && converted->SealDigestMismatch_actual
            == error->SealDigestMismatch_actual,
        error is SealCrc32cMismatch <==> converted is SealCrc32cMismatch,
        error is SealCrc32cMismatch ==> converted->SealCrc32cMismatch_expected
            == error->SealCrc32cMismatch_expected && converted->SealCrc32cMismatch_actual
            == error->SealCrc32cMismatch_actual,
        error is InvalidManifest <==> converted is InvalidManifest,
        error is InvalidManifest ==> converted->InvalidManifest_0 == error->InvalidManifest_0,
        error is SegmentDirectoryFull <==> converted is SegmentDirectoryFull,
        error is ManifestStore <==> converted is ManifestStore,
        error is ManifestStore ==> converted->ManifestStore_0 == error->ManifestStore_0,
        error is ManifestUnavailable <==> converted is ManifestUnavailable,
        error is PipelineClosed <==> converted is PipelineClosed,
        error is Finalized <==> converted is Finalized,
        error is Record <==> converted is InvalidSegmentData,
        error is Record ==> converted->InvalidSegmentData_0 == error->Record_0.message,
        error is Transport <==> converted is Transport,
        error is Transport ==> converted->Transport_zone == error->Transport_0.zone
            && converted->Transport_code == error->Transport_0.code
            && converted->Transport_message == error->Transport_0.message,
{
}

} // verus!
