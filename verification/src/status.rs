//! Classification of provider statuses.

use crate::transport::{TransportCode, TransportError};
use vstd::prelude::*;

verus! {

/// gRPC status code of a malformed request.
pub const GRPC_INVALID_ARGUMENT: i32 = 3;

/// gRPC status code of an expired deadline.
pub const GRPC_DEADLINE_EXCEEDED: i32 = 4;

/// gRPC status code of a missing entity.
pub const GRPC_NOT_FOUND: i32 = 5;

/// gRPC status code of an entity that exists already.
pub const GRPC_ALREADY_EXISTS: i32 = 6;

/// gRPC status code of a missing permission.
pub const GRPC_PERMISSION_DENIED: i32 = 7;

/// gRPC status code of an exhausted quota.
pub const GRPC_RESOURCE_EXHAUSTED: i32 = 8;

/// gRPC status code of a failed precondition.
pub const GRPC_FAILED_PRECONDITION: i32 = 9;

/// gRPC status code of an aborted operation.
pub const GRPC_ABORTED: i32 = 10;

/// gRPC status code of an offset out of range.
pub const GRPC_OUT_OF_RANGE: i32 = 11;

/// gRPC status code of an operation that is not implemented.
pub const GRPC_UNIMPLEMENTED: i32 = 12;

/// gRPC status code of an unreachable service.
pub const GRPC_UNAVAILABLE: i32 = 14;

/// gRPC status code of damaged data.
pub const GRPC_DATA_LOSS: i32 = 15;

/// gRPC status code of an unknown identity.
pub const GRPC_UNAUTHENTICATED: i32 = 16;

/// The protocol's classification of a gRPC status code.
///
/// It decides about retries and is not a mirror of the codes: an exhausted
/// quota is throttling, so retrying with backoff can succeed. Codes without a
/// meaning to the protocol are internal failures, and no status is ambiguous.
pub open spec fn classified(code: i32) -> TransportCode {
    if code == GRPC_NOT_FOUND {
        TransportCode::NotFound
    } else if code == GRPC_ALREADY_EXISTS {
        TransportCode::AlreadyExists
    } else if code == GRPC_INVALID_ARGUMENT {
        TransportCode::InvalidArgument
    } else if code == GRPC_FAILED_PRECONDITION {
        TransportCode::FailedPrecondition
    } else if code == GRPC_ABORTED {
        TransportCode::Aborted
    } else if code == GRPC_OUT_OF_RANGE {
        TransportCode::OutOfRange
    } else if code == GRPC_RESOURCE_EXHAUSTED {
        TransportCode::ResourceExhausted
    } else if code == GRPC_UNIMPLEMENTED {
        TransportCode::Unimplemented
    } else if code == GRPC_DATA_LOSS {
        TransportCode::DataLoss
    } else if code == GRPC_UNAUTHENTICATED {
        TransportCode::Unauthenticated
    } else if code == GRPC_PERMISSION_DENIED {
        TransportCode::PermissionDenied
    } else if code == GRPC_UNAVAILABLE {
        TransportCode::Unavailable
    } else if code == GRPC_DEADLINE_EXCEEDED {
        TransportCode::DeadlineExceeded
    } else {
        TransportCode::Internal
    }
}

/// Classifies a gRPC status code.
pub fn transport_code(code: i32) -> (classification: TransportCode)
    ensures
        classification == classified(code),
{
    if code == GRPC_NOT_FOUND {
        TransportCode::NotFound
    } else if code == GRPC_ALREADY_EXISTS {
        TransportCode::AlreadyExists
    } else if code == GRPC_INVALID_ARGUMENT {
        TransportCode::InvalidArgument
    } else if code == GRPC_FAILED_PRECONDITION {
        TransportCode::FailedPrecondition
    } else if code == GRPC_ABORTED {
        TransportCode::Aborted
    } else if code == GRPC_OUT_OF_RANGE {
        TransportCode::OutOfRange
    } else if code == GRPC_RESOURCE_EXHAUSTED {
        TransportCode::ResourceExhausted
    } else if code == GRPC_UNIMPLEMENTED {
        TransportCode::Unimplemented
    } else if code == GRPC_DATA_LOSS {
        TransportCode::DataLoss
    } else if code == GRPC_UNAUTHENTICATED {
        TransportCode::Unauthenticated
    } else if code == GRPC_PERMISSION_DENIED {
        TransportCode::PermissionDenied
    } else if code == GRPC_UNAVAILABLE {
        TransportCode::Unavailable
    } else if code == GRPC_DEADLINE_EXCEEDED {
        TransportCode::DeadlineExceeded
    } else {
        TransportCode::Internal
    }
}

/// A failure of `zone` with this text.
pub open spec fn failed(error: TransportError, zone: usize, code: TransportCode, reason: Seq<char>) -> bool {
    error.zone == zone && error.code == code && error.message@ == reason
}

/// A failure that the client itself found.
pub fn failure(zone: usize, code: TransportCode, reason: &str) -> (error: TransportError)
    ensures
        failed(error, zone, code, reason@),
{
    TransportError { zone, code, message: reason.to_owned() }
}

/// The failure that a gRPC status stands for.
pub fn status(zone: usize, code: i32, message: String) -> (error: TransportError)
    ensures
        error == (TransportError { zone, code: classified(code), message }),
{
    TransportError { zone, code: transport_code(code), message }
}

/// The failure of a create whose only precondition is that the object does not
/// exist: the service reports the conflict as a failed precondition.
pub fn create_failure(error: TransportError) -> (classified_error: TransportError)
    ensures
        classified_error == (TransportError {
            code: if error.code == TransportCode::FailedPrecondition {
                TransportCode::AlreadyExists
            } else {
                error.code
            },
            ..error
        }),
{
    let mut error = error;
    if error.code == TransportCode::FailedPrecondition {
        error.code = TransportCode::AlreadyExists;
    }
    error
}

/// Every classification but that of an ambiguous outcome comes from some gRPC
/// status code, and no status code is classified as ambiguous.
pub proof fn law_status_codes_cover_the_classification(code: TransportCode)
    ensures
        code != TransportCode::Ambiguous ==> exists|c: i32| #[trigger] classified(c) == code,
        code == TransportCode::Ambiguous ==> forall|c: i32| #[trigger] classified(c) != code,
{
    let c: i32 = match code {
        TransportCode::NotFound => 5,
        TransportCode::AlreadyExists => 6,
        TransportCode::InvalidArgument => 3,
        TransportCode::FailedPrecondition => 9,
        TransportCode::Aborted => 10,
        TransportCode::OutOfRange => 11,
        TransportCode::ResourceExhausted => 8,
        TransportCode::Unimplemented => 12,
        TransportCode::DataLoss => 15,
        TransportCode::Unauthenticated => 16,
        TransportCode::PermissionDenied => 7,
        TransportCode::Unavailable => 14,
        TransportCode::DeadlineExceeded => 4,
        TransportCode::Internal => 13,
        TransportCode::Ambiguous => 0,
    };
    assert(code != TransportCode::Ambiguous ==> classified(c) == code);
}

/// The statuses that decide about retries keep their meaning: throttling and an
/// unreachable service, an expired deadline, a failed precondition, a missing or
/// existing object, damage, and a refused caller are told apart by their gRPC
/// codes. Every other code is an internal failure.
pub proof fn law_status_codes_keep_their_meaning(code: i32, class: TransportCode)
    requires
        call_ensures(transport_code, (code,), class),
    ensures
        class is InvalidArgument <==> code == 3,
        class is DeadlineExceeded <==> code == 4,
        class is NotFound <==> code == 5,
        class is AlreadyExists <==> code == 6,
        class is PermissionDenied <==> code == 7,
        class is ResourceExhausted <==> code == 8,
        class is FailedPrecondition <==> code == 9,
        class is Aborted <==> code == 10,
        class is OutOfRange <==> code == 11,
        class is Unimplemented <==> code == 12,
        class is Unavailable <==> code == 14,
        class is DataLoss <==> code == 15,
        class is Unauthenticated <==> code == 16,
        !(class is Ambiguous),
{
}

/// A failure says where it happened, what kind it is and what was said of it;
/// one that a status stands for has the status's class.
pub proof fn law_failures_say_what_happened(
    zone: usize,
    class: TransportCode,
    reason: &str,
    own: TransportError,
    code: i32,
    message: String,
    reported: TransportError,
    reported_class: TransportCode,
)
    requires
        call_ensures(failure, (zone, class, reason), own),
        call_ensures(status, (zone, code, message), reported),
        call_ensures(transport_code, (code,), reported_class),
    ensures
        own.zone == zone && own.code == class && own.message@ == reason@,
        reported.zone == zone && reported.code == reported_class && reported.message == message,
{
}

/// A create that failed its precondition found an existing object; every other
/// failure of a create is left as it is.
pub proof fn law_failed_create_found_an_object(error: TransportError, converted: TransportError)
    requires
        call_ensures(create_failure, (error,), converted),
    ensures
        converted.zone == error.zone,
        converted.message == error.message,
        error.code is FailedPrecondition ==> converted.code is AlreadyExists,
        !(error.code is FailedPrecondition) ==> converted.code == error.code,
{
}

} // verus!
