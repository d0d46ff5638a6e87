//! The generation-zero takeover probe against a live bucket.

use crate::status;
use crate::text;
use crate::transport::{LaneDurableChange, ReplicaSnapshot, TransportCode, TransportError};
use vstd::prelude::*;

verus! {

/// One generation-zero append-open response observed by the live probe.
#[derive(Clone, Copy, Debug, PartialEq, Eq)]
pub struct GenerationZeroOpenObservation {
    /// Authoritative tail derived from the opening response.
    pub persisted_size: i64,
    /// Object-resource size in the opening response, if the service supplied a
    /// resource.
    pub resource_size: Option<i64>,
}

/// Independent observations of the generation-zero probe.
#[derive(Debug)]
pub struct GenerationZeroTakeoverProbeResult {
    /// Number of bytes the probe requested to persist.
    pub expected_size: i64,
    /// Result of creating an appendable object and flushing the payload.
    pub append: Result<i64, TransportError>,
    /// Present-object takeover result, absent only when creation or append
    /// failed.
    pub takeover: Option<Result<GenerationZeroOpenObservation, TransportError>>,
    /// Generation-zero open result for a never-created object.
    pub absent: Result<GenerationZeroOpenObservation, TransportError>,
    /// Cleanup result for the object that may have been created.
    pub cleanup: Result<(), TransportError>,
}

fn copy_result<T: Copy>(result: &Result<T, TransportError>) -> (copy: Result<T, TransportError>)
    ensures
        copy == *result,
{
    match result {
        Ok(value) => Ok(*value),
        Err(error) => Err(error.clone()),
    }
}

impl Clone for GenerationZeroTakeoverProbeResult {
    fn clone(&self) -> (copy: Self)
        ensures
            copy == *self,
    {
        GenerationZeroTakeoverProbeResult {
            expected_size: self.expected_size,
            append: copy_result(&self.append),
            takeover: match &self.takeover {
                Some(takeover) => Some(copy_result(takeover)),
                None => None,
            },
            absent: copy_result(&self.absent),
            cleanup: copy_result(&self.cleanup),
        }
    }
}

/// Checks the payload's length: it has to fit a size, and may not be zero.
pub fn probe_payload_size(zone: usize, payload_bytes: usize) -> (result: Result<
    i64,
    TransportError,
>)
    ensures
        if payload_bytes > i64::MAX {
            result matches Err(error) && status::failed(
                error,
                zone,
                TransportCode::InvalidArgument,
                "probe payload length does not fit in i64"@,
            )
        } else if payload_bytes == 0 {
            result matches Err(error) && status::failed(
                error,
                zone,
                TransportCode::InvalidArgument,
                "probe payload must be non-empty"@,
            )
        } else {
            result matches Ok(size) && size == payload_bytes
        },
{
    if payload_bytes as u64 > i64::MAX as u64 {
        return Err(
            status::failure(
                zone,
                TransportCode::InvalidArgument,
                "probe payload length does not fit in i64",
            ),
        );
    }
    if payload_bytes == 0 {
        return Err(
            status::failure(zone, TransportCode::InvalidArgument, "probe payload must be non-empty"),
        );
    }
    Ok(payload_bytes as i64)
}

/// Checks that a new object was opened empty.
pub fn probe_new_object(zone: usize, persisted_size: i64) -> (result: Result<(), TransportError>)
    ensures
        if persisted_size == 0 {
            result is Ok
        } else {
            result matches Err(error) && status::failed(
                error,
                zone,
                TransportCode::DataLoss,
                "new appendable object opened at persisted_size="@ + text::signed_decimal(
                    persisted_size as int,
                ) + ", expected 0"@,
            )
        },
{
    if persisted_size == 0 {
        return Ok(());
    }
    let mut message = "new appendable object opened at persisted_size=".to_owned();
    text::push_signed(&mut message, persisted_size);
    message.append(", expected 0");
    Err(TransportError { zone, code: TransportCode::DataLoss, message })
}

/// What the flush of the probe came to: a failure that came with the progress
/// counts as a failure here.
pub fn probe_append_result(change: LaneDurableChange) -> (result: Result<i64, TransportError>)
    ensures
        result == match change.error {
            Some(error) => Err::<i64, TransportError>(error),
            None => Ok::<i64, TransportError>(change.persisted_size),
        },
{
    match change.error {
        Some(error) => Err(error),
        None => Ok(change.persisted_size),
    }
}

/// How the probe cleans up.
pub enum ProbeCleanup {
    /// Delete this generation; the deletion's result is the cleanup's.
    Delete(i64),
    /// The cleanup is over.
    Done(Result<(), TransportError>),
}

/// Decides on the cleanup after a look at the object: one that is not there
/// needs none.
pub fn probe_cleanup(observed: Result<ReplicaSnapshot, TransportError>) -> (cleanup: ProbeCleanup)
    ensures
        cleanup == match observed {
            Ok(snapshot) => ProbeCleanup::Delete(snapshot.generation),
            Err(error) => if error.code == TransportCode::NotFound {
                ProbeCleanup::Done(Ok(()))
            } else {
                ProbeCleanup::Done(Err(error))
            },
        },
{
    match observed {
        Ok(snapshot) => ProbeCleanup::Delete(snapshot.generation),
        Err(error) => if error.code == TransportCode::NotFound {
            ProbeCleanup::Done(Ok(()))
        } else {
            ProbeCleanup::Done(Err(error))
        },
    }
}

/// Whether the present object is taken over: only after its append succeeded.
pub fn probe_takes_over(append: &Result<i64, TransportError>) -> (takes_over: bool)
    ensures
        takes_over == (append is Ok),
{
    append.is_ok()
}

/// A payload is accepted if and only if it is not empty and its length fits a
/// size, and with its own length.
pub proof fn law_payloads_are_not_empty(
    zone: usize,
    payload_bytes: usize,
    result: Result<i64, TransportError>,
)
    requires
        call_ensures(probe_payload_size, (zone, payload_bytes), result),
    ensures
        result is Ok <==> 0 < payload_bytes && payload_bytes <= 0x7fff_ffff_ffff_ffff,
        result is Ok ==> result->Ok_0 == payload_bytes,
        result is Err ==> result->Err_0.zone == zone && result->Err_0.code is InvalidArgument,
{
}

/// A new object must be empty; one that is not has lost or gained data.
pub proof fn law_new_objects_are_empty(
    zone: usize,
    persisted_size: i64,
    result: Result<(), TransportError>,
)
    requires
        call_ensures(probe_new_object, (zone, persisted_size), result),
    ensures
        result is Ok <==> persisted_size == 0,
        result is Err ==> result->Err_0.zone == zone && result->Err_0.code is DataLoss,
{
}

/// A flush succeeded if and only if no failure came with its progress; a
/// takeover follows only then.
pub proof fn law_only_clean_flushes_are_taken_over(
    change: LaneDurableChange,
    append: Result<i64, TransportError>,
    takes_over: bool,
)
    requires
        call_ensures(probe_append_result, (change,), append),
        call_ensures(probe_takes_over, (&append,), takes_over),
    ensures
        takes_over <==> change.error is None,
        append is Ok ==> append->Ok_0 == change.persisted_size,
        append is Err ==> append->Err_0 == change.error->0,
{
}

/// An object that is seen is deleted in the generation seen; one that is not
/// found needs no cleanup, and any other failure is the cleanup's own.
pub proof fn law_cleanup_deletes_what_is_seen(
    observed: Result<ReplicaSnapshot, TransportError>,
    cleanup: ProbeCleanup,
)
    requires
        call_ensures(probe_cleanup, (observed,), cleanup),
    ensures
        observed is Ok ==> cleanup is Delete && cleanup->Delete_0 == observed->Ok_0.generation,
        observed is Err ==> cleanup is Done && (cleanup->Done_0 is Ok
            <==> observed->Err_0.code is NotFound),
        observed is Err && cleanup->Done_0 is Err ==> cleanup->Done_0->Err_0 == observed->Err_0,
{
}

/// A copy of the probe's observations is equal to them.
pub proof fn law_copied_observations_are_equal(
    result: &GenerationZeroTakeoverProbeResult,
    copy: GenerationZeroTakeoverProbeResult,
)
    requires
        call_ensures(GenerationZeroTakeoverProbeResult::clone, (result,), copy),
    ensures
        copy == *result,
{
}

} // verus!
