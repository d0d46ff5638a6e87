//! Append sessions: progress, waits, identities and finalization.

use crate::pack;
use crate::status;
use crate::text;
use crate::time::Span;
use crate::transport;
use crate::transport::{
    AppendToken, LaneDurableChange, MetadataEntry, ObjectResource, ReplicaSnapshot, TransportCode,
    TransportError,
};
use vstd::prelude::*;

verus! {

/// What one response of a write stream says of the object.
pub enum WriteStatus {
    /// So many bytes are persisted.
    PersistedSize(i64),
    /// The object itself.
    Resource(ObjectResource),
}

/// Durable tail of a session, and how its stream ended.
#[derive(Clone, Debug)]
pub struct LaneProgress {
    /// Bytes durable so far.
    pub durable: i64,
    /// The finalized object, once the service reported it.
    pub finalized: Option<ReplicaSnapshot>,
    /// Why the stream ended.
    pub error: Option<TransportError>,
}

/// The observation of an object together with its contents.
pub fn snapshot_from_object(zone: usize, object: ObjectResource, bytes: Vec<u8>) -> (snapshot:
    ReplicaSnapshot)
    requires
        bytes@.len() <= i64::MAX,
    ensures
        snapshot == (ReplicaSnapshot {
            zone,
            generation: object.generation,
            metageneration: object.metageneration,
            persisted_size: bytes@.len() as i64,
            finalized: object.finalized,
            crc32c: object.crc32c,
            metadata: object.metadata,
            bytes,
        }),
{
    let persisted_size: i64 = bytes.len() as i64;
    ReplicaSnapshot {
        zone,
        generation: object.generation,
        metageneration: object.metageneration,
        persisted_size,
        finalized: object.finalized,
        crc32c: object.crc32c,
        metadata: object.metadata,
        bytes,
    }
}

/// What an observation of an object without its contents says. Only a
/// finalized object's size is authoritative; open objects are observed
/// tail-blind.
pub open spec fn stat_of(snapshot: ReplicaSnapshot, zone: usize, object: ObjectResource) -> bool {
    &&& snapshot.zone == zone
    &&& snapshot.generation == object.generation
    &&& snapshot.metageneration == object.metageneration
    &&& snapshot.persisted_size == if object.finalized {
        object.size
    } else {
        0
    }
    &&& snapshot.finalized == object.finalized
    &&& snapshot.crc32c == object.crc32c
    &&& snapshot.metadata == object.metadata
    &&& snapshot.bytes@ == Seq::<u8>::empty()
}

/// The observation of an object without its contents.
pub fn stat_from_object(zone: usize, object: ObjectResource) -> (snapshot: ReplicaSnapshot)
    ensures
        stat_of(snapshot, zone, object),
{
    let size: i64 = object.size;
    let mut snapshot = snapshot_from_object(zone, object, Vec::new());
    if snapshot.finalized {
        snapshot.persisted_size = size;
    }
    snapshot
}

/// The larger of two sizes.
pub open spec fn larger(a: i64, b: i64) -> i64 {
    if a >= b {
        a
    } else {
        b
    }
}

/// The size that a status reports, if any.
pub open spec fn reported_size(status: Option<WriteStatus>) -> Option<i64> {
    match status {
        Some(WriteStatus::PersistedSize(size)) => Some(size),
        Some(WriteStatus::Resource(resource)) => Some(resource.size),
        None => None,
    }
}

/// The finalized object that a status reports, if any.
pub open spec fn reported_end(status: Option<WriteStatus>) -> Option<ObjectResource> {
    match status {
        Some(WriteStatus::Resource(resource)) if resource.finalized => Some(resource),
        _ => None,
    }
}

impl LaneProgress {
    /// Progress after the opening response of a session: without a status the
    /// service certifies the offset that the session was opened at.
    pub fn open(zone: usize, write_offset: i64, status: Option<WriteStatus>) -> (progress: Self)
        ensures
            progress.durable == match reported_size(status) {
                Some(size) => larger(0, size),
                None => write_offset,
            },
            progress.error is None,
            match reported_end(status) {
                Some(object) => progress.finalized matches Some(snapshot) && stat_of(
                    snapshot,
                    zone,
                    object,
                ),
                None => progress.finalized is None,
            },
    {
        let mut progress = LaneProgress {
            durable: if status.is_some() {
                0
            } else {
                write_offset
            },
            finalized: None,
            error: None,
        };
        progress.fold(zone, status);
        progress
    }

    /// Folds one response into the progress. The durable tail never falls, and
    /// only a finalized object counts as the end of the session.
    pub fn fold(&mut self, zone: usize, status: Option<WriteStatus>)
        ensures
            final(self).durable == match reported_size(status) {
                Some(size) => larger(old(self).durable, size),
                None => old(self).durable,
            },
            final(self).durable >= old(self).durable,
            final(self).error == old(self).error,
            match reported_end(status) {
                Some(object) => final(self).finalized matches Some(snapshot) && stat_of(
                    snapshot,
                    zone,
                    object,
                ),
                None => final(self).finalized == old(self).finalized,
            },
    {
        match status {
            Some(WriteStatus::PersistedSize(size)) => {
                if size > self.durable {
                    self.durable = size;
                }
            },
            Some(WriteStatus::Resource(resource)) => {
                if resource.size > self.durable {
                    self.durable = resource.size;
                }
                let snapshot = stat_from_object(zone, resource);
                if snapshot.finalized {
                    self.finalized = Some(snapshot);
                }
            },
            None => {},
        }
    }

    /// Notes that the service closed the stream.
    pub fn closed(&mut self, zone: usize)
        ensures
            final(self).durable == old(self).durable,
            final(self).finalized == old(self).finalized,
            final(self).error matches Some(error) && status::failed(
                error,
                zone,
                TransportCode::Unavailable,
                "append session closed by the service"@,
            ),
    {
        self.error = Some(
            status::failure(
                zone,
                TransportCode::Unavailable,
                "append session closed by the service",
            ),
        );
    }

    /// Notes that the stream failed.
    pub fn failed(&mut self, error: TransportError)
        ensures
            *final(self) == (LaneProgress { error: Some(error), ..*old(self) }),
    {
        self.error = Some(error);
    }
}

/// The order and the consequences of looking at a session's progress.
#[derive(Clone, Copy, Debug, PartialEq, Eq, Structural)]
pub struct SessionWait {
    /// Whether the session is over once the wait succeeds.
    pub clear_on_ready: bool,
    /// Whether progress counts even if the stream has failed with it.
    pub inspect_before_error: bool,
}

/// How a wait goes on.
pub enum SessionStep<T> {
    /// The wait is over.
    Ready {
        /// What it came to.
        result: Result<T, TransportError>,
        /// Whether the session must be given up.
        clear: bool,
    },
    /// Wait for more progress.
    Wait,
}

impl SessionWait {
    /// Decides after a look at the progress: `inspected` is what the waiting
    /// operation makes of it, `error` why the stream ended. A failure always
    /// gives the session up.
    pub fn step<T>(
        &self,
        inspected: Option<Result<T, TransportError>>,
        error: Option<TransportError>,
    ) -> (step: SessionStep<T>)
        ensures
            match (inspected, error) {
                (Some(result), None) => step == (SessionStep::Ready {
                    result,
                    clear: self.clear_on_ready || result is Err,
                }),
                (Some(result), Some(failure)) => step == if self.inspect_before_error {
                    SessionStep::Ready { result, clear: self.clear_on_ready || result is Err }
                } else {
                    SessionStep::Ready { result: Err(failure), clear: true }
                },
                (None, Some(failure)) => step == (SessionStep::Ready {
                    result: Err::<T, TransportError>(failure),
                    clear: true,
                }),
                (None, None) => step == SessionStep::<T>::Wait,
            },
    {
        match inspected {
            Some(result) => {
                if !self.inspect_before_error {
                    if let Some(failure) = error {
                        return SessionStep::Ready { result: Err(failure), clear: true };
                    }
                }
                let clear: bool = self.clear_on_ready || result.is_err();
                SessionStep::Ready { result, clear }
            },
            None => match error {
                Some(failure) => SessionStep::Ready { result: Err(failure), clear: true },
                None => SessionStep::Wait,
            },
        }
    }
}

/// What waiting for durable progress makes of a look at the session.
///
/// Progress beyond `seen` is reported together with a failure observed in the
/// same look, so the durable offset is never lost to the failure.
pub fn durable_step(progress: LaneProgress, seen: i64) -> (step: SessionStep<LaneDurableChange>)
    ensures
        if progress.durable > seen {
            step == (SessionStep::Ready {
                result: Ok::<LaneDurableChange, TransportError>(
                    LaneDurableChange {
                        persisted_size: progress.durable,
                        error: progress.error,
                    },
                ),
                clear: progress.error is Some,
            })
        } else {
            match progress.error {
                Some(error) => step == (SessionStep::Ready {
                    result: Err::<LaneDurableChange, TransportError>(error),
                    clear: true,
                }),
                None => step == SessionStep::<LaneDurableChange>::Wait,
            }
        },
{
    if progress.durable > seen {
        let clear: bool = progress.error.is_some();
        SessionStep::Ready {
            result: Ok(
                LaneDurableChange { persisted_size: progress.durable, error: progress.error },
            ),
            clear,
        }
    } else {
        let wait = SessionWait { clear_on_ready: false, inspect_before_error: true };
        wait.step(None, progress.error)
    }
}

/// A finalized copy of the requested prefix.
pub open spec fn finalized_as(
    snapshot: ReplicaSnapshot,
    generation: Option<i64>,
    write_offset: i64,
) -> bool {
    &&& snapshot.finalized
    &&& generation matches Some(expected) ==> snapshot.generation == expected
    &&& snapshot.persisted_size == write_offset
}

fn is_finalized_as(
    snapshot: &ReplicaSnapshot,
    generation: Option<i64>,
    write_offset: i64,
) -> (matches: bool)
    ensures
        matches == finalized_as(*snapshot, generation, write_offset),
{
    let same_generation: bool = match generation {
        Some(expected) => snapshot.generation == expected,
        None => true,
    };
    snapshot.finalized && same_generation && snapshot.persisted_size == write_offset
}

/// What finishing a live session makes of a look at it. The finalized object
/// must be the requested prefix of the expected generation.
pub fn finish_step(
    progress: LaneProgress,
    zone: usize,
    generation: Option<i64>,
    write_offset: i64,
) -> (step: SessionStep<ReplicaSnapshot>)
    ensures
        match progress.finalized {
            Some(snapshot) => if finalized_as(snapshot, generation, write_offset) {
                step == (SessionStep::Ready {
                    result: Ok::<ReplicaSnapshot, TransportError>(snapshot),
                    clear: true,
                })
            } else {
                step matches SessionStep::Ready { result: Err(error), clear } && clear
                    && status::failed(
                    error,
                    zone,
                    TransportCode::DataLoss,
                    "finalized segment does not match the committed prefix"@,
                )
            },
            None => match progress.error {
                Some(error) => step == (SessionStep::Ready {
                    result: Err::<ReplicaSnapshot, TransportError>(error),
                    clear: true,
                }),
                None => step == SessionStep::<ReplicaSnapshot>::Wait,
            },
        },
{
    let wait = SessionWait { clear_on_ready: true, inspect_before_error: true };
    let inspected = match progress.finalized {
        Some(snapshot) => if is_finalized_as(&snapshot, generation, write_offset) {
            Some(Ok(snapshot))
        } else {
            Some(
                Err(
                    status::failure(
                        zone,
                        TransportCode::DataLoss,
                        "finalized segment does not match the committed prefix",
                    ),
                ),
            )
        },
        None => None,
    };
    wait.step(inspected, progress.error)
}

/// Remembers the identity that finishing a session revealed.
pub fn adopt_finalized(token: &mut AppendToken, generation: i64, metageneration: i64)
    ensures
        *final(token) == (AppendToken {
            generation: Some(generation),
            metageneration: Some(metageneration),
            ..*old(token)
        }),
{
    token.generation = Some(generation);
    token.metageneration = Some(metageneration);
}

/// The end of a finalization without a live session: the service must report
/// the finalized object, as the requested prefix of the resolved generation.
pub fn finalize_result(
    zone: usize,
    resource: Option<ObjectResource>,
    generation: i64,
    write_offset: i64,
) -> (result: Result<ReplicaSnapshot, TransportError>)
    ensures
        match resource {
            None => result matches Err(error) && status::failed(
                error,
                zone,
                TransportCode::Internal,
                "missing finalized resource response"@,
            ),
            Some(object) => if object.finalized && object.generation == generation && object.size
                == write_offset {
                result matches Ok(snapshot) && stat_of(snapshot, zone, object)
            } else {
                result matches Err(error) && status::failed(
                    error,
                    zone,
                    TransportCode::DataLoss,
                    "finalized segment does not match the recovered prefix"@,
                )
            },
        },
{
    match resource {
        None => Err(
            status::failure(zone, TransportCode::Internal, "missing finalized resource response"),
        ),
        Some(object) => {
            let snapshot = stat_from_object(zone, object);
            if is_finalized_as(&snapshot, Some(generation), write_offset) {
                Ok(snapshot)
            } else {
                Err(
                    status::failure(
                        zone,
                        TransportCode::DataLoss,
                        "finalized segment does not match the recovered prefix",
                    ),
                )
            }
        },
    }
}

/// What is known of a token's identity.
#[derive(Clone, Copy, Debug, PartialEq, Eq, Structural)]
pub enum TokenIdentity {
    /// Generation and metageneration.
    Known(i64, i64),
    /// Neither: the object has to be observed.
    Unresolved,
    /// Only one of them, which never happens to a token of the client's own.
    Incomplete,
}

/// Reads a token's identity.
pub fn token_identity(token: &AppendToken) -> (identity: TokenIdentity)
    ensures
        identity == match (token.generation, token.metageneration) {
            (Some(generation), Some(metageneration)) => TokenIdentity::Known(
                generation,
                metageneration,
            ),
            (None, None) => TokenIdentity::Unresolved,
            _ => TokenIdentity::Incomplete,
        },
{
    match token.generation {
        Some(generation) => match token.metageneration {
            Some(metageneration) => TokenIdentity::Known(generation, metageneration),
            None => TokenIdentity::Incomplete,
        },
        None => match token.metageneration {
            Some(_) => TokenIdentity::Incomplete,
            None => TokenIdentity::Unresolved,
        },
    }
}

/// Resolves a token's identity, from an observation of the object where the
/// token does not know it. An object that is already finalized cannot be
/// resumed, and half an identity is an internal failure; neither changes the
/// token.
pub fn resolve_token_identity(
    zone: usize,
    token: &mut AppendToken,
    observed: &ReplicaSnapshot,
) -> (result: Result<(i64, i64), TransportError>)
    ensures
        match (old(token).generation, old(token).metageneration) {
            (Some(generation), Some(metageneration)) => {
                &&& result == Ok::<(i64, i64), TransportError>((generation, metageneration))
                &&& *final(token) == *old(token)
            },
            (None, None) => if observed.finalized {
                &&& result matches Err(error) && status::failed(
                    error,
                    zone,
                    TransportCode::FailedPrecondition,
                    "append session object is already finalized"@,
                )
                &&& *final(token) == *old(token)
            } else {
                &&& result == Ok::<(i64, i64), TransportError>(
                    (observed.generation, observed.metageneration),
                )
                &&& *final(token) == (AppendToken {
                    generation: Some(observed.generation),
                    metageneration: Some(observed.metageneration),
                    ..*old(token)
                })
            },
            _ => {
                &&& result matches Err(error) && status::failed(
                    error,
                    zone,
                    TransportCode::Internal,
                    "append token has incomplete generation identity"@,
                )
                &&& *final(token) == *old(token)
            },
        },
{
    match token_identity(token) {
        TokenIdentity::Known(generation, metageneration) => Ok((generation, metageneration)),
        TokenIdentity::Unresolved => {
            if observed.finalized {
                return Err(
                    status::failure(
                        zone,
                        TransportCode::FailedPrecondition,
                        "append session object is already finalized",
                    ),
                );
            }
            token.generation = Some(observed.generation);
            token.metageneration = Some(observed.metageneration);
            Ok((observed.generation, observed.metageneration))
        },
        TokenIdentity::Incomplete => Err(
            status::failure(
                zone,
                TransportCode::Internal,
                "append token has incomplete generation identity",
            ),
        ),
    }
}

/// What a one-shot write waits for.
#[derive(Clone, Copy, Debug, PartialEq, Eq, Structural)]
pub enum WriteGoal {
    /// Any response.
    Acknowledged,
    /// So many persisted bytes.
    Persisted(i64),
    /// The object itself.
    Resource,
}

/// A write whose stream is abandoned as soon as its goal is met: appendable
/// sessions stay open on the server's side.
pub struct OneShotWrite {
    /// What the write waits for.
    pub goal: WriteGoal,
    /// Whether anything was answered.
    pub acknowledged: bool,
    /// Persisted size of the last response that gave one.
    pub persisted_size: Option<i64>,
    /// Object of the last response that gave one.
    pub resource: Option<ObjectResource>,
}

impl OneShotWrite {
    /// Whether the goal is met.
    pub open spec fn met(self) -> bool {
        match self.goal {
            WriteGoal::Acknowledged => self.acknowledged,
            WriteGoal::Persisted(expected) => self.persisted_size matches Some(size) && size
                >= expected,
            WriteGoal::Resource => self.resource is Some,
        }
    }

    /// A write that nothing was answered to.
    pub fn new(goal: WriteGoal) -> (write: Self)
        ensures
            write == (OneShotWrite {
                goal,
                acknowledged: false,
                persisted_size: None,
                resource: None,
            }),
    {
        OneShotWrite { goal, acknowledged: false, persisted_size: None, resource: None }
    }

    /// Takes one response in and says whether the stream can be abandoned.
    pub fn step(&mut self, status: Option<WriteStatus>) -> (complete: bool)
        ensures
            *final(self) == (match status {
                Some(WriteStatus::PersistedSize(size)) => OneShotWrite {
                    acknowledged: true,
                    persisted_size: Some(size),
                    ..*old(self)
                },
                Some(WriteStatus::Resource(object)) => OneShotWrite {
                    acknowledged: true,
                    resource: Some(object),
                    ..*old(self)
                },
                None => OneShotWrite { acknowledged: true, ..*old(self) },
            }),
            complete == final(self).met(),
    {
        self.acknowledged = true;
        match status {
            Some(WriteStatus::PersistedSize(size)) => {
                self.persisted_size = Some(size);
            },
            Some(WriteStatus::Resource(object)) => {
                self.resource = Some(object);
            },
            None => {},
        }
        match self.goal {
            WriteGoal::Acknowledged => true,
            WriteGoal::Persisted(expected) => match self.persisted_size {
                Some(size) => size >= expected,
                None => false,
            },
            WriteGoal::Resource => self.resource.is_some(),
        }
    }
}

/// What a session is used for.
#[derive(Clone, Copy, Debug, PartialEq, Eq, Structural)]
pub enum SessionUse {
    /// Sending records and waiting for them to become durable.
    Append,
    /// Finalizing the object.
    Finalize,
}

/// How long a request or a finalization may make no progress.
pub fn session_progress_timeout() -> (timeout: Span)
    ensures
        timeout == (Span { nanos: 30_000_000_000 }),
{
    Span::from_secs(30)
}

/// How long a wait lasts: finalization is bounded, while an idle lane may wait
/// for durable progress without an end.
pub fn wait_timeout(purpose: SessionUse) -> (timeout: Option<Span>)
    ensures
        timeout == match purpose {
            SessionUse::Append => None,
            SessionUse::Finalize => Some(Span { nanos: 30_000_000_000 }),
        },
{
    match purpose {
        SessionUse::Append => None,
        SessionUse::Finalize => Some(session_progress_timeout()),
    }
}

/// The failure of a use without a live session.
pub fn no_live_session(zone: usize, purpose: SessionUse) -> (error: TransportError)
    ensures
        status::failed(
            error,
            zone,
            TransportCode::Unavailable,
            match purpose {
                SessionUse::Append => "no live append session (resume required)"@,
                SessionUse::Finalize => "no live append session to finalize"@,
            },
        ),
{
    match purpose {
        SessionUse::Append => status::failure(
            zone,
            TransportCode::Unavailable,
            "no live append session (resume required)",
        ),
        SessionUse::Finalize => status::failure(
            zone,
            TransportCode::Unavailable,
            "no live append session to finalize",
        ),
    }
}

/// The failure of a request that could not be handed to the session. The
/// session is given up with it.
pub fn send_failure(zone: usize, purpose: SessionUse, timed_out: bool) -> (error: TransportError)
    ensures
        timed_out ==> status::failed(
            error,
            zone,
            TransportCode::DeadlineExceeded,
            "append session request channel made no progress"@,
        ),
        !timed_out ==> status::failed(
            error,
            zone,
            TransportCode::Unavailable,
            match purpose {
                SessionUse::Append => "append session disconnected while sending"@,
                SessionUse::Finalize => "append session disconnected while finalizing"@,
            },
        ),
{
    if timed_out {
        return status::failure(
            zone,
            TransportCode::DeadlineExceeded,
            "append session request channel made no progress",
        );
    }
    match purpose {
        SessionUse::Append => status::failure(
            zone,
            TransportCode::Unavailable,
            "append session disconnected while sending",
        ),
        SessionUse::Finalize => status::failure(
            zone,
            TransportCode::Unavailable,
            "append session disconnected while finalizing",
        ),
    }
}

/// The failure of a wait that saw no further progress. The session is given up
/// with it.
pub fn wait_failure(zone: usize, purpose: SessionUse, timed_out: bool) -> (error: TransportError)
    ensures
        timed_out ==> status::failed(
            error,
            zone,
            TransportCode::DeadlineExceeded,
            match purpose {
                SessionUse::Append => "append session made no progress"@,
                SessionUse::Finalize => "append session finalization made no progress"@,
            },
        ),
        !timed_out ==> status::failed(
            error,
            zone,
            TransportCode::Unavailable,
            match purpose {
                SessionUse::Append => "append session reader ended"@,
                SessionUse::Finalize => "append session reader ended while finalizing"@,
            },
        ),
{
    match purpose {
        SessionUse::Append => if timed_out {
            status::failure(
                zone,
                TransportCode::DeadlineExceeded,
                "append session made no progress",
            )
        } else {
            status::failure(zone, TransportCode::Unavailable, "append session reader ended")
        },
        SessionUse::Finalize => if timed_out {
            status::failure(
                zone,
                TransportCode::DeadlineExceeded,
                "append session finalization made no progress",
            )
        } else {
            status::failure(
                zone,
                TransportCode::Unavailable,
                "append session reader ended while finalizing",
            )
        },
    }
}

/// The failure of an open that ended without a response.
pub fn open_closed(zone: usize) -> (error: TransportError)
    ensures
        status::failed(
            error,
            zone,
            TransportCode::Unavailable,
            "append open closed without a response"@,
        ),
{
    status::failure(zone, TransportCode::Unavailable, "append open closed without a response")
}

/// The slot that holds an object's live session, known by a number that no two
/// sessions share.
#[derive(Clone, Copy, Debug, PartialEq, Eq, Structural)]
pub struct SessionSlot {
    /// The live session.
    pub current: Option<u64>,
}

impl SessionSlot {
    /// An empty slot.
    pub fn new() -> (slot: Self)
        ensures
            slot.current is None,
    {
        SessionSlot { current: None }
    }

    /// Puts a session, or none, in the place of the previous one, which is
    /// handed out to be shut down.
    pub fn replace(&mut self, session: Option<u64>) -> (previous: Option<u64>)
        ensures
            final(self).current == session,
            previous == old(self).current,
    {
        let previous: Option<u64> = self.current;
        self.current = session;
        previous
    }

    /// Empties the slot if it still holds the session that failed. A session
    /// that has taken its place is left alone.
    pub fn clear_if(&mut self, expected: u64) -> (previous: Option<u64>)
        ensures
            if old(self).current == Some(expected) {
                final(self).current is None && previous == Some(expected)
            } else {
                *final(self) == *old(self) && previous is None
            },
    {
        let held: bool = match self.current {
            Some(session) => session == expected,
            None => false,
        };
        if held {
            self.replace(None)
        } else {
            None
        }
    }
}

/// What is known of an object's live session without waiting for it.
#[derive(Clone, Copy, Debug, PartialEq, Eq, Structural)]
pub struct LaneSessionDiagnostics {
    /// The live session, if there is one.
    pub session_id: Option<u64>,
    /// Whether the session's stream of responses is still open.
    pub response_stream_open: Option<bool>,
}

impl SessionSlot {
    /// Describes the live session by its progress. Without a session nothing
    /// is known.
    pub fn lane_session_diagnostics(&self, progress: &Option<LaneProgress>) -> (diagnostics:
        LaneSessionDiagnostics)
        ensures
            diagnostics == match (self.current, *progress) {
                (Some(session), Some(seen)) => LaneSessionDiagnostics {
                    session_id: Some(session),
                    response_stream_open: Some(seen.error is None),
                },
                _ => LaneSessionDiagnostics { session_id: None, response_stream_open: None },
            },
    {
        match self.current {
            Some(session) => match progress {
                Some(seen) => LaneSessionDiagnostics {
                    session_id: Some(session),
                    response_stream_open: Some(seen.error.is_none()),
                },
                None => LaneSessionDiagnostics { session_id: None, response_stream_open: None },
            },
            None => LaneSessionDiagnostics { session_id: None, response_stream_open: None },
        }
    }
}

/// What a one-shot append reports of its flush.
pub open spec fn append_shortfall(size: i64, expected: i64) -> Seq<char> {
    "flush persisted "@ + text::signed_decimal(size as int) + ", expected at least "@
        + text::signed_decimal(expected as int)
}

/// The result of a one-shot append that had to persist `expected` bytes.
pub fn append_result(zone: usize, persisted_size: Option<i64>, expected: i64) -> (result: Result<
    i64,
    TransportError,
>)
    ensures
        match persisted_size {
            Some(size) => if size >= expected {
                result == Ok::<i64, TransportError>(size)
            } else {
                result matches Err(error) && status::failed(
                    error,
                    zone,
                    TransportCode::DataLoss,
                    append_shortfall(size, expected),
                )
            },
            None => result matches Err(error) && status::failed(
                error,
                zone,
                TransportCode::Internal,
                "missing persisted-size response"@,
            ),
        },
{
    match persisted_size {
        Some(size) => if size >= expected {
            Ok(size)
        } else {
            let mut message = "flush persisted ".to_owned();
            text::push_signed(&mut message, size);
            message.append(", expected at least ");
            text::push_signed(&mut message, expected);
            Err(TransportError { zone, code: TransportCode::DataLoss, message })
        },
        None => Err(
            status::failure(zone, TransportCode::Internal, "missing persisted-size response"),
        ),
    }
}

/// How a replacement's persisted size is written down.
pub open spec fn optional_size(size: Option<i64>) -> Seq<char> {
    match size {
        Some(inner) => "Some("@ + text::signed_decimal(inner as int) + ")"@,
        None => "None"@,
    }
}

/// Checks that a replacement persisted exactly its bytes.
pub fn replacement_persisted(zone: usize, persisted_size: Option<i64>, expected: i64) -> (result:
    Result<(), TransportError>)
    ensures
        if persisted_size == Some(expected) {
            result is Ok
        } else {
            result matches Err(error) && status::failed(
                error,
                zone,
                TransportCode::DataLoss,
                "replacement persisted "@ + optional_size(persisted_size) + ", expected "@
                    + text::signed_decimal(expected as int),
            )
        },
{
    let exact: bool = match persisted_size {
        Some(size) => size == expected,
        None => false,
    };
    if exact {
        return Ok(());
    }
    let mut message = "replacement persisted ".to_owned();
    match persisted_size {
        Some(size) => {
            message.append("Some(");
            text::push_signed(&mut message, size);
            message.append(")");
        },
        None => {
            message.append("None");
        },
    }
    proof {
        assert(message@ =~= "replacement persisted "@ + optional_size(persisted_size));
    }
    message.append(", expected ");
    text::push_signed(&mut message, expected);
    Err(TransportError { zone, code: TransportCode::DataLoss, message })
}

/// Whether two byte strings are equal.
pub fn same_bytes(a: &[u8], b: &[u8]) -> (same: bool)
    ensures
        same == (a@ == b@),
{
    if a.len() != b.len() {
        return false;
    }
    let mut i: usize = 0;
    while i < a.len()
        invariant
            i <= a@.len(),
            a@.len() == b@.len(),
            forall|j: int| 0 <= j < i ==> a@[j] == b@[j],
        decreases a@.len() - i,
    {
        if a[i] != b[i] {
            return false;
        }
        i = i + 1;
    }
    assert(a@ =~= b@);
    true
}

/// Checks that a replaced generation reads back as written and makes a token
/// of it.
pub fn replacement_token(
    zone: usize,
    snapshot: &ReplicaSnapshot,
    data: &[u8],
    metadata: &Vec<MetadataEntry>,
) -> (result: Result<AppendToken, TransportError>)
    requires
        data@.len() <= i64::MAX,
    ensures
        if snapshot.bytes@ == data@ && transport::metadata_pairs(snapshot.metadata@)
            == transport::metadata_pairs(metadata@) {
            result == Ok::<AppendToken, TransportError>(
                AppendToken {
                    zone,
                    generation: Some(snapshot.generation),
                    metageneration: Some(snapshot.metageneration),
                    persisted_size: data@.len() as i64,
                    write_handle: None,
                },
            )
        } else {
            result matches Err(error) && status::failed(
                error,
                zone,
                TransportCode::DataLoss,
                "replacement generation failed verification"@,
            )
        },
{
    if !same_bytes(snapshot.bytes.as_slice(), data) || !transport::same_metadata(
        &snapshot.metadata,
        metadata,
    ) {
        return Err(
            status::failure(
                zone,
                TransportCode::DataLoss,
                "replacement generation failed verification",
            ),
        );
    }
    Ok(
        AppendToken {
            zone,
            generation: Some(snapshot.generation),
            metageneration: Some(snapshot.metageneration),
            persisted_size: data.len() as i64,
            write_handle: None,
        },
    )
}

/// Whether a checksum that came with `content` agrees with it.
pub open spec fn checksum_agrees(expected: Option<u32>, content: Seq<u8>) -> bool {
    expected matches Some(crc) ==> crc == pack::crc32c_of(content)
}

/// Compares a received checksum with a computed one.
pub fn checksums_match(expected: Option<u32>, actual: u32) -> (matches: bool)
    ensures
        matches == (expected matches Some(crc) ==> crc == actual),
{
    match expected {
        Some(crc) => crc == actual,
        None => true,
    }
}

/// Appends one response of a read to the bytes read so far, if its checksum
/// agrees.
pub fn accept_read(zone: usize, bytes: &mut Vec<u8>, content: &[u8], expected: Option<u32>) -> (result:
    Result<(), TransportError>)
    ensures
        if checksum_agrees(expected, content@) {
            &&& result is Ok
            &&& final(bytes)@ == old(bytes)@ + content@
        } else {
            &&& result matches Err(error) && status::failed(
                error,
                zone,
                TransportCode::DataLoss,
                "ReadObject response CRC32C mismatch"@,
            )
            &&& final(bytes)@ == old(bytes)@
        },
{
    if !checksums_match(expected, pack::checksum(content)) {
        return Err(
            status::failure(zone, TransportCode::DataLoss, "ReadObject response CRC32C mismatch"),
        );
    }
    bytes.extend_from_slice(content);
    proof {
        assert(bytes@ =~= old(bytes)@ + content@);
    }
    Ok(())
}

/// An observation says what its object says. The size of an object that is
/// still open is not taken from it: only a finalized one's counts.
pub proof fn law_observations_keep_the_identity(
    zone: usize,
    object: ObjectResource,
    stat: ReplicaSnapshot,
    bytes: Vec<u8>,
    snapshot: ReplicaSnapshot,
)
    requires
        call_ensures(stat_from_object, (zone, object), stat),
        bytes@.len() <= i64::MAX,
        call_ensures(snapshot_from_object, (zone, object, bytes), snapshot),
    ensures
        stat.zone == zone && snapshot.zone == zone,
        stat.generation == object.generation && snapshot.generation == object.generation,
        stat.metageneration == object.metageneration && snapshot.metageneration
            == object.metageneration,
        stat.finalized == object.finalized && snapshot.finalized == object.finalized,
        stat.crc32c == object.crc32c && snapshot.crc32c == object.crc32c,
        stat.metadata == object.metadata && snapshot.metadata == object.metadata,
        object.finalized ==> stat.persisted_size == object.size,
        !object.finalized ==> stat.persisted_size == 0,
        stat.bytes@.len() == 0,
        snapshot.bytes@ == bytes@,
        snapshot.persisted_size == bytes@.len(),
{
}

/// The durable tail never falls: a response raises it exactly to what it
/// reports, if that is more. Only a finalized object ends a session, and a
/// response never fails one.
pub proof fn law_durable_tail_never_falls(
    progress: &mut LaneProgress,
    zone: usize,
    status: Option<WriteStatus>,
)
    requires
        call_ensures(LaneProgress::fold, (progress, zone, status), ()),
    ensures
        final(progress).durable >= old(progress).durable,
        final(progress).error == old(progress).error,
        status is None ==> *final(progress) == *old(progress),
        status is Some && status->Some_0 is PersistedSize ==> {
            let size = status->Some_0->PersistedSize_0;
            &&& final(progress).durable >= size
            &&& final(progress).durable == size || final(progress).durable == old(progress).durable
            &&& final(progress).finalized == old(progress).finalized
        },
        status is Some && status->Some_0 is Resource ==> {
            let object = status->Some_0->Resource_0;
            &&& final(progress).durable >= object.size
            &&& final(progress).durable == object.size || final(progress).durable == old(
                progress,
            ).durable
            &&& !object.finalized ==> final(progress).finalized == old(progress).finalized
            &&& object.finalized ==> {
                &&& final(progress).finalized is Some
                &&& final(progress).finalized->Some_0.finalized
                &&& final(progress).finalized->Some_0.zone == zone
                &&& final(progress).finalized->Some_0.generation == object.generation
                &&& final(progress).finalized->Some_0.metageneration == object.metageneration
                &&& final(progress).finalized->Some_0.persisted_size == object.size
                &&& final(progress).finalized->Some_0.crc32c == object.crc32c
            }
        },
{
}

/// A session begins at what its opening response says, and at the offset it was
/// opened at if it says nothing. It begins without a failure, and ended only if
/// the object was reported as finalized.
pub proof fn law_sessions_begin_at_the_reported_size(
    zone: usize,
    write_offset: i64,
    status: Option<WriteStatus>,
    progress: LaneProgress,
)
    requires
        call_ensures(LaneProgress::open, (zone, write_offset, status), progress),
    ensures
        progress.error is None,
        status is None ==> progress.durable == write_offset && progress.finalized is None,
        status is Some && status->Some_0 is PersistedSize ==> {
            let size = status->Some_0->PersistedSize_0;
            &&& size >= 0 ==> progress.durable == size
            &&& size < 0 ==> progress.durable == 0
            &&& progress.finalized is None
        },
        status is Some && status->Some_0 is Resource ==> {
            let object = status->Some_0->Resource_0;
            &&& object.size >= 0 ==> progress.durable == object.size
            &&& object.size < 0 ==> progress.durable == 0
            &&& progress.finalized is Some <==> object.finalized
            &&& object.finalized ==> progress.finalized->Some_0.generation == object.generation
                && progress.finalized->Some_0.persisted_size == object.size
        },
{
}

/// The end of a stream is remembered without losing what was durable: one that
/// the service closed is unavailable, and a failure is kept as it is.
pub proof fn law_ended_streams_keep_their_progress(
    closed: &mut LaneProgress,
    zone: usize,
    failed: &mut LaneProgress,
    error: TransportError,
)
    requires
        call_ensures(LaneProgress::closed, (closed, zone), ()),
        call_ensures(LaneProgress::failed, (failed, error), ()),
    ensures
        final(closed).durable == old(closed).durable,
        final(closed).finalized == old(closed).finalized,
        final(closed).error is Some,
        final(closed).error->Some_0.zone == zone,
        final(closed).error->Some_0.code is Unavailable,
        final(failed).durable == old(failed).durable,
        final(failed).finalized == old(failed).finalized,
        final(failed).error == Some(error),
{
}

/// A wait goes on exactly if there is neither a result nor a failure. A failure
/// that is not outrun by a result ends it with that failure, and every failed
/// end gives the session up; a success gives it up only where asked to.
pub proof fn law_waits_end_with_a_result_or_a_failure<T>(
    wait: &SessionWait,
    inspected: Option<Result<T, TransportError>>,
    error: Option<TransportError>,
    step: SessionStep<T>,
)
    requires
        call_ensures(SessionWait::step::<T>, (wait, inspected, error), step),
    ensures
        step is Wait <==> inspected is None && error is None,
        step is Ready && step->result is Err ==> step->clear,
        step is Ready && step->result is Ok ==> step->clear == wait.clear_on_ready,
        inspected is Some && (error is None || wait.inspect_before_error) ==> step->result
            == inspected->Some_0,
        error is Some && (inspected is None || !wait.inspect_before_error) ==> step->result
            == Err::<T, TransportError>(error->Some_0),
{
}

/// Durable progress that was not seen yet is always reported, together with a
/// failure that came with it; a failure alone ends the wait, and without either
/// the wait goes on. A failed session is given up.
pub proof fn law_progress_is_not_lost_to_a_failure(
    progress: LaneProgress,
    seen: i64,
    step: SessionStep<LaneDurableChange>,
)
    requires
        call_ensures(durable_step, (progress, seen), step),
    ensures
        step is Wait <==> progress.durable <= seen && progress.error is None,
        progress.durable > seen ==> {
            &&& step is Ready && step->result is Ok
            &&& step->result->Ok_0.persisted_size == progress.durable
            &&& step->result->Ok_0.error == progress.error
        },
        progress.durable <= seen && progress.error is Some ==> step is Ready && step->result
            == Err::<LaneDurableChange, TransportError>(progress.error->Some_0),
        step is Ready ==> (step->clear <==> progress.error is Some),
{
}

/// A live session is finished exactly by a finalized object that is the
/// requested prefix of the expected generation. Any other finalized object is
/// lost data, and a failure counts only where nothing was finalized. Either way
/// the session is over.
pub proof fn law_finish_needs_the_committed_prefix(
    progress: LaneProgress,
    zone: usize,
    generation: Option<i64>,
    write_offset: i64,
    step: SessionStep<ReplicaSnapshot>,
)
    requires
        call_ensures(finish_step, (progress, zone, generation, write_offset), step),
    ensures
        step is Wait <==> progress.finalized is None && progress.error is None,
        step is Ready ==> step->clear,
        step is Ready && step->result is Ok ==> {
            let snapshot = step->result->Ok_0;
            &&& progress.finalized == Some(snapshot)
            &&& snapshot.finalized
            &&& snapshot.persisted_size == write_offset
            &&& generation is Some ==> snapshot.generation == generation->Some_0
        },
        progress.finalized is Some && progress.finalized->Some_0.finalized
            && progress.finalized->Some_0.persisted_size == write_offset && (generation is None
            || progress.finalized->Some_0.generation == generation->Some_0) ==> step is Ready
            && step->result is Ok,
        progress.finalized is Some && step is Ready && step->result is Err
            ==> step->result->Err_0.code is DataLoss && step->result->Err_0.zone == zone,
        progress.finalized is None && progress.error is Some ==> step->result == Err::<
            ReplicaSnapshot,
            TransportError,
        >(progress.error->Some_0),
{
}

/// A finalization without a live session succeeds exactly if the service reports
/// the object finalized, in the resolved generation and at the requested size.
pub proof fn law_finalization_needs_the_recovered_prefix(
    zone: usize,
    resource: Option<ObjectResource>,
    generation: i64,
    write_offset: i64,
    result: Result<ReplicaSnapshot, TransportError>,
)
    requires
        call_ensures(finalize_result, (zone, resource, generation, write_offset), result),
    ensures
        result is Ok <==> resource is Some && resource->Some_0.finalized
            && resource->Some_0.generation == generation && resource->Some_0.size == write_offset,
        result is Ok ==> {
            &&& result->Ok_0.zone == zone
            &&& result->Ok_0.finalized
            &&& result->Ok_0.generation == generation
            &&& result->Ok_0.persisted_size == write_offset
            &&& result->Ok_0.metageneration == resource->Some_0.metageneration
            &&& result->Ok_0.crc32c == resource->Some_0.crc32c
        },
        resource is None ==> result->Err_0.code is Internal && result->Err_0.zone == zone,
        resource is Some && result is Err ==> result->Err_0.code is DataLoss && result->Err_0.zone
            == zone,
{
}

/// A token that knows its object is believed and left as it is. One that knows
/// nothing takes the identity of the observed object, which must not be
/// finalized; half an identity is an internal failure. A failure leaves the
/// token alone.
pub proof fn law_tokens_are_resolved_once(
    zone: usize,
    token: &mut AppendToken,
    observed: &ReplicaSnapshot,
    result: Result<(i64, i64), TransportError>,
    identity: TokenIdentity,
    after: TokenIdentity,
)
    requires
        call_ensures(token_identity, (&*old(token),), identity),
        call_ensures(resolve_token_identity, (zone, token, observed), result),
        call_ensures(token_identity, (&*final(token),), after),
    ensures
        identity is Known <==> old(token).generation is Some && old(token).metageneration is Some,
        identity is Unresolved <==> old(token).generation is None && old(
            token,
        ).metageneration is None,
        identity is Known ==> result == Ok::<(i64, i64), TransportError>(
            (old(token).generation->Some_0, old(token).metageneration->Some_0),
        ) && identity == TokenIdentity::Known(result->Ok_0.0, result->Ok_0.1) && *final(token)
            == *old(token),
        identity is Unresolved && !observed.finalized ==> result == Ok::<
            (i64, i64),
            TransportError,
        >((observed.generation, observed.metageneration)),
        identity is Unresolved && observed.finalized ==> result is Err
            && result->Err_0.code is FailedPrecondition,
        identity is Incomplete ==> result is Err && result->Err_0.code is Internal,
        result is Ok ==> after == TokenIdentity::Known(result->Ok_0.0, result->Ok_0.1),
        result is Err ==> *final(token) == *old(token) && result->Err_0.zone == zone,
        final(token).zone == old(token).zone,
        final(token).persisted_size == old(token).persisted_size,
        final(token).write_handle == old(token).write_handle,
{
}

/// Finishing a session leaves its token with the identity that was revealed, and
/// changes nothing else of it.
pub proof fn law_finished_tokens_know_their_object(
    token: &mut AppendToken,
    generation: i64,
    metageneration: i64,
    identity: TokenIdentity,
)
    requires
        call_ensures(adopt_finalized, (token, generation, metageneration), ()),
        call_ensures(token_identity, (&*final(token),), identity),
    ensures
        identity == TokenIdentity::Known(generation, metageneration),
        final(token).zone == old(token).zone,
        final(token).persisted_size == old(token).persisted_size,
        final(token).write_handle == old(token).write_handle,
{
}

/// A one-shot write starts without an answer, remembers the last size and the
/// last object it was told, and is abandoned exactly when its goal is met: any
/// answer, enough persisted bytes, or the object itself.
pub proof fn law_one_shot_writes_stop_at_their_goal(
    goal: WriteGoal,
    fresh: OneShotWrite,
    write: &mut OneShotWrite,
    status: Option<WriteStatus>,
    complete: bool,
)
    requires
        call_ensures(OneShotWrite::new, (goal,), fresh),
        call_ensures(OneShotWrite::step, (write, status), complete),
    ensures
        fresh.goal == goal && !fresh.acknowledged && fresh.persisted_size is None
            && fresh.resource is None,
        final(write).goal == old(write).goal,
        final(write).acknowledged,
        status is Some && status->Some_0 is PersistedSize ==> final(write).persisted_size == Some(
            status->Some_0->PersistedSize_0,
        ) && final(write).resource == old(write).resource,
        status is Some && status->Some_0 is Resource ==> final(write).resource == Some(
            status->Some_0->Resource_0,
        ) && final(write).persisted_size == old(write).persisted_size,
        status is None ==> final(write).persisted_size == old(write).persisted_size && final(write).resource == old(write).resource,
        old(write).goal is Acknowledged ==> complete,
        old(write).goal is Persisted ==> (complete <==> final(write).persisted_size is Some
            && final(write).persisted_size->Some_0 >= old(write).goal->Persisted_0),
        old(write).goal is Resource ==> (complete <==> final(write).resource is Some),
{
}

/// Finalization is bounded by the same half minute as a request; an idle lane
/// may wait without an end.
pub proof fn law_only_finalization_is_timed(purpose: SessionUse, limit: Span, timeout: Option<Span>)
    requires
        call_ensures(session_progress_timeout, (), limit),
        call_ensures(wait_timeout, (purpose,), timeout),
    ensures
        limit.nanos == 30 * 1_000_000_000,
        purpose is Append ==> timeout is None,
        purpose is Finalize ==> timeout == Some(limit),
{
}

/// What made no progress in time exceeded its deadline; every other end of a
/// session is its being unavailable. Each failure names its zone.
pub proof fn law_session_failures_are_classified(
    zone: usize,
    purpose: SessionUse,
    timed_out: bool,
    missing: TransportError,
    send: TransportError,
    wait: TransportError,
    open: TransportError,
)
    requires
        call_ensures(no_live_session, (zone, purpose), missing),
        call_ensures(send_failure, (zone, purpose, timed_out), send),
        call_ensures(wait_failure, (zone, purpose, timed_out), wait),
        call_ensures(open_closed, (zone,), open),
    ensures
        missing.zone == zone && send.zone == zone && wait.zone == zone && open.zone == zone,
        missing.code is Unavailable && open.code is Unavailable,
        timed_out ==> send.code is DeadlineExceeded && wait.code is DeadlineExceeded,
        !timed_out ==> send.code is Unavailable && wait.code is Unavailable,
{
}

/// A slot holds one session. Replacing it hands out the one before, and clearing
/// a failed session takes only that session out: one that has taken its place is
/// left alone.
pub proof fn law_only_the_failed_session_is_cleared(
    empty: SessionSlot,
    replaced: &mut SessionSlot,
    session: Option<u64>,
    before: Option<u64>,
    cleared: &mut SessionSlot,
    failed: u64,
    taken: Option<u64>,
)
    requires
        call_ensures(SessionSlot::new, (), empty),
        call_ensures(SessionSlot::replace, (replaced, session), before),
        call_ensures(SessionSlot::clear_if, (cleared, failed), taken),
    ensures
        empty.current is None,
        before == old(replaced).current,
        final(replaced).current == session,
        old(cleared).current == Some(failed) ==> final(cleared).current is None && taken == Some(
            failed,
        ),
        old(cleared).current != Some(failed) ==> final(cleared).current == old(cleared).current
            && taken is None,
{
}

/// Diagnostics name the live session exactly if there is one whose progress is
/// known, and say that its stream is open exactly if it has not failed.
pub proof fn law_diagnostics_describe_the_live_session(
    slot: &SessionSlot,
    progress: &Option<LaneProgress>,
    diagnostics: LaneSessionDiagnostics,
)
    requires
        call_ensures(SessionSlot::lane_session_diagnostics, (slot, progress), diagnostics),
    ensures
        diagnostics.session_id is Some <==> slot.current is Some && progress is Some,
        diagnostics.response_stream_open is Some <==> diagnostics.session_id is Some,
        diagnostics.session_id is Some ==> diagnostics.session_id == slot.current && (
        diagnostics.response_stream_open->Some_0 <==> progress->Some_0.error is None),
{
}

/// An append succeeds exactly if at least the expected bytes were persisted, and
/// a replacement exactly if they were persisted to the byte. Too few are lost
/// data; a missing answer of an append is an internal failure.
pub proof fn law_writes_must_persist_their_bytes(
    zone: usize,
    persisted_size: Option<i64>,
    expected: i64,
    append: Result<i64, TransportError>,
    replacement: Result<(), TransportError>,
)
    requires
        call_ensures(append_result, (zone, persisted_size, expected), append),
        call_ensures(replacement_persisted, (zone, persisted_size, expected), replacement),
    ensures
        append is Ok <==> persisted_size is Some && persisted_size->Some_0 >= expected,
        append is Ok ==> append->Ok_0 == persisted_size->Some_0,
        append is Err && persisted_size is Some ==> append->Err_0.code is DataLoss,
        append is Err && persisted_size is None ==> append->Err_0.code is Internal,
        append is Err ==> append->Err_0.zone == zone,
        replacement is Ok <==> persisted_size == Some(expected),
        replacement is Err ==> replacement->Err_0.code is DataLoss && replacement->Err_0.zone
            == zone,
{
}

/// A replacement is trusted only if it reads back as it was written, bytes and
/// metadata; its token then resumes at its end without an old handle.
pub proof fn law_replacements_read_back(
    zone: usize,
    snapshot: &ReplicaSnapshot,
    data: &[u8],
    metadata: &Vec<MetadataEntry>,
    result: Result<AppendToken, TransportError>,
    same: bool,
)
    requires
        data@.len() <= i64::MAX,
        call_ensures(replacement_token, (zone, snapshot, data, metadata), result),
        call_ensures(transport::same_metadata, (&snapshot.metadata, metadata), same),
    ensures
        result is Ok <==> snapshot.bytes@ == data@ && same,
        result is Ok ==> {
            &&& result->Ok_0.zone == zone
            &&& result->Ok_0.generation == Some(snapshot.generation)
            &&& result->Ok_0.metageneration == Some(snapshot.metageneration)
            &&& result->Ok_0.persisted_size == data@.len()
            &&& result->Ok_0.write_handle is None
        },
        result is Err ==> result->Err_0.code is DataLoss && result->Err_0.zone == zone,
{
}

/// Bytes that come with a checksum are taken only if it agrees with them, and
/// then all of them, behind what was read before; else nothing is taken.
pub proof fn law_only_intact_bytes_are_read(
    zone: usize,
    bytes: &mut Vec<u8>,
    content: &[u8],
    expected: Option<u32>,
    result: Result<(), TransportError>,
    actual: u32,
    agrees: bool,
)
    requires
        call_ensures(accept_read, (zone, bytes, content, expected), result),
        actual == pack::crc32c_of(content@),
        call_ensures(checksums_match, (expected, actual), agrees),
    ensures
        agrees <==> expected is None || expected->Some_0 == actual,
        result is Ok <==> agrees,
        result is Ok ==> final(bytes)@ == old(bytes)@ + content@,
        result is Err ==> final(bytes)@ == old(bytes)@ && result->Err_0.code is DataLoss
            && result->Err_0.zone == zone,
{
}

/// Byte strings are the same exactly if they have the same length and the same
/// byte in every place.
pub proof fn law_same_bytes_agree_everywhere(a: &[u8], b: &[u8], same: bool)
    requires
        call_ensures(same_bytes, (a, b), same),
    ensures
        same <==> a@.len() == b@.len() && forall|i: int|
            0 <= i < a@.len() ==> #[trigger] a@[i] == b@[i],
{
    if a@.len() == b@.len() && (forall|i: int| 0 <= i < a@.len() ==> #[trigger] a@[i] == b@[i]) {
        assert(a@ =~= b@);
    }
}

} // verus!
