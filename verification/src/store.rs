//! Archive objects and body manifests in ordinary regional buckets.

use crate::archive;
use crate::archive::{ArchiveError, ArchiveObjectRef, RunningDigest, MAX_DIGEST_BYTES};
use crate::error::{Error, ManifestStoreError};
use crate::json;
use crate::pack;
use crate::pack::Piece;
use crate::session;
use crate::status;
use crate::text;
use crate::transport;
use crate::transport::MetadataEntry;
use vstd::prelude::*;

verus! {

/// The text of an archive failure.
pub open spec fn archive_text(error: ArchiveError) -> Seq<char> {
    match error {
        ArchiveError::NotFound(message) => "archive object not found: "@ + message@,
        ArchiveError::Unavailable(message) => "archive unavailable: "@ + message@,
        ArchiveError::Corrupt(message) => "archive integrity or immutable-key conflict: "@
            + message@,
        ArchiveError::Backend(message) => "archive backend: "@ + message@,
    }
}

/// The text of an archive failure.
pub fn archive_message(error: &ArchiveError) -> (message: String)
    ensures
        message@ == archive_text(*error),
{
    match error {
        ArchiveError::NotFound(inner) => "archive object not found: ".to_owned().concat(
            inner.as_str(),
        ),
        ArchiveError::Unavailable(inner) => "archive unavailable: ".to_owned().concat(
            inner.as_str(),
        ),
        ArchiveError::Corrupt(inner) => "archive integrity or immutable-key conflict: ".to_owned().concat(
        inner.as_str()),
        ArchiveError::Backend(inner) => "archive backend: ".to_owned().concat(inner.as_str()),
    }
}

/// A failure without a more specific class.
pub fn archive_error(message: String) -> (error: ArchiveError)
    ensures
        error == ArchiveError::Backend(message),
{
    ArchiveError::Backend(message)
}

/// The archive failure that a status stands for.
pub open spec fn status_failure(code: i32, message: String) -> ArchiveError {
    if code == status::GRPC_NOT_FOUND {
        ArchiveError::NotFound(message)
    } else if code == status::GRPC_UNAVAILABLE || code == status::GRPC_DEADLINE_EXCEEDED || code
        == status::GRPC_RESOURCE_EXHAUSTED || code == status::GRPC_ABORTED || code
        == status::GRPC_FAILED_PRECONDITION {
        ArchiveError::Unavailable(message)
    } else if code == status::GRPC_DATA_LOSS {
        ArchiveError::Corrupt(message)
    } else {
        ArchiveError::Backend(message)
    }
}

/// Classifies a status by its code; `message` is its whole text.
pub fn status_error(code: i32, message: String) -> (error: ArchiveError)
    ensures
        error == status_failure(code, message),
{
    if code == status::GRPC_NOT_FOUND {
        ArchiveError::NotFound(message)
    } else if code == status::GRPC_UNAVAILABLE || code == status::GRPC_DEADLINE_EXCEEDED || code
        == status::GRPC_RESOURCE_EXHAUSTED || code == status::GRPC_ABORTED || code
        == status::GRPC_FAILED_PRECONDITION {
        ArchiveError::Unavailable(message)
    } else if code == status::GRPC_DATA_LOSS {
        ArchiveError::Corrupt(message)
    } else {
        archive_error(message)
    }
}

/// The failure of a manifest read.
///
/// A read of one generation can race the replacement of the object, so an
/// object that has gone is read again: bodies of two generations never mix.
pub fn manifest_read_error(error: ArchiveError) -> (converted: ManifestStoreError)
    ensures
        match error {
            ArchiveError::Unavailable(message) => converted == ManifestStoreError::Unavailable(
                message,
            ),
            ArchiveError::NotFound(message) => converted == ManifestStoreError::Unavailable(
                message,
            ),
            _ => converted matches ManifestStoreError::Backend(text) && text@ == archive_text(
                error,
            ),
        },
{
    match error {
        ArchiveError::Unavailable(message) => ManifestStoreError::Unavailable(message),
        ArchiveError::NotFound(message) => ManifestStoreError::Unavailable(message),
        ArchiveError::Corrupt(message) => ManifestStoreError::Backend(
            archive_message(&ArchiveError::Corrupt(message)),
        ),
        ArchiveError::Backend(message) => ManifestStoreError::Backend(
            archive_message(&ArchiveError::Backend(message)),
        ),
    }
}

/// An archive failure of one kind with this text.
pub open spec fn corrupt(error: ArchiveError, reason: Seq<char>) -> bool {
    error matches ArchiveError::Corrupt(message) && message@ == reason
}

/// What is read of an object: nothing, or from an offset so many bytes.
///
/// `Err` if the range is not within the object.
pub fn read_plan(size: i64, start: u64, end: u64) -> (result: Result<
    Option<(i64, i64)>,
    ArchiveError,
>)
    ensures
        if start > end || size < 0 || end > size {
            result matches Err(ArchiveError::Backend(message)) && message@
                == "invalid object byte range"@
        } else if start == end {
            result matches Ok(plan) && plan is None
        } else {
            result matches Ok(plan) && (plan matches Some((offset, limit)) && offset == start
                && limit == end - start)
        },
{
    if start > end || size < 0 || end > size as u64 {
        return Err(ArchiveError::Backend("invalid object byte range".to_owned()));
    }
    if start == end {
        return Ok(None);
    }
    Ok(Some((start as i64, (end - start) as i64)))
}

/// A range of an object that is being read.
#[derive(Clone, Copy, Debug, PartialEq, Eq, Structural)]
pub struct RangeRead {
    /// Bytes of the range.
    pub expected: u64,
    /// Bytes received so far.
    pub received: u64,
}

impl RangeRead {
    /// No more was received than the range has.
    pub open spec fn wf(self) -> bool {
        self.received <= self.expected
    }

    /// A range of which nothing was received.
    pub fn new(expected: u64) -> (read: Self)
        ensures
            read == (RangeRead { expected, received: 0 }),
            read.wf(),
    {
        RangeRead { expected, received: 0 }
    }

    /// Takes one response in: its checksum must agree and it may not reach
    /// beyond the range.
    pub fn accept(&mut self, content: &[u8], crc32c: Option<u32>) -> (result: Result<
        (),
        ArchiveError,
    >)
        requires
            old(self).wf(),
        ensures
            final(self).wf(),
            final(self).expected == old(self).expected,
            if !session::checksum_agrees(crc32c, content@) {
                &&& result matches Err(error) && corrupt(error, "archive response checksum"@)
                &&& *final(self) == *old(self)
            } else if old(self).received + content@.len() > u64::MAX {
                &&& result matches Err(error) && corrupt(error, "archive length overflow"@)
                &&& *final(self) == *old(self)
            } else if old(self).received + content@.len() > old(self).expected {
                &&& result matches Err(error) && corrupt(error, "archive response overrun"@)
                &&& *final(self) == *old(self)
            } else {
                &&& result is Ok
                &&& final(self).received == old(self).received + content@.len()
            },
    {
        if !session::checksums_match(crc32c, pack::checksum(content)) {
            return Err(ArchiveError::Corrupt("archive response checksum".to_owned()));
        }
        match self.received.checked_add(content.len() as u64) {
            None => Err(ArchiveError::Corrupt("archive length overflow".to_owned())),
            Some(received) => {
                if received > self.expected {
                    return Err(ArchiveError::Corrupt("archive response overrun".to_owned()));
                }
                self.received = received;
                Ok(())
            },
        }
    }

    /// Accepts the end of the stream if the whole range was received.
    pub fn finish(&self) -> (result: Result<(), ArchiveError>)
        ensures
            if self.received == self.expected {
                result is Ok
            } else {
                result matches Err(error) && corrupt(error, "short archive read"@)
            },
    {
        if self.received == self.expected {
            Ok(())
        } else {
            Err(ArchiveError::Corrupt("short archive read".to_owned()))
        }
    }
}

/// Bytes of a chunk that go out where `room` bytes are left: all of it, or the
/// whole messages that fit.
pub open spec fn taken_bytes(room: int, length: int) -> int {
    if length <= room {
        length
    } else if room < 0 {
        0
    } else {
        room / (pack::WIRE_MESSAGE_TARGET_BYTES as int) * pack::WIRE_MESSAGE_TARGET_BYTES
    }
}

/// The messages of one chunk of an upload.
#[derive(Debug)]
pub struct ChunkPlan {
    /// Offset in the object at which the chunk begins.
    pub offset: u64,
    /// Pieces of the chunk that go out, one message each.
    pub pieces: Vec<Piece>,
    /// Why the rest of the chunk does not.
    pub refused: Option<ArchiveError>,
}

/// An upload: the bytes handed over so far.
pub struct Upload {
    /// Digest of the bytes handed over.
    pub digest: RunningDigest,
    /// Number of bytes handed over.
    pub sent: u64,
}

impl Upload {
    /// The bytes handed over so far.
    pub open spec fn bytes(self) -> Seq<u8> {
        archive::taken_in(self.digest)
    }

    /// The bytes are counted, and their digest can be taken.
    pub open spec fn wf(self) -> bool {
        self.sent == self.bytes().len() && self.sent <= MAX_DIGEST_BYTES
    }

    /// Nothing handed over.
    pub fn new() -> (upload: Self)
        ensures
            upload.wf(),
            upload.bytes() == Seq::<u8>::empty(),
    {
        let digest = archive::begin_digest();
        Upload { digest, sent: 0 }
    }

    /// Splits a chunk into messages; a piece is written behind the bytes that
    /// were handed over before the chunk. Pieces that would exceed the
    /// referenced length are refused, while those before them still go out.
    pub fn chunk(&mut self, object: &ArchiveObjectRef, chunk: &[u8]) -> (plan: ChunkPlan)
        requires
            old(self).wf(),
            old(self).sent + chunk@.len() <= MAX_DIGEST_BYTES,
        ensures
            final(self).wf(),
            ({
                let before = old(self).bytes();
                let taken = taken_bytes(object.byte_len - before.len(), chunk@.len() as int);
                &&& final(self).bytes() == before + chunk@.take(taken)
                &&& plan.offset == before.len()
                &&& pack::split_of(plan.pieces@, chunk@.take(taken))
                &&& if chunk@.len() > 0 && before.len() + chunk@.len() > object.byte_len {
                    plan.refused matches Some(error) && corrupt(
                        error,
                        "upload exceeds reference length"@,
                    )
                } else {
                    plan.refused is None
                }
            }),
    {
        let offset: u64 = self.sent;
        let room: u64 = if offset > object.byte_len {
            0
        } else {
            object.byte_len - offset
        };
        let exceeds: bool = chunk.len() as u64 > room;
        let taken: usize = if exceeds {
            let left: usize = room as usize;
            left - left % pack::WIRE_MESSAGE_TARGET_BYTES
        } else {
            chunk.len()
        };
        let kept = vstd::slice::slice_subrange(chunk, 0, taken);
        proof {
            assert(kept@ =~= chunk@.take(taken as int));
        }
        let pieces = pack::split(kept);
        archive::continue_digest(&mut self.digest, kept);
        self.sent = offset + taken as u64;
        let refused = if exceeds {
            Some(ArchiveError::Corrupt("upload exceeds reference length".to_owned()))
        } else {
            None
        };
        ChunkPlan { offset, pieces, refused }
    }

    /// The end of the upload, if all referenced bytes were handed over and no
    /// others: the offset of the message that finishes the object.
    pub fn finish(self, object: &ArchiveObjectRef) -> (result: Result<u64, ArchiveError>)
        requires
            self.wf(),
        ensures
            if object.matches_bytes(self.bytes()) {
                result matches Ok(offset) && offset == self.bytes().len()
            } else {
                result matches Err(error) && corrupt(error, "upload does not match reference"@)
            },
    {
        let sent: u64 = self.sent;
        let sha256: [u8; 32] = archive::end_digest(self.digest);
        if sent == object.byte_len && archive::same_digest(&sha256, &object.sha256) {
            Ok(sent)
        } else {
            Err(ArchiveError::Corrupt("upload does not match reference".to_owned()))
        }
    }
}

/// Why a write of an object failed.
#[derive(Debug)]
pub enum WriteError {
    /// The object does not have the expected generation.
    Conflict,
    /// Any other failure.
    Archive(ArchiveError),
}

/// Classifies a refused write; `message` is the status's whole text.
pub fn write_refused(code: i32, message: String) -> (error: WriteError)
    ensures
        error == if code == status::GRPC_ALREADY_EXISTS || code
            == status::GRPC_FAILED_PRECONDITION {
            WriteError::Conflict
        } else {
            WriteError::Archive(status_failure(code, message))
        },
{
    if code == status::GRPC_ALREADY_EXISTS || code == status::GRPC_FAILED_PRECONDITION {
        WriteError::Conflict
    } else {
        WriteError::Archive(status_error(code, message))
    }
}

/// The failure of a write whose response left the object out: it may have
/// succeeded.
pub fn write_without_resource() -> (error: WriteError)
    ensures
        error matches WriteError::Archive(ArchiveError::Unavailable(message)) && message@
            == "write response omitted object identity"@,
{
    WriteError::Archive(
        ArchiveError::Unavailable("write response omitted object identity".to_owned()),
    )
}

/// The parts of a key between its slashes.
pub open spec fn key_parts(key: Seq<char>) -> Seq<Seq<char>>
    decreases key.len(),
{
    if key.len() == 0 {
        seq![Seq::empty()]
    } else if key.last() == '/' {
        key_parts(key.drop_last()).push(Seq::empty())
    } else {
        let parts = key_parts(key.drop_last());
        parts.drop_last().push(parts.last().push(key.last()))
    }
}

/// Whether a part of a key may stand: it is not empty and leads not upwards.
pub open spec fn part_ok(part: Seq<char>) -> bool {
    part.len() > 0 && part != seq!['.', '.']
}

/// Whether a key stays within its namespace.
pub open spec fn key_ok(key: Seq<char>) -> bool {
    forall|i: int| 0 <= i < key_parts(key).len() ==> part_ok(#[trigger] key_parts(key)[i])
}

proof fn lemma_parts_nonempty(key: Seq<char>)
    ensures
        key_parts(key).len() > 0,
    decreases key.len(),
{
    if key.len() > 0 {
        lemma_parts_nonempty(key.drop_last());
    }
}

/// Whether a key stays within its namespace.
pub fn valid_key(key: &str) -> (valid: bool)
    ensures
        valid == key_ok(key@),
{
    let n: usize = key.unicode_len();
    let mut i: usize = 0;
    let mut length: usize = 0;
    let mut dots: bool = true;
    let mut good: bool = true;
    proof {
        assert(key@.take(0) =~= Seq::<char>::empty());
    }
    while i < n
        invariant
            i <= n,
            n == key@.len(),
            key_parts(key@.take(i as int)).len() > 0,
            length == key_parts(key@.take(i as int)).last().len(),
            length <= i,
            dots == (forall|j: int|
                0 <= j < length ==> #[trigger] key_parts(key@.take(i as int)).last()[j] == '.'),
            good == (forall|j: int|
                0 <= j < key_parts(key@.take(i as int)).len() - 1 ==> part_ok(
                    #[trigger] key_parts(key@.take(i as int))[j],
                )),
        decreases n - i,
    {
        let c: char = key.get_char(i);
        let ghost before = key_parts(key@.take(i as int));
        let ghost after = key_parts(key@.take(i + 1));
        proof {
            assert(key@.take(i + 1).drop_last() =~= key@.take(i as int));
            assert(key@.take(i + 1).last() == c);
            lemma_parts_nonempty(key@.take(i + 1));
        }
        if c == '/' {
            proof {
                lemma_part_ok(before.last(), length as int, dots);
                assert(after == before.push(Seq::empty()));
                assert(after.last() == Seq::<char>::empty());
                assert forall|j: int| 0 <= j < before.len() implies after[j] == before[j] by {}
                if good && !(length == 0 || (length == 2 && dots)) {
                    assert forall|j: int| 0 <= j < after.len() - 1 implies part_ok(
                        #[trigger] after[j],
                    ) by {
                        if j < before.len() - 1 {
                            assert(part_ok(before[j]));
                        }
                    }
                } else if good {
                    assert(!part_ok(after[before.len() - 1]));
                } else {
                    let j = choose|j: int| 0 <= j < before.len() - 1 && !part_ok(before[j]);
                    assert(!part_ok(after[j]));
                }
            }
            if length == 0 || (length == 2 && dots) {
                good = false;
            }
            length = 0;
            dots = true;
        } else {
            proof {
                let last = before.last();
                assert(after == before.drop_last().push(last.push(c)));
                assert(after.last() == last.push(c));
                assert forall|j: int| 0 <= j < before.len() - 1 implies after[j] == before[j] by {}
                if dots && c == '.' {
                } else if dots {
                    assert(after.last()[length as int] != '.');
                } else {
                    let j = choose|j: int| 0 <= j < length && last[j] != '.';
                    assert(after.last()[j] != '.');
                }
                if !good {
                    let j = choose|j: int| 0 <= j < before.len() - 1 && !part_ok(before[j]);
                    assert(!part_ok(after[j]));
                }
            }
            length = length + 1;
            dots = dots && c == '.';
        }
        i = i + 1;
    }
    let ghost parts = key_parts(key@);
    proof {
        assert(key@.take(n as int) =~= key@);
        lemma_part_ok(parts.last(), length as int, dots);
        if good && !(length == 0 || (length == 2 && dots)) {
            assert forall|j: int| 0 <= j < parts.len() implies part_ok(#[trigger] parts[j]) by {
                if j == parts.len() - 1 {
                    assert(parts[j] == parts.last());
                }
            }
        } else if good {
            assert(!part_ok(parts[parts.len() - 1]));
        }
    }
    good && !(length == 0 || (length == 2 && dots))
}

proof fn lemma_part_ok(part: Seq<char>, length: int, dots: bool)
    requires
        length == part.len(),
        dots == (forall|j: int| 0 <= j < length ==> #[trigger] part[j] == '.'),
    ensures
        part_ok(part) == !(length == 0 || (length == 2 && dots)),
{
    let up: Seq<char> = seq!['.', '.'];
    if length == 2 && dots {
        assert(part =~= up);
    } else if part == up {
        assert(forall|j: int| 0 <= j < length ==> #[trigger] part[j] == '.');
    }
}

/// Immutable objects of one log in an ordinary regional bucket.
#[derive(Debug)]
pub struct GcsArchiveStore {
    /// Full resource name of the bucket.
    pub bucket: String,
    /// Prefix of the log's archive.
    pub prefix: String,
    /// Stable identity of bucket and prefix.
    pub namespace: String,
}

impl GcsArchiveStore {
    /// Binds a bucket to one log's archive prefix. Slashes around the prefix
    /// are dropped.
    pub fn new(bucket: &str, prefix: &str) -> (result: Result<Self, Error>)
        ensures
            ({
                let trimmed = text::trim_end(text::trim_start(prefix@));
                let namespace = bucket@ + "/"@ + trimmed;
                if trimmed.len() == 0 {
                    result matches Err(Error::InvalidConfig(reason)) && reason@
                        == "archive prefix must not be empty"@
                } else if archive::json_string_bytes(namespace) <= archive::MAX_NAMESPACE_BYTES {
                    result matches Ok(store) && store.bucket@ == bucket@ && store.prefix@
                        == trimmed && store.namespace@ == namespace
                } else {
                    result matches Err(Error::InvalidConfig(reason)) && reason@
                        == "archive namespace exceeds its encoded byte limit"@
                }
            }),
    {
        let trimmed = text::trim_slashes(prefix);
        if trimmed.as_str().unicode_len() == 0 {
            return Err(Error::InvalidConfig("archive prefix must not be empty"));
        }
        let namespace = bucket.to_owned().concat("/").concat(trimmed.as_str());
        if !archive::valid_namespace(namespace.as_str()) {
            return Err(Error::InvalidConfig("archive namespace exceeds its encoded byte limit"));
        }
        Ok(GcsArchiveStore { bucket: bucket.to_owned(), prefix: trimmed, namespace })
    }

    /// The name of a referenced object in the bucket. A key that leaves the
    /// prefix, or a length that no object can have, is refused.
    pub fn object_name(&self, object: &ArchiveObjectRef) -> (result: Result<String, ArchiveError>)
        ensures
            if key_ok(object.key@) && object.byte_len <= i64::MAX {
                result matches Ok(name) && name@ == self.prefix@ + "/"@ + object.key@
            } else {
                result matches Err(ArchiveError::Backend(message)) && message@
                    == "invalid archive object reference"@
            },
    {
        if !valid_key(object.key.as_str()) || object.byte_len > i64::MAX as u64 {
            return Err(archive_error("invalid archive object reference".to_owned()));
        }
        let mut name = self.prefix.as_str().to_owned();
        name.append("/");
        name.append(object.key.as_str());
        Ok(name)
    }
}

/// Checks an object's size before it is read.
pub fn check_object_size(object: &ArchiveObjectRef, size: i64) -> (result: Result<(), ArchiveError>)
    ensures
        if size == object.byte_len {
            result is Ok
        } else {
            result matches Err(ArchiveError::Corrupt(key)) && key == object.key
        },
{
    if size < 0 || size as u64 != object.byte_len {
        return Err(ArchiveError::Corrupt(object.key.clone()));
    }
    Ok(())
}

/// How a publication ends.
pub enum PutStep {
    /// It is over.
    Done(Result<(), ArchiveError>),
    /// The object exists: read all of it and compare it with the reference.
    VerifyExisting,
}

/// Decides on a publication after its write. Identical bytes may be published
/// again; an existing object is never trusted by its metadata.
pub fn put_step(written: Result<(), WriteError>) -> (step: PutStep)
    ensures
        step == match written {
            Ok(()) => PutStep::Done(Ok(())),
            Err(WriteError::Conflict) => PutStep::VerifyExisting,
            Err(WriteError::Archive(error)) => PutStep::Done(Err(error)),
        },
{
    match written {
        Ok(()) => PutStep::Done(Ok(())),
        Err(WriteError::Conflict) => PutStep::VerifyExisting,
        Err(WriteError::Archive(error)) => PutStep::Done(Err(error)),
    }
}

/// A control register stored in an object's body. Each update replaces the
/// body of the observed generation.
#[derive(Debug)]
pub struct GcsBodyManifestStore {
    /// Name of the object.
    pub object: String,
    /// Advertised directory budget.
    pub max_directory_bytes: usize,
}

impl GcsBodyManifestStore {
    /// Binds an object and its directory budget; neither may be empty.
    pub fn new(object: String, max_directory_bytes: usize) -> (result: Result<Self, Error>)
        ensures
            if object@.len() == 0 || max_directory_bytes == 0 {
                result matches Err(Error::InvalidConfig(reason)) && reason@
                    == "body manifest requires an object and nonzero capacity"@
            } else {
                result == Ok::<Self, Error>(GcsBodyManifestStore { object, max_directory_bytes })
            },
    {
        if object.as_str().unicode_len() == 0 || max_directory_bytes == 0 {
            return Err(
                Error::InvalidConfig("body manifest requires an object and nonzero capacity"),
            );
        }
        Ok(GcsBodyManifestStore { object, max_directory_bytes })
    }

    /// Most bytes of a body: JSON escaping can expand the directory sixfold.
    pub open spec fn body_limit(self) -> int {
        let wanted = self.max_directory_bytes * 6 + 16384;
        if wanted > i64::MAX {
            i64::MAX as int
        } else {
            wanted
        }
    }

    /// Most bytes of a body.
    pub fn max_body_bytes(&self) -> (limit: u64)
        ensures
            limit == self.body_limit(),
    {
        let wanted: u128 = self.max_directory_bytes as u128 * 6 + 16384;
        if wanted > i64::MAX as u128 {
            i64::MAX as u64
        } else {
            wanted as u64
        }
    }

    /// Checks the size of a body, to be written or read.
    pub fn check_body(&self, size: i64) -> (result: Result<(), ManifestStoreError>)
        ensures
            if 0 <= size <= self.body_limit() {
                result is Ok
            } else {
                result matches Err(ManifestStoreError::Backend(message)) && message@
                    == "manifest body exceeds configured limit"@
            },
    {
        if size < 0 || size as u64 > self.max_body_bytes() {
            return Err(
                ManifestStoreError::Backend("manifest body exceeds configured limit".to_owned()),
            );
        }
        Ok(())
    }
}

impl GcsBodyManifestStore {
    /// The fields that a body holds.
    pub fn decode(&self, body: &[u8]) -> (result: Result<Vec<MetadataEntry>, ManifestStoreError>)
        ensures
            match json::json_fields(body@) {
                Ok(pairs) => result matches Ok(fields) && transport::metadata_pairs(fields@)
                    == pairs && json::distinct_fields(fields@),
                Err(text) => result matches Err(ManifestStoreError::Backend(message)) && message@
                    == text,
            },
    {
        match json::read_fields(body) {
            Ok(fields) => Ok(fields),
            Err(message) => Err(ManifestStoreError::Backend(message)),
        }
    }

    /// A body that holds these fields, if it is within the limit.
    pub fn encode(&self, fields: &Vec<MetadataEntry>) -> (result: Result<
        Vec<u8>,
        ManifestStoreError,
    >)
        requires
            json::distinct_fields(fields@),
        ensures
            if json::object_bytes(json::field_texts(fields@)) <= self.body_limit() {
                result matches Ok(body) && body@.len() <= self.body_limit() && json::holds_fields(
                    body@,
                    transport::metadata_pairs(fields@),
                )
            } else {
                result matches Err(ManifestStoreError::Backend(message)) && message@
                    == "manifest body exceeds configured limit"@
            },
    {
        let body: Vec<u8> = match json::write_fields(fields) {
            Ok(body) => body,
            Err(message) => {
                return Err(ManifestStoreError::Backend(message));
            },
        };
        if body.len() as u64 > self.max_body_bytes() {
            return Err(
                ManifestStoreError::Backend("manifest body exceeds configured limit".to_owned()),
            );
        }
        Ok(body)
    }
}

/// What a register reads back is what was written into it: a body that was
/// encoded from some fields is decoded to the same ones.
pub proof fn law_register_reads_back_what_was_written(
    written: Seq<MetadataEntry>,
    body: Seq<u8>,
    read: Seq<MetadataEntry>,
)
    requires
        json::holds_fields(body, transport::metadata_pairs(written)),
        json::holds_fields(body, transport::metadata_pairs(read)),
    ensures
        transport::metadata_pairs(read) == transport::metadata_pairs(written),
{
}

/// The failure of a manifest write that expected `generation`.
pub fn put_error(generation: i64, error: WriteError) -> (converted: ManifestStoreError)
    ensures
        match error {
            WriteError::Conflict => converted == if generation == 0 {
                ManifestStoreError::AlreadyExists
            } else {
                ManifestStoreError::Conflict
            },
            WriteError::Archive(ArchiveError::Unavailable(message)) => converted
                == ManifestStoreError::Unavailable(message),
            WriteError::Archive(other) => converted matches ManifestStoreError::Backend(message)
                && message@ == archive_text(other),
        },
{
    match error {
        WriteError::Conflict => if generation == 0 {
            ManifestStoreError::AlreadyExists
        } else {
            ManifestStoreError::Conflict
        },
        WriteError::Archive(ArchiveError::Unavailable(message)) => ManifestStoreError::Unavailable(
            message,
        ),
        WriteError::Archive(other) => ManifestStoreError::Backend(archive_message(&other)),
    }
}

/// The generation that an update replaces. Version zero stands for no object,
/// which an update cannot replace.
pub fn update_generation(version: u64) -> (result: Result<i64, ManifestStoreError>)
    ensures
        if version > i64::MAX {
            result matches Err(ManifestStoreError::Backend(message)) && message@
                == "invalid GCS generation"@
        } else if version == 0 {
            result matches Err(ManifestStoreError::Conflict)
        } else {
            result matches Ok(generation) && generation == version
        },
{
    if version > i64::MAX as u64 {
        return Err(ManifestStoreError::Backend("invalid GCS generation".to_owned()));
    }
    if version == 0 {
        return Err(ManifestStoreError::Conflict);
    }
    Ok(version as i64)
}

/// What a failed look at a manifest means: one that is not there reads as
/// nothing. `message` is the status's whole text.
pub fn manifest_stat_failed(code: i32, message: String) -> (result: Result<
    (),
    ManifestStoreError,
>)
    ensures
        if code == status::GRPC_NOT_FOUND {
            result is Ok
        } else {
            match status_failure(code, message) {
                ArchiveError::Unavailable(inner) => result == Err::<(), ManifestStoreError>(
                    ManifestStoreError::Unavailable(inner),
                ),
                other => result matches Err(ManifestStoreError::Backend(inner)) && inner@
                    == archive_text(other),
            }
        },
{
    if code == status::GRPC_NOT_FOUND {
        return Ok(());
    }
    Err(manifest_read_error(status_error(code, message)))
}

/// A failure says which kind it is, with the text that came with it: a missing
/// object, damaged data, a service that may answer later, or anything else.
pub proof fn law_archive_failures_are_classified(
    code: i32,
    message: String,
    error: ArchiveError,
    other: ArchiveError,
)
    requires
        call_ensures(status_error, (code, message), error),
        call_ensures(archive_error, (message,), other),
    ensures
        code == 5 <==> error is NotFound,
        code == 15 <==> error is Corrupt,
        code == 4 || code == 8 || code == 9 || code == 10 || code == 14 <==> error is Unavailable,
        error is NotFound ==> error->NotFound_0 == message,
        error is Corrupt ==> error->Corrupt_0 == message,
        error is Unavailable ==> error->Unavailable_0 == message,
        error is Backend ==> error->Backend_0 == message,
        other == ArchiveError::Backend(message),
{
}

/// A manifest read that failed can be tried again exactly if the service was
/// unavailable or the object was replaced under the reader; damage and anything
/// else is final. A look that finds no manifest is no failure.
pub proof fn law_manifest_reads_are_retried_when_they_can_be(
    error: ArchiveError,
    converted: ManifestStoreError,
    code: i32,
    message: String,
    stat: Result<(), ManifestStoreError>,
)
    requires
        call_ensures(manifest_read_error, (error,), converted),
        call_ensures(manifest_stat_failed, (code, message), stat),
    ensures
        error is Unavailable ==> converted == ManifestStoreError::Unavailable(
            error->Unavailable_0,
        ),
        error is NotFound ==> converted == ManifestStoreError::Unavailable(error->NotFound_0),
        error is Corrupt || error is Backend ==> converted is Backend,
        stat is Ok <==> code == 5,
        code == 4 || code == 8 || code == 9 || code == 10 || code == 14 ==> stat is Err
            && stat->Err_0 == ManifestStoreError::Unavailable(message),
        stat is Err && !(code == 4 || code == 8 || code == 9 || code == 10 || code == 14)
            ==> stat->Err_0 is Backend,
{
}

/// A range is read exactly if it lies within the object: an empty one not at
/// all, any other from its start for its whole length.
pub proof fn law_reads_stay_within_the_object(
    size: i64,
    start: u64,
    end: u64,
    result: Result<Option<(i64, i64)>, ArchiveError>,
)
    requires
        call_ensures(read_plan, (size, start, end), result),
    ensures
        result is Ok <==> start <= end <= size,
        result is Err ==> result->Err_0 is Backend,
        result is Ok ==> (result->Ok_0 is None <==> start == end),
        result is Ok && result->Ok_0 is Some ==> {
            let (offset, limit) = result->Ok_0->Some_0;
            &&& offset == start
            &&& offset + limit == end
        },
{
}

/// A range that is read counts what it received: intact responses within it and
/// nothing else. It is complete exactly if everything came.
pub proof fn law_ranges_are_received_whole(
    expected: u64,
    fresh: RangeRead,
    read: &mut RangeRead,
    content: &[u8],
    crc32c: Option<u32>,
    accepted: Result<(), ArchiveError>,
    finished: Result<(), ArchiveError>,
)
    requires
        old(read).received <= old(read).expected,
        call_ensures(RangeRead::new, (expected,), fresh),
        call_ensures(RangeRead::accept, (read, content, crc32c), accepted),
        call_ensures(RangeRead::finish, (&*final(read),), finished),
    ensures
        fresh.expected == expected && fresh.received == 0,
        accepted is Ok <==> (crc32c is None || crc32c->Some_0 == pack::crc32c_of(content@)) && old(
            read,
        ).received + content@.len() <= old(read).expected,
        accepted is Ok ==> final(read).received == old(read).received + content@.len(),
        accepted is Err ==> *final(read) == *old(read) && accepted->Err_0 is Corrupt,
        final(read).expected == old(read).expected,
        finished is Ok <==> final(read).received == final(read).expected,
        finished is Err ==> finished->Err_0 is Corrupt,
{
}

/// An upload goes on where it stands. A chunk that fits the referenced length
/// goes out whole; of one that does not, only whole messages of a quarter
/// mebibyte go out, as many as fit, and the rest is refused. What goes out is
/// what the digest is taken of.
pub proof fn law_uploads_stop_at_the_referenced_length(
    fresh: Upload,
    upload: &mut Upload,
    object: &ArchiveObjectRef,
    chunk: &[u8],
    plan: ChunkPlan,
    taken: int,
)
    requires
        old(upload).wf(),
        old(upload).sent + chunk@.len() <= MAX_DIGEST_BYTES,
        call_ensures(Upload::new, (), fresh),
        call_ensures(Upload::chunk, (upload, object, chunk), plan),
        taken == final(upload).bytes().len() - old(upload).bytes().len(),
    ensures
        fresh.bytes().len() == 0,
        plan.offset == old(upload).bytes().len(),
        0 <= taken <= chunk@.len(),
        final(upload).bytes() == old(upload).bytes() + chunk@.take(taken),
        ({
            let before = old(upload).bytes().len();
            let fits = before + chunk@.len() <= object.byte_len;
            &&& fits ==> taken == chunk@.len() && plan.refused is None
            &&& !fits && chunk@.len() > 0 ==> plan.refused is Some && plan.refused->Some_0 is Corrupt
            &&& !fits ==> taken % 262144 == 0
            &&& !fits && before <= object.byte_len ==> before + taken <= object.byte_len
                && object.byte_len < before + taken + 262144
            &&& !fits && before > object.byte_len ==> taken == 0
        }),
        plan.pieces@.len() == 0 <==> taken == 0,
        plan.pieces@.len() > 0 ==> plan.pieces@[0].start == 0 && plan.pieces@.last().end == taken,
{
    let before = old(upload).bytes();
    let room = object.byte_len - before.len();
    let all = taken_bytes(room, chunk@.len() as int);
    assert(0 <= all <= chunk@.len());
    assert(taken == all);
    if plan.pieces@.len() > 0 {
        assert(plan.pieces@.last() == plan.pieces@[plan.pieces@.len() - 1]);
    }
}

/// An upload is finished, at its end, exactly if what went out is what the
/// reference stands for.
pub proof fn law_finished_uploads_match_their_reference(
    upload: Upload,
    object: &ArchiveObjectRef,
    result: Result<u64, ArchiveError>,
)
    requires
        upload.wf(),
        call_ensures(Upload::finish, (upload, object), result),
    ensures
        result is Ok <==> upload.bytes().len() == object.byte_len && archive::sha256_of(
            upload.bytes(),
        ) == object.sha256@,
        result is Ok ==> result->Ok_0 == object.byte_len,
        result is Err ==> result->Err_0 is Corrupt,
{
}

/// A write that met another generation is a conflict; any other refusal keeps
/// its class, and a write whose answer was lost may have succeeded.
pub proof fn law_refused_writes_are_conflicts_or_failures(
    code: i32,
    message: String,
    error: WriteError,
    class: ArchiveError,
    lost: WriteError,
)
    requires
        call_ensures(write_refused, (code, message), error),
        call_ensures(status_error, (code, message), class),
        call_ensures(write_without_resource, (), lost),
    ensures
        error is Conflict <==> code == 6 || code == 9,
        error is Archive ==> error->Archive_0 == class,
        lost is Archive && lost->Archive_0 is Unavailable,
{
}

proof fn lemma_parts_concat(a: Seq<char>, b: Seq<char>)
    ensures
        key_parts(a + seq!['/'] + b) == key_parts(a) + key_parts(b),
    decreases b.len(),
{
    let whole = a + seq!['/'] + b;
    lemma_parts_nonempty(b);
    if b.len() == 0 {
        assert(whole.drop_last() =~= a);
        assert(whole.last() == '/');
        assert(key_parts(whole) =~= key_parts(a) + key_parts(b));
    } else {
        let rest = b.drop_last();
        lemma_parts_concat(a, rest);
        lemma_parts_nonempty(rest);
        assert(whole.drop_last() =~= a + seq!['/'] + rest);
        assert(whole.last() == b.last());
        let before = key_parts(a) + key_parts(rest);
        if b.last() == '/' {
            assert(key_parts(whole) =~= key_parts(a) + key_parts(b));
        } else {
            assert(before.last() == key_parts(rest).last());
            assert(before.drop_last() =~= key_parts(a) + key_parts(rest).drop_last());
            assert(key_parts(whole) =~= key_parts(a) + key_parts(b));
        }
    }
}

proof fn lemma_single_part(key: Seq<char>)
    requires
        forall|i: int| 0 <= i < key.len() ==> #[trigger] key[i] != '/',
    ensures
        key_parts(key) == seq![key],
    decreases key.len(),
{
    if key.len() == 0 {
        assert(key =~= Seq::<char>::empty());
    } else {
        let rest = key.drop_last();
        assert forall|i: int| 0 <= i < rest.len() implies #[trigger] rest[i] != '/' by {
            assert(rest[i] == key[i]);
        }
        lemma_single_part(rest);
        assert(key[key.len() - 1] != '/');
        assert(rest.push(key.last()) =~= key);
        assert(key_parts(key) =~= seq![key]);
    }
}

/// A key stays within its namespace exactly if each part between its slashes
/// does: a part must not be empty and must not be `..`.
pub proof fn law_keys_stay_within_their_namespace(
    key: &str,
    valid: bool,
    first: &str,
    first_valid: bool,
    rest: &str,
    rest_valid: bool,
)
    requires
        call_ensures(valid_key, (key,), valid),
        call_ensures(valid_key, (first,), first_valid),
        call_ensures(valid_key, (rest,), rest_valid),
    ensures
        (forall|i: int| 0 <= i < key@.len() ==> #[trigger] key@[i] != '/') ==> (valid
            <==> key@.len() > 0 && key@ != seq!['.', '.']),
        key@ == first@ + seq!['/'] + rest@ ==> (valid <==> first_valid && rest_valid),
{
    if forall|i: int| 0 <= i < key@.len() ==> #[trigger] key@[i] != '/' {
        lemma_single_part(key@);
        assert(key_ok(key@) <==> part_ok(key@)) by {
            assert(key_parts(key@)[0] == key@);
        }
    }
    if key@ == first@ + seq!['/'] + rest@ {
        lemma_parts_concat(first@, rest@);
        let (a, b) = (key_parts(first@), key_parts(rest@));
        let all = key_parts(key@);
        if valid {
            assert forall|i: int| 0 <= i < a.len() implies part_ok(#[trigger] a[i]) by {
                assert(part_ok(all[i]));
            }
            assert forall|i: int| 0 <= i < b.len() implies part_ok(#[trigger] b[i]) by {
                assert(part_ok(all[a.len() + i]));
            }
        }
        if first_valid && rest_valid {
            assert forall|i: int| 0 <= i < all.len() implies part_ok(#[trigger] all[i]) by {
                if i < a.len() {
                    assert(part_ok(a[i]));
                } else {
                    assert(part_ok(b[i - a.len()]));
                }
            }
        }
    }
}

/// An object lies under the store's prefix by its key; a key that leaves it, or
/// a length that no object can have, is refused. An object is read only at its
/// exact length.
pub proof fn law_objects_lie_under_the_prefix(
    store: &GcsArchiveStore,
    object: &ArchiveObjectRef,
    name: Result<String, ArchiveError>,
    key: &str,
    valid: bool,
    size: i64,
    checked: Result<(), ArchiveError>,
)
    requires
        call_ensures(GcsArchiveStore::object_name, (store, object), name),
        key@ == object.key@,
        call_ensures(valid_key, (key,), valid),
        call_ensures(check_object_size, (object, size), checked),
    ensures
        name is Ok <==> valid && object.byte_len <= i64::MAX,
        name is Ok ==> name->Ok_0@ == store.prefix@ + "/"@ + object.key@,
        name is Err ==> name->Err_0 is Backend,
        checked is Ok <==> size == object.byte_len,
        checked is Err ==> checked->Err_0 == ArchiveError::Corrupt(object.key),
{
}

/// A store is bound exactly to a prefix that is more than slashes and whose
/// namespace can be persisted; it keeps the bucket and the trimmed prefix, and
/// its namespace is both with a slash between them.
pub proof fn law_stores_are_named_by_bucket_and_prefix(
    bucket: &str,
    prefix: &str,
    result: Result<GcsArchiveStore, Error>,
    trimmed: String,
    namespace: &str,
    valid: bool,
)
    requires
        call_ensures(GcsArchiveStore::new, (bucket, prefix), result),
        call_ensures(text::trim_slashes, (prefix,), trimmed),
        namespace@ == bucket@ + "/"@ + trimmed@,
        call_ensures(archive::valid_namespace, (namespace,), valid),
    ensures
        result is Ok <==> trimmed@.len() > 0 && valid,
        result is Ok ==> {
            &&& result->Ok_0.bucket@ == bucket@
            &&& result->Ok_0.prefix@ == trimmed@
            &&& result->Ok_0.namespace@ == bucket@ + "/"@ + trimmed@
        },
        result is Err ==> result->Err_0 is InvalidConfig,
{
}

/// A publication succeeds with its write, fails with any failure but a conflict,
/// and on a conflict reads what is there.
pub proof fn law_conflicting_publications_are_verified(
    written: Result<(), WriteError>,
    step: PutStep,
)
    requires
        call_ensures(put_step, (written,), step),
    ensures
        step is VerifyExisting <==> written is Err && written->Err_0 is Conflict,
        written is Ok ==> step->Done_0 is Ok,
        written is Err && written->Err_0 is Archive ==> step->Done_0 == Err::<(), ArchiveError>(
            written->Err_0->Archive_0,
        ),
{
}

/// A register may have six times its directory and sixteen kibibytes, as far as
/// sizes can be counted; a body within that is accepted, and no other.
pub proof fn law_bodies_are_bounded(
    object: String,
    max_directory_bytes: usize,
    made: Result<GcsBodyManifestStore, Error>,
    store: &GcsBodyManifestStore,
    limit: u64,
    size: i64,
    checked: Result<(), ManifestStoreError>,
)
    requires
        call_ensures(GcsBodyManifestStore::new, (object, max_directory_bytes), made),
        call_ensures(GcsBodyManifestStore::max_body_bytes, (store,), limit),
        call_ensures(GcsBodyManifestStore::check_body, (store, size), checked),
    ensures
        made is Ok <==> object@.len() > 0 && max_directory_bytes > 0,
        made is Ok ==> made->Ok_0.object == object && made->Ok_0.max_directory_bytes
            == max_directory_bytes,
        made is Err ==> made->Err_0 is InvalidConfig,
        6 * store.max_directory_bytes + 16384 <= i64::MAX ==> limit == 6
            * store.max_directory_bytes + 16384,
        6 * store.max_directory_bytes + 16384 > i64::MAX ==> limit == i64::MAX,
        checked is Ok <==> 0 <= size <= limit,
        checked is Err ==> checked->Err_0 is Backend,
{
}

/// What is written into a register is read back from it: a body that could be
/// encoded is within the limit, and decoding it gives the same fields, each once.
pub proof fn law_encoded_fields_are_decoded(
    store: &GcsBodyManifestStore,
    fields: &Vec<MetadataEntry>,
    encoded: Result<Vec<u8>, ManifestStoreError>,
    body: &[u8],
    decoded: Result<Vec<MetadataEntry>, ManifestStoreError>,
    limit: u64,
    same: bool,
)
    requires
        json::distinct_fields(fields@),
        call_ensures(GcsBodyManifestStore::encode, (store, fields), encoded),
        encoded is Ok,
        body@ == encoded->Ok_0@,
        call_ensures(GcsBodyManifestStore::decode, (store, body), decoded),
        call_ensures(GcsBodyManifestStore::max_body_bytes, (store,), limit),
        decoded is Ok ==> call_ensures(
            transport::same_metadata,
            (&decoded->Ok_0, fields),
            same,
        ),
    ensures
        body@.len() <= limit,
        decoded is Ok,
        same,
        json::distinct_fields(decoded->Ok_0@),
{
}

/// A manifest write that met another generation found an existing manifest if it
/// was to create one, and a newer one if it was to replace one. An unavailable
/// service may be asked again; anything else is final.
pub proof fn law_manifest_conflicts_are_told_apart(
    generation: i64,
    error: WriteError,
    converted: ManifestStoreError,
    shown: String,
)
    requires
        call_ensures(put_error, (generation, error), converted),
        error is Archive ==> call_ensures(archive_message, (&error->Archive_0,), shown),
    ensures
        error is Conflict && generation == 0 ==> converted is AlreadyExists,
        error is Conflict && generation != 0 ==> converted is Conflict,
        error is Archive && error->Archive_0 is Unavailable ==> converted
            == ManifestStoreError::Unavailable(error->Archive_0->Unavailable_0),
        error is Archive && !(error->Archive_0 is Unavailable) ==> converted is Backend
            && converted->Backend_0@ == shown@,
{
}

/// An update replaces the generation that its version names. No object has
/// version zero, so an update of it is a conflict.
pub proof fn law_updates_replace_their_version(
    version: u64,
    result: Result<i64, ManifestStoreError>,
)
    requires
        call_ensures(update_generation, (version,), result),
    ensures
        result is Ok <==> 0 < version <= i64::MAX,
        result is Ok ==> result->Ok_0 == version,
        version == 0 ==> result->Err_0 is Conflict,
        version > i64::MAX ==> result->Err_0 is Backend,
{
}

/// The text of an archive failure names its class and ends in its message.
pub proof fn law_archive_failures_name_their_class(error: &ArchiveError, message: String)
    requires
        call_ensures(archive_message, (error,), message),
    ensures
        *error is NotFound ==> message@ == "archive object not found: "@ + error->NotFound_0@,
        *error is Unavailable ==> message@ == "archive unavailable: "@ + error->Unavailable_0@,
        *error is Corrupt ==> message@ == "archive integrity or immutable-key conflict: "@
            + error->Corrupt_0@,
        *error is Backend ==> message@ == "archive backend: "@ + error->Backend_0@,
{
}

} // verus!
