//! What the log knows of one replica: outcomes, snapshots and append tokens.

use vstd::prelude::*;

verus! {

/// Stable classification of a provider failure.
#[derive(Clone, Copy, Debug, PartialEq, Eq, Structural)]
pub enum TransportCode {
    /// The object or generation does not exist.
    NotFound,
    /// A create-only precondition found an existing object.
    AlreadyExists,
    /// The request was malformed.
    InvalidArgument,
    /// A generation or metageneration precondition failed.
    FailedPrecondition,
    /// The provider aborted the operation.
    Aborted,
    /// An offset lies outside of the object.
    OutOfRange,
    /// A quota was exhausted.
    ResourceExhausted,
    /// The provider does not implement the operation.
    Unimplemented,
    /// Stored or transferred bytes were damaged.
    DataLoss,
    /// The mutation may have been applied.
    Ambiguous,
    /// The caller's identity is unknown.
    Unauthenticated,
    /// The caller's identity lacks a permission.
    PermissionDenied,
    /// The provider is temporarily unreachable.
    Unavailable,
    /// The operation ran out of time.
    DeadlineExceeded,
    /// Any other failure.
    Internal,
}

/// A failed operation on one replica.
#[derive(Debug)]
pub struct TransportError {
    /// Replica zone where the operation failed.
    pub zone: usize,
    /// Stable protocol-facing classification.
    pub code: TransportCode,
    /// Provider diagnostic text; correctness never matches this string.
    pub message: String,
}

impl Clone for TransportError {
    fn clone(&self) -> (copy: Self)
        ensures
            copy == *self,
    {
        TransportError { zone: self.zone, code: self.code, message: self.message.clone() }
    }
}


/// One metadata field of an object.
#[derive(Clone, Debug)]
pub struct MetadataEntry {
    /// Name of the field.
    pub key: String,
    /// Value of the field.
    pub value: String,
}

/// What the service reports of an object.
#[derive(Clone, Debug)]
pub struct ObjectResource {
    /// Generation of the object.
    pub generation: i64,
    /// Metageneration of the object.
    pub metageneration: i64,
    /// Size in bytes; frozen once the object is finalized.
    pub size: i64,
    /// Whether the object is finalized.
    pub finalized: bool,
    /// CRC32C of the contents, where it is known.
    pub crc32c: Option<u32>,
    /// Metadata of the object.
    pub metadata: Vec<MetadataEntry>,
}

/// One copy of an object as observed.
#[derive(Clone, Debug)]
pub struct ReplicaSnapshot {
    /// Replica zone of the copy.
    pub zone: usize,
    /// Generation of the copy.
    pub generation: i64,
    /// Metageneration of the copy.
    pub metageneration: i64,
    /// Bytes known to be persisted.
    pub persisted_size: i64,
    /// Whether the copy is finalized.
    pub finalized: bool,
    /// CRC32C of the contents, where it is known.
    pub crc32c: Option<u32>,
    /// Metadata of the copy.
    pub metadata: Vec<MetadataEntry>,
    /// Contents of the copy, where they were read.
    pub bytes: Vec<u8>,
}

/// What an append session is known by.
#[derive(Clone, Debug)]
pub struct AppendToken {
    /// Replica zone of the session.
    pub zone: usize,
    /// Generation of the object, once it is known.
    pub generation: Option<i64>,
    /// Metageneration of the object, once it is known.
    pub metageneration: Option<i64>,
    /// Bytes that the service certified as persisted.
    pub persisted_size: i64,
    /// Handle by which the service knows the session.
    pub write_handle: Option<Vec<u8>>,
}

/// An object of a listing.
#[derive(Clone, Debug)]
pub struct ListedObject {
    /// Replica zone of the object.
    pub zone: usize,
    /// Name of the object.
    pub name: String,
    /// Generation of the object.
    pub generation: i64,
    /// Whether the object is finalized.
    pub finalized: bool,
    /// Metadata of the object.
    pub metadata: Vec<MetadataEntry>,
}

/// Progress of a lane beyond what was seen before.
#[derive(Clone, Debug)]
pub struct LaneDurableChange {
    /// Bytes durable now.
    pub persisted_size: i64,
    /// A failure of the stream that was observed together with the progress.
    pub error: Option<TransportError>,
}

/// The fields as pairs.
pub open spec fn metadata_pairs(metadata: Seq<MetadataEntry>) -> Set<(Seq<char>, Seq<char>)> {
    Set::new(
        |pair: (Seq<char>, Seq<char>)|
            exists|i: int|
                0 <= i < metadata.len() && (#[trigger] metadata[i]).key@ == pair.0
                    && metadata[i].value@ == pair.1,
    )
}

/// Whether a field with this name and value is among the metadata.
fn has_entry(metadata: &Vec<MetadataEntry>, entry: &MetadataEntry) -> (found: bool)
    ensures
        found == metadata_pairs(metadata@).contains((entry.key@, entry.value@)),
{
    let mut i: usize = 0;
    while i < metadata.len()
        invariant
            i <= metadata@.len(),
            forall|j: int|
                0 <= j < i ==> !((#[trigger] metadata@[j]).key@ == entry.key@
                    && metadata@[j].value@ == entry.value@),
        decreases metadata@.len() - i,
    {
        if metadata[i].key == entry.key && metadata[i].value == entry.value {
            return true;
        }
        i = i + 1;
    }
    false
}

/// Whether every field of `a` is among `b`.
fn subset(a: &Vec<MetadataEntry>, b: &Vec<MetadataEntry>) -> (included: bool)
    ensures
        included == metadata_pairs(a@).subset_of(metadata_pairs(b@)),
{
    let mut i: usize = 0;
    while i < a.len()
        invariant
            i <= a@.len(),
            forall|j: int|
                0 <= j < i ==> metadata_pairs(b@).contains(
                    ((#[trigger] a@[j]).key@, a@[j].value@),
                ),
        decreases a@.len() - i,
    {
        if !has_entry(b, &a[i]) {
            proof {
                let pair = (a@[i as int].key@, a@[i as int].value@);
                assert(metadata_pairs(a@).contains(pair));
            }
            return false;
        }
        i = i + 1;
    }
    true
}

/// Whether two objects carry the same metadata, in whatever order.
pub fn same_metadata(a: &Vec<MetadataEntry>, b: &Vec<MetadataEntry>) -> (same: bool)
    ensures
        same == (metadata_pairs(a@) == metadata_pairs(b@)),
{
    let same: bool = subset(a, b) && subset(b, a);
    proof {
        if same {
            assert(metadata_pairs(a@) =~= metadata_pairs(b@));
        }
    }
    same
}

/// A field with this name and value is among the metadata.
pub open spec fn carries(metadata: Seq<MetadataEntry>, key: Seq<char>, value: Seq<char>) -> bool {
    exists|i: int|
        0 <= i < metadata.len() && (#[trigger] metadata[i]).key@ == key && metadata[i].value@
            == value
}

/// Two objects carry the same metadata exactly if every field of each is also a
/// field of the other, name and value; the order does not matter.
pub proof fn law_same_metadata_has_the_same_fields(
    a: &Vec<MetadataEntry>,
    b: &Vec<MetadataEntry>,
    same: bool,
)
    requires
        call_ensures(same_metadata, (a, b), same),
    ensures
        same <==> (forall|i: int|
            0 <= i < a@.len() ==> carries(b@, (#[trigger] a@[i]).key@, a@[i].value@)) && (forall|
            i: int,
        |
            0 <= i < b@.len() ==> carries(a@, (#[trigger] b@[i]).key@, b@[i].value@)),
{
    let (x, y) = (metadata_pairs(a@), metadata_pairs(b@));
    assert forall|key: Seq<char>, value: Seq<char>|
        x.contains((key, value)) <==> #[trigger] carries(a@, key, value) by {}
    assert forall|key: Seq<char>, value: Seq<char>|
        y.contains((key, value)) <==> #[trigger] carries(b@, key, value) by {}
    assert forall|i: int| 0 <= i < a@.len() implies carries(
        a@,
        (#[trigger] a@[i]).key@,
        a@[i].value@,
    ) by {}
    assert forall|i: int| 0 <= i < b@.len() implies carries(
        b@,
        (#[trigger] b@[i]).key@,
        b@[i].value@,
    ) by {}
    if (forall|i: int| 0 <= i < a@.len() ==> carries(b@, (#[trigger] a@[i]).key@, a@[i].value@)) && (
    forall|i: int| 0 <= i < b@.len() ==> carries(a@, (#[trigger] b@[i]).key@, b@[i].value@)) {
        assert forall|pair: (Seq<char>, Seq<char>)| x.contains(pair) <==> y.contains(pair) by {
            if x.contains(pair) {
                let i = choose|i: int|
                    0 <= i < a@.len() && (#[trigger] a@[i]).key@ == pair.0 && a@[i].value@ == pair.1;
                assert(carries(b@, a@[i].key@, a@[i].value@));
            }
            if y.contains(pair) {
                let i = choose|i: int|
                    0 <= i < b@.len() && (#[trigger] b@[i]).key@ == pair.0 && b@[i].value@ == pair.1;
                assert(carries(a@, b@[i].key@, b@[i].value@));
            }
        }
        assert(x =~= y);
    }
}

} // verus!
