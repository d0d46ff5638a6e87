//! Immutable archive objects: identity, integrity and catalog pages.

use crate::text;
use vstd::prelude::*;

verus! {

/// Most entries of one catalog page.
pub const FANOUT: usize = 32;

/// Most bytes of one serialized catalog page.
pub const MAX_PAGE_BYTES: u64 = 65536;

/// Greatest height of a catalog.
pub const MAX_HEIGHT: u32 = 16;

/// Most bytes of a serialized namespace, quotes included.
pub const MAX_NAMESPACE_BYTES: usize = 514;

/// Archive failures never authorize eviction of hot data.
#[derive(Debug)]
pub enum ArchiveError {
    /// An object referenced by a committed catalog is missing.
    NotFound(String),
    /// Retryable service failure, possibly after a successful write.
    Unavailable(String),
    /// Invalid bytes, catalog structure, or conflicting immutable content.
    Corrupt(String),
    /// A terminal configuration, authentication, or backend failure.
    Backend(String),
}

/// Automatic hot placement policy; archived history is retained indefinitely.
#[derive(Clone, Copy, Debug, PartialEq, Eq, Structural)]
pub struct ArchivePolicy {
    /// Target hot sealed count.
    pub keep_sealed_segments: usize,
}

/// Stable, namespace-relative immutable object identity and integrity metadata.
#[derive(Debug)]
pub struct ArchiveObjectRef {
    /// Object key relative to the store's namespace.
    pub key: String,
    /// Exact complete-object byte length.
    pub byte_len: u64,
    /// SHA-256 of the complete immutable object.
    pub sha256: [u8; 32],
}

impl Clone for ArchiveObjectRef {
    fn clone(&self) -> (copy: Self)
        ensures
            copy == *self,
    {
        ArchiveObjectRef { key: self.key.clone(), byte_len: self.byte_len, sha256: self.sha256 }
    }
}

/// The SHA-256 digest of a byte string.
pub uninterp spec fn sha256_of(bytes: Seq<u8>) -> Seq<u8>;

/// `sha2::Sha256::digest`: the SHA-256 digest of `bytes`, a function of the
/// bytes alone.
#[verifier::external_body]
fn sha256(bytes: &[u8]) -> (digest: [u8; 32])
    ensures
        digest@ == sha256_of(bytes@),
{
    <sha2::Sha256 as sha2::Digest>::digest(bytes).into()
}

/// Most bytes that a digest can be taken of: their bits are counted in a `u64`.
pub const MAX_DIGEST_BYTES: u64 = 0x1fff_ffff_ffff_ffff;

/// A digest that is taken of bytes as they come, by `sha2::Sha256`.
#[verifier::external_body]
pub struct RunningDigest {
    hasher: sha2::Sha256,
}

/// The bytes that a running digest has taken in, in order.
pub uninterp spec fn taken_in(digest: RunningDigest) -> Seq<u8>;

/// `sha2::Sha256::new`: a hasher that has taken nothing in.
#[verifier::external_body]
pub(crate) fn begin_digest() -> (digest: RunningDigest)
    ensures
        taken_in(digest).len() == 0,
{
    RunningDigest { hasher: sha2::Digest::new() }
}

/// `sha2::Sha256::update`: takes the bytes in behind those before.
#[verifier::external_body]
pub(crate) fn continue_digest(digest: &mut RunningDigest, bytes: &[u8])
    requires
        taken_in(*old(digest)).len() + bytes@.len() <= MAX_DIGEST_BYTES,
    ensures
        taken_in(*final(digest)) == taken_in(*old(digest)) + bytes@,
{
    sha2::Digest::update(&mut digest.hasher, bytes)
}

/// `sha2::Sha256::finalize`: the digest of all bytes that were taken in, which
/// is what `Sha256::digest` gives for them at once.
#[verifier::external_body]
pub(crate) fn end_digest(digest: RunningDigest) -> (sha256: [u8; 32])
    requires
        taken_in(digest).len() <= MAX_DIGEST_BYTES,
    ensures
        sha256@ == sha256_of(taken_in(digest)),
{
    sha2::Digest::finalize(digest.hasher).into()
}

/// Whether two digests are equal.
pub(crate) fn same_digest(a: &[u8; 32], b: &[u8; 32]) -> (same: bool)
    ensures
        same == (a@ == b@),
{
    let mut i: usize = 0;
    while i < 32
        invariant
            i <= 32,
            forall|j: int| 0 <= j < i ==> a@[j] == b@[j],
        decreases 32 - i,
    {
        if a[i] != b[i] {
            return false;
        }
        i = i + 1;
    }
    assert(a@ =~= b@);
    true
}

impl ArchiveObjectRef {
    /// The identity of an object with these facts: its key is the kind, a
    /// slash and the hexadecimal digest.
    pub fn for_digest(kind: &str, byte_len: u64, sha256: [u8; 32]) -> (object: Self)
        ensures
            object.key@ == kind@ + "/"@ + text::hex(sha256@),
            object.byte_len == byte_len,
            object.sha256 == sha256,
    {
        let hash = text::to_hex(&sha256);
        let key = kind.to_owned().concat("/").concat(hash.as_str());
        ArchiveObjectRef { key, byte_len, sha256 }
    }

    /// The identity of an object with these contents.
    pub fn for_bytes(kind: &str, bytes: &[u8]) -> (object: Self)
        ensures
            object.key@ == kind@ + "/"@ + text::hex(sha256_of(bytes@)),
            object.byte_len == bytes@.len(),
            object.sha256@ == sha256_of(bytes@),
    {
        ArchiveObjectRef::for_digest(kind, bytes.len() as u64, sha256(bytes))
    }

    /// Accepts exactly contents of this length and digest.
    pub fn verify_digest(&self, byte_len: u64, sha256: &[u8; 32]) -> (result: Result<
        (),
        ArchiveError,
    >)
        ensures
            if self.byte_len == byte_len && self.sha256@ == sha256@ {
                result is Ok
            } else {
                result matches Err(ArchiveError::Corrupt(key)) && key == self.key
            },
    {
        if self.byte_len != byte_len || !same_digest(&self.sha256, sha256) {
            return Err(ArchiveError::Corrupt(self.key.clone()));
        }
        Ok(())
    }

    /// Whether these are the contents that the reference stands for.
    pub open spec fn matches_bytes(self, bytes: Seq<u8>) -> bool {
        self.byte_len == bytes.len() && self.sha256@ == sha256_of(bytes)
    }

    /// Accepts exactly the referenced contents, by length and digest.
    pub fn verify(&self, bytes: &[u8]) -> (result: Result<(), ArchiveError>)
        ensures
            if self.matches_bytes(bytes@) {
                result is Ok
            } else {
                result matches Err(ArchiveError::Corrupt(key)) && key == self.key
            },
    {
        let digest = sha256(bytes);
        self.verify_digest(bytes.len() as u64, &digest)
    }
}

/// A reference made for some bytes accepts those bytes, and accepts others
/// only if they agree in length and digest.
pub proof fn law_reference_accepts_its_bytes(object: ArchiveObjectRef, bytes: Seq<u8>, other: Seq<u8>)
    requires
        object.byte_len == bytes.len(),
        object.sha256@ == sha256_of(bytes),
    ensures
        object.matches_bytes(bytes),
        object.matches_bytes(other) <==> other.len() == bytes.len() && sha256_of(other)
            == sha256_of(bytes),
{
}

/// A character as it stands in a JSON string: quotes, backslashes and control
/// characters are escaped.
pub open spec fn json_escaped(c: char) -> Seq<char> {
    if c == '"' || c == '\\' {
        seq!['\\', c]
    } else if c == '\u{8}' {
        seq!['\\', 'b']
    } else if c == '\t' {
        seq!['\\', 't']
    } else if c == '\n' {
        seq!['\\', 'n']
    } else if c == '\u{c}' {
        seq!['\\', 'f']
    } else if c == '\r' {
        seq!['\\', 'r']
    } else if c as nat <= 31 {
        seq![
            '\\',
            'u',
            '0',
            '0',
            text::digit_char(c as nat / 16),
            text::digit_char(c as nat % 16),
        ]
    } else {
        seq![c]
    }
}

/// The escaped characters, one after the other.
pub open spec fn json_contents(chars: Seq<char>) -> Seq<char>
    decreases chars.len(),
{
    if chars.len() == 0 {
        Seq::empty()
    } else {
        json_contents(chars.drop_last()) + json_escaped(chars.last())
    }
}

/// The JSON text of a string.
pub open spec fn json_string(chars: Seq<char>) -> Seq<char> {
    seq!['"'] + json_contents(chars) + seq!['"']
}

/// Bytes of the JSON text of a string in UTF-8.
pub open spec fn json_string_bytes(chars: Seq<char>) -> nat {
    vstd::utf8::encode_utf8(json_string(chars)).len()
}

/// `serde_json::to_string` of a string, which never fails: the characters in
/// quotes, with quotes, backslashes and control characters escaped.
#[verifier::external_body]
fn json_text(text: &str) -> (json: Option<String>)
    ensures
        json is Some,
        json->Some_0@ == json_string(text@),
{
    serde_json::to_string(text).ok()
}

/// Whether a namespace can be persisted in the manifest. Control characters can
/// expand sixfold, so the serialized form is what counts.
pub fn valid_namespace(namespace: &str) -> (valid: bool)
    ensures
        valid == (namespace@.len() > 0 && json_string_bytes(namespace@) <= MAX_NAMESPACE_BYTES),
{
    match json_text(namespace) {
        Some(json) => !namespace.is_empty() && json.as_str().as_bytes().len()
            <= MAX_NAMESPACE_BYTES,
        None => false,
    }
}

/// Bytes of an object read so far.
pub struct ReadBuffer {
    /// Chunks received, in order.
    pub bytes: Vec<u8>,
}

impl ReadBuffer {
    /// Nothing read yet.
    pub fn new() -> (buffer: Self)
        ensures
            buffer.bytes@ == Seq::<u8>::empty(),
    {
        ReadBuffer { bytes: Vec::new() }
    }

    /// Takes one more chunk, unless the object would exceed its length.
    pub fn accept(&mut self, object: &ArchiveObjectRef, chunk: &[u8]) -> (result: Result<
        (),
        ArchiveError,
    >)
        ensures
            if old(self).bytes@.len() + chunk@.len() > object.byte_len {
                &&& result matches Err(ArchiveError::Corrupt(key)) && key == object.key
                &&& *final(self) == *old(self)
            } else {
                &&& result is Ok
                &&& final(self).bytes@ == old(self).bytes@ + chunk@
            },
    {
        let held: u64 = self.bytes.len() as u64;
        if held > object.byte_len || chunk.len() as u64 > object.byte_len - held {
            return Err(ArchiveError::Corrupt(object.key.clone()));
        }
        self.bytes.extend_from_slice(chunk);
        proof {
            assert(self.bytes@ =~= old(self).bytes@ + chunk@);
        }
        Ok(())
    }

    /// The complete object, verified.
    pub fn finish(self, object: &ArchiveObjectRef) -> (result: Result<Vec<u8>, ArchiveError>)
        ensures
            if object.matches_bytes(self.bytes@) {
                result matches Ok(bytes) && bytes == self.bytes
            } else {
                result matches Err(ArchiveError::Corrupt(key)) && key == object.key
            },
    {
        match object.verify(self.bytes.as_slice()) {
            Ok(()) => Ok(self.bytes),
            Err(error) => Err(error),
        }
    }
}

/// The reference of some bytes accepts those bytes, and any others only if they
/// agree in length and digest. Its key is the kind, a slash and the digest in
/// hexadecimal.
pub proof fn law_references_identify_their_bytes(
    kind: &str,
    bytes: &[u8],
    object: ArchiveObjectRef,
    same: Result<(), ArchiveError>,
    other: &[u8],
    verified: Result<(), ArchiveError>,
)
    requires
        call_ensures(ArchiveObjectRef::for_bytes, (kind, bytes), object),
        call_ensures(ArchiveObjectRef::verify, (&object, bytes), same),
        call_ensures(ArchiveObjectRef::verify, (&object, other), verified),
    ensures
        object.byte_len == bytes@.len(),
        object.sha256@ == sha256_of(bytes@),
        object.key@ == kind@ + "/"@ + text::hex(sha256_of(bytes@)),
        same is Ok,
        verified is Ok <==> other@.len() == bytes@.len() && sha256_of(other@) == sha256_of(bytes@),
        verified is Err ==> verified->Err_0 == ArchiveError::Corrupt(object.key),
{
}

/// A reference keeps the facts that it was made of, and accepts exactly them.
pub proof fn law_references_keep_their_facts(
    kind: &str,
    byte_len: u64,
    sha256: [u8; 32],
    object: ArchiveObjectRef,
    other_len: u64,
    other: &[u8; 32],
    verified: Result<(), ArchiveError>,
)
    requires
        call_ensures(ArchiveObjectRef::for_digest, (kind, byte_len, sha256), object),
        call_ensures(ArchiveObjectRef::verify_digest, (&object, other_len, other), verified),
    ensures
        object.byte_len == byte_len,
        object.sha256@ == sha256@,
        object.key@ == kind@ + "/"@ + text::hex(sha256@),
        verified is Ok <==> other_len == byte_len && other@ == sha256@,
        verified is Err ==> verified->Err_0 == ArchiveError::Corrupt(object.key),
{
}

/// An object is read chunk by chunk up to its length and not beyond, and comes
/// out exactly if the bytes are the referenced ones.
pub proof fn law_objects_are_read_whole(
    fresh: ReadBuffer,
    buffer: &mut ReadBuffer,
    object: &ArchiveObjectRef,
    chunk: &[u8],
    accepted: Result<(), ArchiveError>,
    finished: Result<Vec<u8>, ArchiveError>,
)
    requires
        call_ensures(ReadBuffer::new, (), fresh),
        call_ensures(ReadBuffer::accept, (buffer, object, chunk), accepted),
        call_ensures(ReadBuffer::finish, (*final(buffer), object), finished),
    ensures
        fresh.bytes@.len() == 0,
        accepted is Ok <==> old(buffer).bytes@.len() + chunk@.len() <= object.byte_len,
        accepted is Ok ==> final(buffer).bytes@ == old(buffer).bytes@ + chunk@,
        accepted is Err ==> final(buffer).bytes@ == old(buffer).bytes@ && accepted->Err_0
            == ArchiveError::Corrupt(object.key),
        finished is Ok <==> final(buffer).bytes@.len() == object.byte_len && sha256_of(
            final(buffer).bytes@,
        ) == object.sha256@,
        finished is Ok ==> finished->Ok_0@ == final(buffer).bytes@,
        finished is Err ==> finished->Err_0 == ArchiveError::Corrupt(object.key),
{
}

/// A printable ASCII character that stands for itself in a JSON string.
pub open spec fn plain(c: char) -> bool {
    ' ' <= c && c <= '~' && c != '"' && c != '\\'
}

proof fn lemma_plain_contents(chars: Seq<char>)
    requires
        forall|i: int| 0 <= i < chars.len() ==> plain(#[trigger] chars[i]),
    ensures
        json_contents(chars) == chars,
    decreases chars.len(),
{
    if chars.len() > 0 {
        let rest = chars.drop_last();
        assert forall|i: int| 0 <= i < rest.len() implies plain(#[trigger] rest[i]) by {
            assert(rest[i] == chars[i]);
        }
        lemma_plain_contents(rest);
        let c = chars[chars.len() - 1];
        assert(plain(c));
        assert(json_escaped(c) =~= seq![c]);
        assert(rest + seq![c] =~= chars);
    } else {
        assert(json_contents(chars) =~= chars);
    }
}

/// A namespace of printable ASCII characters that need no escape is accepted
/// exactly if it has between one and 512 of them.
pub proof fn law_plain_namespaces_have_512_characters(namespace: &str, valid: bool)
    requires
        call_ensures(valid_namespace, (namespace,), valid),
        forall|i: int| 0 <= i < namespace@.len() ==> plain(#[trigger] namespace@[i]),
    ensures
        valid <==> 1 <= namespace@.len() <= 512,
{
    lemma_plain_contents(namespace@);
    let text = json_string(namespace@);
    assert(text.len() == namespace@.len() + 2);
    assert(vstd::utf8::is_ascii_chars(text)) by {
        assert forall|i: int| 0 <= i < text.len() implies '\0' <= #[trigger] text[i]
            <= '\u{7f}' by {
            if 0 < i && i < text.len() - 1 {
                assert(text[i] == namespace@[i - 1]);
                assert(plain(namespace@[i - 1]));
            } else {
                assert(text[i] == '"');
            }
        }
    }
    vstd::utf8::is_ascii_chars_encode_utf8(text);
}

} // verus!
