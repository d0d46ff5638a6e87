//! Framing of one log record: a four-byte length, then the payload.

use vstd::prelude::*;

verus! {

/// Bytes that the length prefix adds to a payload.
pub const FRAME_PREFIX_BYTES: usize = 4;

/// Largest payload whose encoded frame still has a 32-bit length.
pub const MAX_PAYLOAD_BYTES: usize = 4294967291;

/// Encoded length of a record with `payload_bytes` bytes of payload, or `None`
/// where the format cannot hold it.
pub fn encoded_len(payload_bytes: usize) -> (encoded: Option<usize>)
    ensures
        payload_bytes <= MAX_PAYLOAD_BYTES ==> encoded == Some(
            (payload_bytes + FRAME_PREFIX_BYTES) as usize,
        ) && payload_bytes + FRAME_PREFIX_BYTES <= u32::MAX,
        payload_bytes > MAX_PAYLOAD_BYTES ==> encoded is None,
{
    if payload_bytes > MAX_PAYLOAD_BYTES {
        None
    } else {
        Some(payload_bytes + FRAME_PREFIX_BYTES)
    }
}

/// A frame adds four bytes to its payload, and a payload is too large exactly if
/// its frame would not have a 32-bit length.
pub proof fn law_frames_add_four_bytes(payload_bytes: usize, encoded: Option<usize>)
    requires
        call_ensures(encoded_len, (payload_bytes,), encoded),
    ensures
        encoded is Some <==> payload_bytes + 4 <= u32::MAX,
        encoded is Some ==> encoded->Some_0 == payload_bytes + 4,
{
}

} // verus!
