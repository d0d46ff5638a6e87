//! Byte budget of the manifest's directory of sealed segments.

use vstd::prelude::*;

verus! {

/// Bytes that the directory of the default manifest store may take.
pub const GCS_MAX_DIRECTORY_BYTES: usize = 7168;

/// Bytes that are reserved for one more entry: an identifier, a base and a
/// checksum at their full widths.
pub const DIRECTORY_ENTRY_BYTES: usize = 62;

/// Whether a directory of so many bytes can take more entries.
pub open spec fn room_for(encoded: int, additional: int, limit: int) -> bool {
    encoded + additional * DIRECTORY_ENTRY_BYTES <= limit
}

/// Whether a directory of `encoded` bytes can take `additional` more entries
/// within `limit`.
pub fn directory_has_room_for(encoded: usize, additional: usize, limit: usize) -> (room: bool)
    ensures
        room == room_for(encoded as int, additional as int, limit as int),
{
    encoded <= limit && additional <= (limit - encoded) / DIRECTORY_ENTRY_BYTES
}

/// Whether the segment directory of the default manifest store, whose entries
/// take `encoded_segments`, can take `additional` more sealed entries.
pub fn gcs_segment_directory_has_room(encoded_segments: &str, additional: usize) -> (room: bool)
    ensures
        room == room_for(
            encoded_segments.len() as int,
            additional as int,
            GCS_MAX_DIRECTORY_BYTES as int,
        ),
{
    directory_has_room_for(encoded_segments.len(), additional, GCS_MAX_DIRECTORY_BYTES)
}

/// Room for some entries is room for fewer, and a shorter directory has at
/// least the room of a longer one: truncation never takes room away.
pub proof fn law_truncation_frees_room(
    encoded: int,
    shorter: int,
    additional: int,
    fewer: int,
    limit: int,
)
    requires
        0 <= shorter <= encoded,
        0 <= fewer <= additional,
        room_for(encoded, additional, limit),
    ensures
        room_for(shorter, fewer, limit),
{
}

/// A reservation is honored: where there is room for several entries, there is
/// room for the rest after one of at most the reserved size was added.
pub proof fn law_reserved_entry_fits(encoded: int, entry: int, additional: int, limit: int)
    requires
        0 <= entry <= DIRECTORY_ENTRY_BYTES,
        additional > 0,
        room_for(encoded, additional, limit),
    ensures
        encoded + entry <= limit,
        room_for(encoded + entry, additional - 1, limit),
{
}

/// A directory has room for more entries exactly if all of them, at their full
/// width of 62 bytes, still fit behind what it holds.
pub proof fn law_room_is_what_entries_need(
    encoded: usize,
    additional: usize,
    limit: usize,
    room: bool,
)
    requires
        call_ensures(directory_has_room_for, (encoded, additional, limit), room),
    ensures
        room <==> encoded + 62 * additional <= limit,
{
}

/// The directory of the default store is judged by its length against 7168
/// bytes.
pub proof fn law_default_store_has_seven_kibibytes(
    encoded_segments: &str,
    additional: usize,
    room: bool,
)
    requires
        call_ensures(gcs_segment_directory_has_room, (encoded_segments, additional), room),
    ensures
        room <==> encoded_segments.len() + 62 * additional <= 7168,
{
}

} // verus!
