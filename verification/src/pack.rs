//! Packing record chunks into wire messages for replica lanes.

use crate::transport::{TransportCode, TransportError};
use vstd::prelude::*;

verus! {

/// Target wire-message size for packed appends: large enough to amortize
/// per-message overhead, far below the service's inbound message cap.
pub const WIRE_MESSAGE_TARGET_BYTES: usize = 262144;

/// The CRC32C checksum of a byte string.
pub uninterp spec fn crc32c_of(bytes: Seq<u8>) -> u32;

/// `crc32c::crc32c`: the CRC32C checksum of `bytes`, a function of the bytes
/// alone.
#[verifier::external_body]
pub(crate) fn checksum(bytes: &[u8]) -> (crc: u32)
    ensures
        crc == crc32c_of(bytes@),
{
    crc32c::crc32c(bytes)
}

/// One wire message of a packed append.
pub struct PackedAppendMessage {
    /// Offset of the message from the start of the append.
    pub relative_offset: i64,
    /// CRC32C of the message.
    pub crc32c: u32,
    /// Bytes of the message.
    pub content: Vec<u8>,
}

/// Chunks packed once for every replica lane.
pub struct PackedAppend {
    /// The chunks as given.
    pub chunks: Vec<Vec<u8>>,
    /// The wire messages.
    pub messages: Vec<PackedAppendMessage>,
    /// Bytes of all chunks together.
    pub total_len: usize,
}

/// One continuation message of an append session.
#[derive(Clone, Copy, Debug, PartialEq, Eq, Structural)]
pub struct LaneMessage {
    /// Which packed message it carries.
    pub index: usize,
    /// Offset of the message in the object.
    pub write_offset: i64,
    /// CRC32C of the message.
    pub crc32c: u32,
    /// Whether the service must flush, and report the persisted size.
    pub flush: bool,
}

/// The contents of the chunks.
pub open spec fn contents(chunks: Seq<Vec<u8>>) -> Seq<Seq<u8>> {
    Seq::new(chunks.len(), |i: int| chunks[i]@)
}

/// All parts in one byte string.
pub open spec fn concat(parts: Seq<Seq<u8>>) -> Seq<u8>
    decreases parts.len(),
{
    if parts.len() == 0 {
        Seq::empty()
    } else {
        concat(parts.drop_last()) + parts.last()
    }
}

/// Packed messages and the open one after them.
pub struct Packing {
    /// Messages that are complete.
    pub done: Seq<Seq<u8>>,
    /// The message still being filled.
    pub open: Seq<u8>,
}

/// Chunks are packed in order. A chunk joins the open message unless that
/// message is not empty and would exceed the target with it.
pub open spec fn packing(chunks: Seq<Seq<u8>>) -> Packing
    decreases chunks.len(),
{
    if chunks.len() == 0 {
        Packing { done: Seq::empty(), open: Seq::empty() }
    } else {
        let before = packing(chunks.drop_last());
        let chunk = chunks.last();
        if before.open.len() > 0 && before.open.len() + chunk.len() > WIRE_MESSAGE_TARGET_BYTES {
            Packing { done: before.done.push(before.open), open: chunk }
        } else {
            Packing { done: before.done, open: before.open + chunk }
        }
    }
}

/// The messages that the chunks are packed into.
pub open spec fn packed(chunks: Seq<Seq<u8>>) -> Seq<Seq<u8>> {
    let end = packing(chunks);
    if end.open.len() > 0 {
        end.done.push(end.open)
    } else {
        end.done
    }
}

/// Messages with these contents, each at its offset and with its checksum.
pub open spec fn are_messages(messages: Seq<PackedAppendMessage>, parts: Seq<Seq<u8>>) -> bool {
    &&& messages.len() == parts.len()
    &&& forall|i: int|
        0 <= i < messages.len() ==> {
            &&& (#[trigger] messages[i]).content@ == parts[i]
            &&& messages[i].crc32c == crc32c_of(parts[i])
            &&& messages[i].relative_offset == concat(parts.take(i)).len()
        }
}

pub proof fn lemma_concat_push(parts: Seq<Seq<u8>>, part: Seq<u8>)
    ensures
        concat(parts.push(part)) == concat(parts) + part,
{
    assert(parts.push(part).drop_last() =~= parts);
}

/// Packing loses, repeats and reorders nothing: the messages together are the
/// chunks together.
pub proof fn law_messages_carry_the_chunks(chunks: Seq<Seq<u8>>)
    ensures
        concat(packed(chunks)) == concat(chunks),
{
    lemma_packing_carries(chunks);
    let end = packing(chunks);
    lemma_concat_push(end.done, end.open);
    if end.open.len() == 0 {
        assert(concat(end.done) + end.open =~= concat(end.done));
    }
}

pub proof fn lemma_packing_carries(chunks: Seq<Seq<u8>>)
    ensures
        concat(packing(chunks).done) + packing(chunks).open == concat(chunks),
    decreases chunks.len(),
{
    if chunks.len() == 0 {
        assert(concat(packing(chunks).done) + packing(chunks).open =~= Seq::<u8>::empty());
    } else {
        lemma_packing_carries(chunks.drop_last());
        let before = packing(chunks.drop_last());
        let chunk = chunks.last();
        lemma_concat_push(before.done, before.open);
        assert(concat(before.done) + (before.open + chunk) =~= (concat(before.done) + before.open)
            + chunk);
    }
}

/// No message is empty, and one exceeds the target size only to carry a chunk
/// that does.
pub proof fn law_messages_stay_near_the_target(chunks: Seq<Seq<u8>>, limit: nat, i: int)
    requires
        limit >= WIRE_MESSAGE_TARGET_BYTES,
        forall|k: int| 0 <= k < chunks.len() ==> (#[trigger] chunks[k]).len() <= limit,
        0 <= i < packed(chunks).len(),
    ensures
        0 < packed(chunks)[i].len() <= limit,
{
    lemma_packing_sizes(chunks, limit);
    let end = packing(chunks);
    if i < end.done.len() {
        assert(packed(chunks)[i] == end.done[i]);
    }
}

proof fn lemma_packing_sizes(chunks: Seq<Seq<u8>>, limit: nat)
    requires
        limit >= WIRE_MESSAGE_TARGET_BYTES,
        forall|k: int| 0 <= k < chunks.len() ==> (#[trigger] chunks[k]).len() <= limit,
    ensures
        packing(chunks).open.len() <= limit,
        forall|i: int|
            0 <= i < packing(chunks).done.len() ==> 0 < (#[trigger] packing(chunks).done[i]).len()
                <= limit,
    decreases chunks.len(),
{
    if chunks.len() > 0 {
        assert forall|k: int| 0 <= k < chunks.drop_last().len() implies (
        #[trigger] chunks.drop_last()[k]).len() <= limit by {
            assert(chunks.drop_last()[k] == chunks[k]);
        }
        lemma_packing_sizes(chunks.drop_last(), limit);
        assert(chunks[chunks.len() - 1].len() <= limit);
        let before = packing(chunks.drop_last());
        let after = packing(chunks);
        assert forall|i: int| 0 <= i < after.done.len() implies 0 < (#[trigger] after.done[i]).len()
            <= limit by {
            if i < before.done.len() {
                assert(after.done[i] == before.done[i]);
            }
        }
    }
}

proof fn lemma_packing_len(chunks: Seq<Seq<u8>>, n: int)
    requires
        0 <= n <= chunks.len(),
    ensures
        concat(packing(chunks.take(n)).done).len() + packing(chunks.take(n)).open.len()
            == concat(chunks.take(n)).len(),
        concat(chunks.take(n)).len() <= concat(chunks).len(),
    decreases chunks.len() - n,
{
    lemma_packing_carries(chunks.take(n));
    if n < chunks.len() {
        lemma_packing_len(chunks, n + 1);
        assert(chunks.take(n + 1).drop_last() =~= chunks.take(n));
    } else {
        assert(chunks.take(n) =~= chunks);
    }
}

/// Packs chunks into wire messages with their offsets and checksums.
///
/// The chunks together must be addressable, and so must the offsets.
pub fn pack_append(chunks: Vec<Vec<u8>>) -> (append: PackedAppend)
    requires
        concat(contents(chunks@)).len() <= usize::MAX,
        concat(contents(chunks@)).len() <= i64::MAX,
    ensures
        append.chunks == chunks,
        append.total_len == concat(contents(chunks@)).len(),
        are_messages(append.messages@, packed(contents(chunks@))),
{
    let ghost parts = contents(chunks@);
    let mut total_len: usize = 0;
    let mut open: Vec<u8> = Vec::new();
    let mut messages: Vec<PackedAppendMessage> = Vec::new();
    let mut relative_offset: i64 = 0;
    let mut i: usize = 0;
    proof {
        assert(parts.take(0) =~= Seq::<Seq<u8>>::empty());
    }
    while i < chunks.len()
        invariant
            i <= chunks@.len(),
            parts == contents(chunks@),
            concat(parts).len() <= usize::MAX,
            concat(parts).len() <= i64::MAX,
            total_len == concat(parts.take(i as int)).len(),
            open@ == packing(parts.take(i as int)).open,
            are_messages(messages@, packing(parts.take(i as int)).done),
            relative_offset == concat(packing(parts.take(i as int)).done).len(),
        decreases chunks@.len() - i,
    {
        let chunk = &chunks[i];
        let ghost before = packing(parts.take(i as int));
        proof {
            lemma_packing_len(parts, i as int);
            lemma_packing_len(parts, i + 1);
            assert(parts.take(i + 1).drop_last() =~= parts.take(i as int));
            assert(parts.take(i + 1).last() == chunk@);
        }
        if open.len() > 0 && open.len() + chunk.len() > WIRE_MESSAGE_TARGET_BYTES {
            let len: i64 = open.len() as i64;
            let crc32c: u32 = checksum(open.as_slice());
            let mut content: Vec<u8> = Vec::new();
            std::mem::swap(&mut content, &mut open);
            let ghost sent = messages@;
            messages.push(PackedAppendMessage { relative_offset, crc32c, content });
            proof {
                lemma_concat_push(before.done, before.open);
                assert forall|k: int| 0 <= k < messages@.len() implies {
                    &&& (#[trigger] messages@[k]).content@ == before.done.push(before.open)[k]
                    &&& messages@[k].crc32c == crc32c_of(before.done.push(before.open)[k])
                    &&& messages@[k].relative_offset == concat(
                        before.done.push(before.open).take(k),
                    ).len()
                } by {
                    assert(before.done.push(before.open).take(k) =~= before.done.take(k));
                    if k < sent.len() {
                        assert(messages@[k] == sent[k]);
                    } else {
                        assert(before.done.take(k) =~= before.done);
                    }
                }
            }
            relative_offset = relative_offset + len;
        }
        total_len = total_len + chunk.len();
        open.extend_from_slice(chunk.as_slice());
        proof {
            assert(open@ =~= packing(parts.take(i + 1)).open);
        }
        i = i + 1;
    }
    proof {
        assert(parts.take(parts.len() as int) =~= parts);
    }
    let ghost end = packing(parts);
    if open.len() > 0 {
        let crc32c: u32 = checksum(open.as_slice());
        let ghost sent = messages@;
        messages.push(PackedAppendMessage { relative_offset, crc32c, content: open });
        proof {
            assert forall|k: int| 0 <= k < messages@.len() implies {
                &&& (#[trigger] messages@[k]).content@ == end.done.push(end.open)[k]
                &&& messages@[k].crc32c == crc32c_of(end.done.push(end.open)[k])
                &&& messages@[k].relative_offset == concat(end.done.push(end.open).take(k)).len()
            } by {
                assert(end.done.push(end.open).take(k) =~= end.done.take(k));
                if k < sent.len() {
                    assert(messages@[k] == sent[k]);
                } else {
                    assert(end.done.take(k) =~= end.done);
                }
            }
        }
    }
    PackedAppend { chunks, messages, total_len }
}

impl PackedAppend {
    /// Messages at their offsets, whose last byte still has an offset if the
    /// append starts at `write_offset`.
    pub open spec fn fits(self, write_offset: i64) -> bool {
        forall|i: int|
            0 <= i < self.messages@.len() ==> write_offset + (
            #[trigger] self.messages@[i]).relative_offset <= i64::MAX
                && self.messages@[i].relative_offset >= 0
    }

    /// The continuation messages that append this at `write_offset`: each at
    /// its place, and only the last one flushed. An empty append is refused,
    /// since a bare flush is no message.
    pub fn lane_messages(&self, zone: usize, write_offset: i64) -> (result: Result<
        Vec<LaneMessage>,
        TransportError,
    >)
        requires
            self.fits(write_offset),
        ensures
            if self.messages@.len() == 0 {
                result matches Err(error) && error.zone == zone && error.code
                    == TransportCode::Internal && error.message@
                    == "append lane cannot send an empty flush group"@
            } else {
                result matches Ok(lane) && lane@ == Seq::new(
                    self.messages@.len(),
                    |i: int|
                        LaneMessage {
                            index: i as usize,
                            write_offset: (write_offset
                                + self.messages@[i].relative_offset) as i64,
                            crc32c: self.messages@[i].crc32c,
                            flush: i == self.messages@.len() - 1,
                        },
                )
            },
    {
        if self.messages.len() == 0 {
            return Err(
                TransportError {
                    zone,
                    code: TransportCode::Internal,
                    message: "append lane cannot send an empty flush group".to_owned(),
                },
            );
        }
        let last_index: usize = self.messages.len() - 1;
        let mut lane: Vec<LaneMessage> = Vec::new();
        let mut index: usize = 0;
        let ghost full = Seq::new(
            self.messages@.len(),
            |i: int|
                LaneMessage {
                    index: i as usize,
                    write_offset: (write_offset + self.messages@[i].relative_offset) as i64,
                    crc32c: self.messages@[i].crc32c,
                    flush: i == self.messages@.len() - 1,
                },
        );
        while index < self.messages.len()
            invariant
                index <= self.messages@.len(),
                last_index == self.messages@.len() - 1,
                self.fits(write_offset),
                full == Seq::new(
                    self.messages@.len(),
                    |i: int|
                        LaneMessage {
                            index: i as usize,
                            write_offset: (write_offset
                                + self.messages@[i].relative_offset) as i64,
                            crc32c: self.messages@[i].crc32c,
                            flush: i == self.messages@.len() - 1,
                        },
                ),
                lane@ == full.take(index as int),
            decreases self.messages@.len() - index,
        {
            let message = &self.messages[index];
            assert(write_offset + self.messages@[index as int].relative_offset <= i64::MAX);
            lane.push(
                LaneMessage {
                    index,
                    write_offset: write_offset + message.relative_offset,
                    crc32c: message.crc32c,
                    flush: index == last_index,
                },
            );
            proof {
                assert(lane@ =~= full.take(index + 1));
            }
            index = index + 1;
        }
        proof {
            assert(full.take(self.messages@.len() as int) =~= full);
        }
        Ok(lane)
    }
}

/// An append packed from chunks that ends within the range of offsets can be
/// sent at that offset.
pub proof fn law_packed_append_fits(append: PackedAppend, chunks: Seq<Seq<u8>>, write_offset: i64)
    requires
        are_messages(append.messages@, packed(chunks)),
        write_offset + concat(chunks).len() <= i64::MAX,
    ensures
        append.fits(write_offset),
        append.messages@.len() == 0 <==> concat(chunks).len() == 0,
{
    law_messages_carry_the_chunks(chunks);
    let parts = packed(chunks);
    assert forall|i: int| 0 <= i < append.messages@.len() implies write_offset + (
    #[trigger] append.messages@[i]).relative_offset <= i64::MAX
        && append.messages@[i].relative_offset >= 0 by {
        lemma_prefix_len(parts, i);
    }
    lemma_packing_sizes_positive(chunks);
    if parts.len() > 0 {
        lemma_prefix_len(parts, parts.len() - 1);
        assert(parts.take(parts.len() as int) =~= parts);
        assert(parts.drop_last() =~= parts.take(parts.len() - 1));
    }
}

proof fn lemma_prefix_len(parts: Seq<Seq<u8>>, i: int)
    requires
        0 <= i <= parts.len(),
    ensures
        concat(parts.take(i)).len() <= concat(parts).len(),
    decreases parts.len() - i,
{
    if i < parts.len() {
        lemma_prefix_len(parts, i + 1);
        assert(parts.take(i + 1).drop_last() =~= parts.take(i));
    } else {
        assert(parts.take(i) =~= parts);
    }
}

proof fn lemma_packing_sizes_positive(chunks: Seq<Seq<u8>>)
    ensures
        forall|i: int|
            0 <= i < packing(chunks).done.len() ==> (#[trigger] packing(chunks).done[i]).len() > 0,
        forall|i: int| 0 <= i < packed(chunks).len() ==> (#[trigger] packed(chunks)[i]).len() > 0,
    decreases chunks.len(),
{
    if chunks.len() > 0 {
        lemma_packing_sizes_positive(chunks.drop_last());
        let before = packing(chunks.drop_last());
        let after = packing(chunks);
        assert forall|i: int| 0 <= i < after.done.len() implies (#[trigger] after.done[i]).len()
            > 0 by {
            if i < before.done.len() {
                assert(after.done[i] == before.done[i]);
            }
        }
    }
    let end = packing(chunks);
    assert forall|i: int| 0 <= i < packed(chunks).len() implies (#[trigger] packed(chunks)[i]).len()
        > 0 by {
        if i < end.done.len() {
            assert(packed(chunks)[i] == end.done[i]);
        }
    }
}

/// A piece of a longer byte string that fits one message.
#[derive(Clone, Copy, Debug, PartialEq, Eq, Structural)]
pub struct Piece {
    /// Where its bytes begin.
    pub start: usize,
    /// Where its bytes end.
    pub end: usize,
    /// CRC32C of its bytes.
    pub crc32c: u32,
}

/// Pieces of the target size, back to back, of which only the last may be
/// shorter.
pub open spec fn split_of(pieces: Seq<Piece>, data: Seq<u8>) -> bool {
    &&& pieces.len() == (data.len() + WIRE_MESSAGE_TARGET_BYTES - 1) / (
    WIRE_MESSAGE_TARGET_BYTES as int)
    &&& forall|i: int|
        0 <= i < pieces.len() ==> {
            let piece = #[trigger] pieces[i];
            &&& piece.start == i * WIRE_MESSAGE_TARGET_BYTES
            &&& piece.end == if (i + 1) * WIRE_MESSAGE_TARGET_BYTES < data.len() {
                (i + 1) * WIRE_MESSAGE_TARGET_BYTES
            } else {
                data.len() as int
            }
            &&& piece.crc32c == crc32c_of(data.subrange(piece.start as int, piece.end as int))
        }
}

/// Splits bytes into pieces that fit a message each; no bytes make no piece.
pub fn split(data: &[u8]) -> (pieces: Vec<Piece>)
    ensures
        split_of(pieces@, data@),
{
    let mut pieces: Vec<Piece> = Vec::new();
    let mut position: usize = 0;
    while position < data.len()
        invariant
            position <= data@.len(),
            position < data@.len() ==> position == pieces@.len() * WIRE_MESSAGE_TARGET_BYTES,
            forall|i: int|
                0 <= i < pieces@.len() ==> {
                    let piece = #[trigger] pieces@[i];
                    &&& piece.start == i * WIRE_MESSAGE_TARGET_BYTES
                    &&& piece.end == if (i + 1) * WIRE_MESSAGE_TARGET_BYTES < data@.len() {
                        (i + 1) * WIRE_MESSAGE_TARGET_BYTES
                    } else {
                        data@.len() as int
                    }
                    &&& piece.crc32c == crc32c_of(
                        data@.subrange(piece.start as int, piece.end as int),
                    )
                },
            pieces@.len() == (position + WIRE_MESSAGE_TARGET_BYTES - 1) / (
            WIRE_MESSAGE_TARGET_BYTES as int),
        decreases data@.len() - position,
    {
        let end: usize = if data.len() - position > WIRE_MESSAGE_TARGET_BYTES {
            position + WIRE_MESSAGE_TARGET_BYTES
        } else {
            data.len()
        };
        let bytes = vstd::slice::slice_subrange(data, position, end);
        pieces.push(Piece { start: position, end, crc32c: checksum(bytes) });
        position = end;
    }
    pieces
}

/// The bytes of pieces, one after the other.
pub open spec fn piece_bytes(pieces: Seq<Piece>, data: Seq<u8>) -> Seq<u8>
    decreases pieces.len(),
{
    if pieces.len() == 0 {
        Seq::empty()
    } else {
        piece_bytes(pieces.drop_last(), data) + data.subrange(
            pieces.last().start as int,
            pieces.last().end as int,
        )
    }
}

proof fn lemma_pieces_take(pieces: Seq<Piece>, data: Seq<u8>, k: int)
    requires
        split_of(pieces, data),
        0 <= k <= pieces.len(),
    ensures
        piece_bytes(pieces.take(k), data) == data.take(
            if k * WIRE_MESSAGE_TARGET_BYTES < data.len() {
                k * WIRE_MESSAGE_TARGET_BYTES
            } else {
                data.len() as int
            },
        ),
    decreases k,
{
    if k > 0 {
        lemma_pieces_take(pieces, data, k - 1);
        assert(pieces.take(k).drop_last() =~= pieces.take(k - 1));
        let piece = pieces[k - 1];
        assert(pieces.take(k).last() == piece);
        assert((k - 1) * WIRE_MESSAGE_TARGET_BYTES < data.len());
        assert(piece_bytes(pieces.take(k), data) =~= data.take(piece.end as int));
    } else {
        assert(piece_bytes(pieces.take(0), data) =~= data.take(0));
    }
}

/// Split bytes are put together again by sending the pieces one after the
/// other, and each piece fits a message.
pub proof fn law_pieces_carry_the_bytes(pieces: Seq<Piece>, data: Seq<u8>)
    requires
        split_of(pieces, data),
    ensures
        piece_bytes(pieces, data) == data,
        forall|i: int|
            0 <= i < pieces.len() ==> 0 < (#[trigger] pieces[i]).end - pieces[i].start
                <= WIRE_MESSAGE_TARGET_BYTES,
{
    lemma_pieces_take(pieces, data, pieces.len() as int);
    assert(pieces.take(pieces.len() as int) =~= pieces);
    assert(pieces.len() * WIRE_MESSAGE_TARGET_BYTES >= data.len());
    assert(data.take(data.len() as int) =~= data);
}

proof fn lemma_closed_message_is_full(chunks: Seq<Seq<u8>>)
    ensures
        packing(chunks).open.len() == 0 && packing(chunks).done.len() > 0
            ==> packing(chunks).done.last().len() > WIRE_MESSAGE_TARGET_BYTES,
    decreases chunks.len(),
{
    if chunks.len() > 0 {
        lemma_closed_message_is_full(chunks.drop_last());
    }
}

proof fn lemma_packed_push(chunks: Seq<Seq<u8>>, chunk: Seq<u8>)
    ensures
        ({
            let before = packed(chunks);
            packed(chunks.push(chunk)) == if chunk.len() == 0 {
                before
            } else if before.len() > 0 && before.last().len() + chunk.len()
                <= WIRE_MESSAGE_TARGET_BYTES {
                before.drop_last().push(before.last() + chunk)
            } else {
                before.push(chunk)
            }
        }),
{
    let before = packing(chunks);
    let messages = packed(chunks);
    assert(chunks.push(chunk).drop_last() =~= chunks);
    lemma_closed_message_is_full(chunks);
    lemma_packing_sizes_positive(chunks);
    if before.open.len() > 0 {
        assert(messages.drop_last() =~= before.done);
        assert(messages.last() == before.open);
        if chunk.len() == 0 {
            assert(before.open + chunk =~= before.open);
        }
    } else {
        assert(before.open + chunk =~= chunk);
    }
}

/// What every packed append is: its messages, one after the other, are its
/// chunks, one after the other; each begins where the one before it ends, from
/// nothing on, carries the checksum of its own bytes and is not empty.
pub proof fn law_packed_messages_follow_each_other(
    chunks: Vec<Vec<u8>>,
    append: PackedAppend,
    parts: Seq<Seq<u8>>,
)
    requires
        concat(contents(chunks@)).len() <= usize::MAX,
        concat(contents(chunks@)).len() <= i64::MAX,
        call_ensures(pack_append, (chunks,), append),
        parts == append.messages@.map_values(|message: PackedAppendMessage| message.content@),
    ensures
        parts.flatten() == chunks@.map_values(|chunk: Vec<u8>| chunk@).flatten(),
        append.total_len == chunks@.map_values(|chunk: Vec<u8>| chunk@).flatten().len(),
        append.chunks@ == chunks@,
        append.messages@.len() > 0 ==> append.messages@[0].relative_offset == 0,
        forall|i: int|
            0 <= i < append.messages@.len() ==> (#[trigger] append.messages@[i]).crc32c
                == crc32c_of(append.messages@[i].content@) && append.messages@[i].content@.len()
                > 0,
        forall|i: int, j: int|
            0 <= i && i + 1 == j && j < append.messages@.len() ==> (
            #[trigger] append.messages@[j]).relative_offset == (
            #[trigger] append.messages@[i]).relative_offset + append.messages@[i].content@.len(),
{
    let given = contents(chunks@);
    let sent = packed(given);
    assert(parts =~= sent);
    assert(chunks@.map_values(|chunk: Vec<u8>| chunk@) =~= given);
    law_messages_carry_the_chunks(given);
    lemma_concat_is_flatten(sent);
    lemma_concat_is_flatten(given);
    lemma_packing_sizes_positive(given);
    if sent.len() > 0 {
        assert(sent.take(0) =~= Seq::<Seq<u8>>::empty());
    }
    assert forall|i: int, j: int|
        0 <= i && i + 1 == j && j < append.messages@.len() implies (
    #[trigger] append.messages@[j]).relative_offset == (
    #[trigger] append.messages@[i]).relative_offset + append.messages@[i].content@.len() by {
        assert(sent.take(j) =~= sent.take(i).push(sent[i]));
        lemma_concat_push(sent.take(i), sent[i]);
    }
}

proof fn lemma_concat_is_flatten(parts: Seq<Seq<u8>>)
    ensures
        concat(parts) == parts.flatten(),
    decreases parts.len(),
{
    if parts.len() == 0 {
        assert(parts.flatten() =~= Seq::<u8>::empty());
    } else {
        lemma_concat_is_flatten(parts.drop_last());
        parts.lemma_flatten_and_flatten_alt_are_equivalent();
        parts.drop_last().lemma_flatten_and_flatten_alt_are_equivalent();
        assert(parts.flatten_alt() == parts.drop_last().flatten_alt() + parts.last());
    }
}

/// One chunk more joins the last message if both fit the target of a quarter
/// mebibyte, and begins a message of its own if they do not; the messages before
/// stay as they are. An empty chunk adds nothing.
pub proof fn law_chunks_join_while_they_fit(
    fewer: Vec<Vec<u8>>,
    before: PackedAppend,
    chunks: Vec<Vec<u8>>,
    after: PackedAppend,
    chunk: Vec<u8>,
)
    requires
        call_ensures(pack_append, (fewer,), before),
        call_ensures(pack_append, (chunks,), after),
        chunks@ == fewer@.push(chunk),
    ensures
        fewer@.len() == 0 ==> before.messages@.len() == 0,
        ({
            let n = before.messages@.len();
            let joins = n > 0 && before.messages@[n - 1].content@.len() + chunk@.len() <= 262144;
            &&& chunk@.len() == 0 ==> after.messages@.len() == n
            &&& chunk@.len() > 0 && joins ==> after.messages@.len() == n
                && after.messages@[n - 1].content@ == before.messages@[n - 1].content@ + chunk@
            &&& chunk@.len() > 0 && !joins ==> after.messages@.len() == n + 1
                && after.messages@[n as int].content@ == chunk@
            &&& forall|i: int|
                0 <= i < n && (i < n - 1 || chunk@.len() == 0 || !joins) ==> (
                #[trigger] after.messages@[i]).content@ == before.messages@[i].content@
        }),
{
    assert(contents(chunks@) =~= contents(fewer@).push(chunk@));
    lemma_packed_push(contents(fewer@), chunk@);
}

/// A lane sends every packed message once, in order, at its own place behind the
/// offset of the append and with its own checksum, and flushes exactly the last.
/// Only an empty append is refused.
pub proof fn law_lanes_send_every_message(
    append: &PackedAppend,
    zone: usize,
    write_offset: i64,
    result: Result<Vec<LaneMessage>, TransportError>,
)
    requires
        append.fits(write_offset),
        call_ensures(PackedAppend::lane_messages, (append, zone, write_offset), result),
        append.messages@.len() <= usize::MAX,
    ensures
        result is Err <==> append.messages@.len() == 0,
        result is Err ==> result->Err_0.code is Internal && result->Err_0.zone == zone,
        result is Ok ==> {
            &&& result->Ok_0@.len() == append.messages@.len()
            &&& forall|i: int|
                0 <= i < append.messages@.len() ==> {
                    let sent = #[trigger] result->Ok_0@[i];
                    &&& sent.index == i
                    &&& sent.write_offset == write_offset + append.messages@[i].relative_offset
                    &&& sent.crc32c == append.messages@[i].crc32c
                    &&& sent.flush <==> i + 1 == append.messages@.len()
                }
        },
{
}

/// Bytes are split into pieces of a quarter mebibyte, back to back from the
/// first byte to the last, of which only the last may be shorter and none is
/// empty; each carries the checksum of its bytes.
pub proof fn law_pieces_are_back_to_back(data: &[u8], pieces: Vec<Piece>)
    requires
        call_ensures(split, (data,), pieces),
    ensures
        pieces@.len() == 0 <==> data@.len() == 0,
        pieces@.len() > 0 ==> pieces@[0].start == 0 && pieces@.last().end == data@.len(),
        forall|i: int|
            0 <= i < pieces@.len() ==> {
                let piece = #[trigger] pieces@[i];
                &&& piece.start < piece.end <= piece.start + 262144
                &&& piece.crc32c == crc32c_of(
                    data@.subrange(piece.start as int, piece.end as int),
                )
                &&& i + 1 < pieces@.len() ==> piece.end == piece.start + 262144
            },
        forall|i: int, j: int|
            0 <= i && i + 1 == j && j < pieces@.len() ==> (#[trigger] pieces@[j]).start == (
            #[trigger] pieces@[i]).end,
{
    if pieces@.len() > 0 {
        assert(pieces@.last() == pieces@[pieces@.len() - 1]);
    }
}

} // verus!
