//! The requests by which an object is created, resumed, appended to and
//! finalized, as plain data.

use crate::pack;
use crate::pack::Piece;
use crate::status;
use crate::transport::{AppendToken, ReplicaSnapshot, TransportCode, TransportError};
use vstd::prelude::*;

verus! {

/// A handle as the bytes it consists of.
pub open spec fn handle_bytes(handle: Option<Vec<u8>>) -> Option<Seq<u8>> {
    match handle {
        Some(bytes) => Some(bytes@),
        None => None,
    }
}

fn copy_handle(handle: &Option<Vec<u8>>) -> (copy: Option<Vec<u8>>)
    ensures
        handle_bytes(copy) == handle_bytes(*handle),
{
    match handle {
        Some(bytes) => {
            let copy: Vec<u8> = bytes.clone();
            assert(copy@ =~= bytes@);
            Some(copy)
        },
        None => None,
    }
}

/// The first message of a write to an existing appendable object.
pub struct AppendOpen {
    /// Generation that is written to; zero leaves the choice to the service.
    pub generation: i64,
    /// Metageneration that the object must have.
    pub if_metageneration_match: Option<i64>,
    /// Session that is resumed. Without a handle the open takes the object
    /// over and fences the previous session.
    pub write_handle: Option<Vec<u8>>,
    /// Offset of the write.
    pub write_offset: i64,
    /// Whether the written bytes are flushed.
    pub flush: bool,
    /// Whether the durable tail is reported.
    pub state_lookup: bool,
    /// Whether the object is finalized.
    pub finish_write: bool,
}

/// The first message of a write that makes an object.
#[derive(Clone, Copy, Debug, PartialEq, Eq, Structural)]
pub struct CreateOpen {
    /// Generation that the object must have; zero if it must not exist.
    pub if_generation_match: i64,
    /// Metageneration that the object must have.
    pub if_metageneration_match: Option<i64>,
    /// Whether the object can be appended to.
    pub appendable: bool,
}

/// The open of an object's append session.
pub fn session_open_request(
    generation: i64,
    metageneration: i64,
    write_handle: &Option<Vec<u8>>,
    write_offset: i64,
) -> (open: AppendOpen)
    ensures
        open.generation == generation,
        open.if_metageneration_match == Some(metageneration),
        handle_bytes(open.write_handle) == handle_bytes(*write_handle),
        open.write_offset == write_offset,
        open.flush,
        open.state_lookup,
        !open.finish_write,
{
    AppendOpen {
        generation,
        if_metageneration_match: Some(metageneration),
        write_handle: copy_handle(write_handle),
        write_offset,
        flush: true,
        state_lookup: true,
        finish_write: false,
    }
}

/// The open that leaves the choice of the generation to the service.
pub fn current_session_open_request() -> (open: AppendOpen)
    ensures
        open == (AppendOpen {
            generation: 0,
            if_metageneration_match: None,
            write_handle: None,
            write_offset: 0,
            flush: true,
            state_lookup: true,
            finish_write: false,
        }),
{
    AppendOpen {
        generation: 0,
        if_metageneration_match: None,
        write_handle: None,
        write_offset: 0,
        flush: true,
        state_lookup: true,
        finish_write: false,
    }
}

/// The open that takes an observed object over.
pub fn takeover_request(observed: &ReplicaSnapshot) -> (open: AppendOpen)
    ensures
        open == (AppendOpen {
            generation: observed.generation,
            if_metageneration_match: Some(observed.metageneration),
            write_handle: None,
            write_offset: observed.persisted_size,
            flush: true,
            state_lookup: true,
            finish_write: false,
        }),
{
    session_open_request(
        observed.generation,
        observed.metageneration,
        &None,
        observed.persisted_size,
    )
}

/// The token of a session that was just created or opened on whatever
/// generation there is. Its identity is resolved when it is first needed.
pub fn opened_token(zone: usize, persisted_size: i64, write_handle: Option<Vec<u8>>) -> (token:
    AppendToken)
    ensures
        token == (AppendToken {
            zone,
            generation: None,
            metageneration: None,
            persisted_size,
            write_handle,
        }),
{
    AppendToken { zone, generation: None, metageneration: None, persisted_size, write_handle }
}

/// The token of a session that took an observed object over.
pub fn takeover_token(
    zone: usize,
    observed: &ReplicaSnapshot,
    persisted_size: i64,
    write_handle: Option<Vec<u8>>,
) -> (token: AppendToken)
    ensures
        token == (AppendToken {
            zone,
            generation: Some(observed.generation),
            metageneration: Some(observed.metageneration),
            persisted_size,
            write_handle,
        }),
{
    AppendToken {
        zone,
        generation: Some(observed.generation),
        metageneration: Some(observed.metageneration),
        persisted_size,
        write_handle,
    }
}

/// The messages of a one-shot write: the first one opens the stream.
pub struct OneShotMessages {
    /// The pieces of the data, one message each.
    pub pieces: Vec<Piece>,
}

/// Pieces of a one-shot write: those of the data, or an empty one if there is
/// no data.
pub open spec fn one_shot_of(pieces: Seq<Piece>, data: Seq<u8>) -> bool {
    if data.len() == 0 {
        pieces == seq![Piece { start: 0, end: 0, crc32c: pack::crc32c_of(data) }]
    } else {
        pack::split_of(pieces, data)
    }
}

/// Splits the data of a one-shot write into messages. Only the last one is
/// flushed and asks for the durable tail, so data of any length is accepted by
/// a service that bounds its messages.
pub fn one_shot_messages(data: &[u8]) -> (messages: OneShotMessages)
    ensures
        one_shot_of(messages.pieces@, data@),
        messages.pieces@.len() > 0,
{
    if data.len() == 0 {
        let mut pieces: Vec<Piece> = Vec::new();
        pieces.push(Piece { start: 0, end: 0, crc32c: pack::checksum(data) });
        return OneShotMessages { pieces };
    }
    OneShotMessages { pieces: pack::split(data) }
}

impl OneShotMessages {
    /// Whether a message is flushed.
    pub fn flushed(&self, index: usize) -> (flush: bool)
        requires
            index < self.pieces@.len(),
        ensures
            flush == (index + 1 == self.pieces@.len()),
    {
        index == self.pieces.len() - 1
    }
}

/// A one-shot append.
pub struct AppendOnce {
    /// The message that opens the stream.
    pub open: AppendOpen,
    /// The pieces of the data.
    pub messages: OneShotMessages,
    /// Bytes that have to be persisted at its end.
    pub expected: i64,
}

/// The one-shot append of `data` at `write_offset`. The token has to name the
/// generation.
pub fn append_request(zone: usize, token: &AppendToken, write_offset: i64, data: &[u8]) -> (result:
    Result<AppendOnce, TransportError>)
    requires
        write_offset + data@.len() <= i64::MAX,
    ensures
        match token.generation {
            Some(generation) => result matches Ok(append) && append.open.generation == generation
                && append.open.if_metageneration_match == token.metageneration && handle_bytes(
                append.open.write_handle,
            ) == handle_bytes(token.write_handle) && append.open.write_offset == write_offset
                && one_shot_of(append.messages.pieces@, data@) && append.open.flush == (
            append.messages.pieces@.len() == 1) && append.open.state_lookup == append.open.flush
                && !append.open.finish_write && append.expected == write_offset + data@.len(),
            None => result matches Err(error) && status::failed(
                error,
                zone,
                TransportCode::Internal,
                "one-shot append requires a generation-bound token"@,
            ),
        },
{
    match token.generation {
        Some(generation) => {
            let messages = one_shot_messages(data);
            let single: bool = messages.pieces.len() == 1;
            Ok(
                AppendOnce {
                    open: AppendOpen {
                        generation,
                        if_metageneration_match: token.metageneration,
                        write_handle: copy_handle(&token.write_handle),
                        write_offset,
                        flush: single,
                        state_lookup: single,
                        finish_write: false,
                    },
                    messages,
                    expected: (write_offset as i128 + data.len() as i128) as i64,
                },
            )
        },
        None => Err(
            status::failure(
                zone,
                TransportCode::Internal,
                "one-shot append requires a generation-bound token",
            ),
        ),
    }
}

/// The open that finalizes an object without a live session. The handle of the
/// session that wrote it ties the open to that session, so a replacement
/// generation cannot be adopted.
pub fn finalize_request(generation: i64, token: &AppendToken, write_offset: i64) -> (open:
    AppendOpen)
    ensures
        open.generation == generation,
        open.if_metageneration_match is None,
        handle_bytes(open.write_handle) == handle_bytes(token.write_handle),
        open.write_offset == write_offset,
        !open.flush,
        !open.state_lookup,
        open.finish_write,
{
    AppendOpen {
        generation,
        if_metageneration_match: None,
        write_handle: copy_handle(&token.write_handle),
        write_offset,
        flush: false,
        state_lookup: false,
        finish_write: true,
    }
}

/// The creation of an object that must not exist: an appendable segment, or a
/// register, which is written once and never appended to.
pub fn create_request(appendable: bool) -> (create: CreateOpen)
    ensures
        create == (CreateOpen {
            if_generation_match: 0,
            if_metageneration_match: None,
            appendable,
        }),
{
    CreateOpen { if_generation_match: 0, if_metageneration_match: None, appendable }
}

/// The replacement of exactly the observed generation and metageneration.
pub fn replace_request(observed: &ReplicaSnapshot) -> (create: CreateOpen)
    ensures
        create == (CreateOpen {
            if_generation_match: observed.generation,
            if_metageneration_match: Some(observed.metageneration),
            appendable: true,
        }),
{
    CreateOpen {
        if_generation_match: observed.generation,
        if_metageneration_match: Some(observed.metageneration),
        appendable: true,
    }
}

/// The failure of a register's creation whose response left the object out.
pub fn register_without_resource(zone: usize) -> (error: TransportError)
    ensures
        status::failed(
            error,
            zone,
            TransportCode::Internal,
            "manifest create response omitted the object resource"@,
        ),
{
    status::failure(
        zone,
        TransportCode::Internal,
        "manifest create response omitted the object resource",
    )
}

/// An open of a session names the exact object it is for and asks for its
/// durable tail without finishing it; it resumes by the handle it was given, at
/// the offset it was given. An open without a handle takes the object over.
pub proof fn law_opens_name_their_object(
    generation: i64,
    metageneration: i64,
    write_handle: &Option<Vec<u8>>,
    write_offset: i64,
    open: AppendOpen,
    observed: &ReplicaSnapshot,
    takeover: AppendOpen,
    current: AppendOpen,
)
    requires
        call_ensures(
            session_open_request,
            (generation, metageneration, write_handle, write_offset),
            open,
        ),
        call_ensures(takeover_request, (observed,), takeover),
        call_ensures(current_session_open_request, (), current),
    ensures
        open.generation == generation && open.if_metageneration_match == Some(metageneration),
        open.write_offset == write_offset,
        open.write_handle is Some <==> write_handle is Some,
        open.write_handle is Some ==> open.write_handle->Some_0@ == write_handle->Some_0@,
        takeover.generation == observed.generation && takeover.if_metageneration_match == Some(
            observed.metageneration,
        ) && takeover.write_offset == observed.persisted_size && takeover.write_handle is None,
        current.generation == 0 && current.if_metageneration_match is None
            && current.write_handle is None && current.write_offset == 0,
        open.flush && open.state_lookup && !open.finish_write,
        takeover.flush && takeover.state_lookup && !takeover.finish_write,
        current.flush && current.state_lookup && !current.finish_write,
{
}

/// A token remembers what is known of its session: the tail and the handle, and
/// the identity of the object exactly if it was observed.
pub proof fn law_tokens_remember_their_session(
    zone: usize,
    persisted_size: i64,
    write_handle: Option<Vec<u8>>,
    opened: AppendToken,
    observed: &ReplicaSnapshot,
    taken: AppendToken,
)
    requires
        call_ensures(opened_token, (zone, persisted_size, write_handle), opened),
        call_ensures(takeover_token, (zone, observed, persisted_size, write_handle), taken),
    ensures
        opened.zone == zone && taken.zone == zone,
        opened.persisted_size == persisted_size && taken.persisted_size == persisted_size,
        opened.write_handle == write_handle && taken.write_handle == write_handle,
        opened.generation is None && opened.metageneration is None,
        taken.generation == Some(observed.generation) && taken.metageneration == Some(
            observed.metageneration,
        ),
{
}

/// A one-shot append needs a token that names the generation. Its messages carry
/// the data, the first at the offset, and together they have to persist
/// everything up to the end of the data; the opening message is flushed exactly
/// if it is the only one.
pub proof fn law_one_shot_appends_carry_their_data(
    zone: usize,
    token: &AppendToken,
    write_offset: i64,
    data: &[u8],
    result: Result<AppendOnce, TransportError>,
)
    requires
        write_offset + data@.len() <= i64::MAX,
        call_ensures(append_request, (zone, token, write_offset, data), result),
    ensures
        result is Ok <==> token.generation is Some,
        result is Err ==> result->Err_0.code is Internal && result->Err_0.zone == zone,
        result is Ok ==> {
            let append = result->Ok_0;
            let pieces = append.messages.pieces@;
            &&& append.open.generation == token.generation->Some_0
            &&& append.open.if_metageneration_match == token.metageneration
            &&& append.open.write_handle is Some <==> token.write_handle is Some
            &&& append.open.write_handle is Some ==> append.open.write_handle->Some_0@
                == token.write_handle->Some_0@
            &&& append.open.write_offset == write_offset
            &&& !append.open.finish_write
            &&& append.expected == write_offset + data@.len()
            &&& append.open.flush <==> pieces.len() == 1
            &&& append.open.state_lookup == append.open.flush
        },
{
}

/// Data of any length goes into messages of at most a quarter mebibyte, back to
/// back; no data at all makes one empty message. Exactly the last is flushed.
pub proof fn law_one_shot_messages_carry_the_data(
    data: &[u8],
    messages: OneShotMessages,
    index: usize,
    flush: bool,
)
    requires
        call_ensures(one_shot_messages, (data,), messages),
        index < messages.pieces@.len(),
        call_ensures(OneShotMessages::flushed, (&messages, index), flush),
    ensures
        ({
            let pieces = messages.pieces@;
            &&& pieces[0].start == 0
            &&& pieces.last().end == data@.len()
            &&& data@.len() == 0 ==> pieces.len() == 1
            &&& pieces[index as int].crc32c == pack::crc32c_of(
                data@.subrange(pieces[index as int].start as int, pieces[index as int].end as int),
            )
            &&& pieces[index as int].end <= pieces[index as int].start + 262144
            &&& index + 1 < pieces.len() ==> pieces[index + 1].start == pieces[index as int].end
            &&& flush <==> index + 1 == pieces.len()
        }),
{
    let pieces = messages.pieces@;
    assert(pieces.last() == pieces[pieces.len() - 1]);
    if data@.len() == 0 {
        assert(data@.subrange(0, 0) =~= data@);
    }
}

/// Finalizing writes nothing and finishes exactly the named generation, by the
/// handle of the session that wrote it.
pub proof fn law_finalizing_finishes_the_named_generation(
    generation: i64,
    token: &AppendToken,
    write_offset: i64,
    open: AppendOpen,
)
    requires
        call_ensures(finalize_request, (generation, token, write_offset), open),
    ensures
        open.finish_write && !open.flush && !open.state_lookup,
        open.generation == generation,
        open.if_metageneration_match is None,
        open.write_offset == write_offset,
        open.write_handle is Some <==> token.write_handle is Some,
        open.write_handle is Some ==> open.write_handle->Some_0@ == token.write_handle->Some_0@,
{
}

/// A created object must not have existed, and a replacement replaces exactly
/// what was observed.
pub proof fn law_creations_are_conditional(
    appendable: bool,
    create: CreateOpen,
    observed: &ReplicaSnapshot,
    replace: CreateOpen,
    zone: usize,
    missing: TransportError,
)
    requires
        call_ensures(create_request, (appendable,), create),
        call_ensures(replace_request, (observed,), replace),
        call_ensures(register_without_resource, (zone,), missing),
    ensures
        create.if_generation_match == 0 && create.if_metageneration_match is None,
        create.appendable == appendable,
        replace.if_generation_match == observed.generation,
        replace.if_metageneration_match == Some(observed.metageneration),
        replace.appendable,
        missing.zone == zone && missing.code is Internal,
{
}

} // verus!
