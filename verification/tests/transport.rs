use chorus::listing::{bucket_name, ListStep, Listing};
use chorus::pack::{pack_append, split};
use chorus::probe::{
    probe_append_result, probe_cleanup, probe_new_object, probe_payload_size, probe_takes_over,
    ProbeCleanup,
};
use chorus::redirect::{
    checked_request_params, redirect_routing_token, request_params, OpenDecision, OpenEvent,
    StreamOpen,
};
use chorus::requests::{
    append_request, create_request, current_session_open_request, finalize_request,
    one_shot_messages, opened_token, register_without_resource, replace_request,
    session_open_request, takeover_request, takeover_token,
};
use chorus::session::{
    accept_read, adopt_finalized, append_result, checksums_match, durable_step, finalize_result,
    finish_step, no_live_session, open_closed, replacement_persisted, replacement_token,
    resolve_token_identity, same_bytes, send_failure, session_progress_timeout,
    snapshot_from_object, stat_from_object, token_identity, wait_failure, wait_timeout,
    LaneProgress, OneShotWrite, SessionSlot, SessionStep, SessionUse, SessionWait, TokenIdentity,
    WriteGoal, WriteStatus,
};
use chorus::status::{create_failure, failure, status, transport_code};
use chorus::time::Span;
use chorus::transport::{
    same_metadata, AppendToken, LaneDurableChange, ListedObject, MetadataEntry, ObjectResource,
    ReplicaSnapshot, TransportCode, TransportError,
};
use googleapis_tonic_google_storage_v2::google::rpc::Status as RichStatus;
use googleapis_tonic_google_storage_v2::google::storage::v2::BidiWriteObjectRedirectedError;
use prost::Message;

fn object(size: i64, finalized: bool) -> ObjectResource {
    ObjectResource {
        generation: 7,
        metageneration: 2,
        size,
        finalized,
        crc32c: Some(9),
        metadata: Vec::new(),
    }
}

fn token() -> AppendToken {
    AppendToken {
        zone: 0,
        generation: Some(7),
        metageneration: Some(2),
        persisted_size: 0,
        write_handle: Some(vec![1, 2]),
    }
}

fn redirect(token: Option<&str>) -> Vec<u8> {
    let inner = BidiWriteObjectRedirectedError {
        routing_token: token.map(|token| token.to_string()),
        ..Default::default()
    };
    RichStatus {
        code: 10,
        message: "redirected".into(),
        details: vec![
            prost_types::Any { type_url: "type.googleapis.com/other".into(), value: vec![1] },
            prost_types::Any {
                type_url: "type.googleapis.com/google.storage.v2.BidiWriteObjectRedirectedError"
                    .into(),
                value: inner.encode_to_vec(),
            },
        ],
    }
    .encode_to_vec()
}

#[test]
fn terminal_statuses_keep_their_codes() {
    assert_eq!(
        transport_code(tonic::Code::InvalidArgument as i32),
        TransportCode::InvalidArgument
    );
    assert_eq!(transport_code(tonic::Code::Unimplemented as i32), TransportCode::Unimplemented);
}

#[test]
fn exhausted_statuses_keep_their_code() {
    let error = status(0, tonic::Code::ResourceExhausted as i32, "slow down".into());
    assert_eq!(error.code, TransportCode::ResourceExhausted);
    assert_eq!(error.message, "slow down");
}

#[test]
fn every_status_code_has_a_classification() {
    for (code, expected) in [
        (tonic::Code::NotFound, TransportCode::NotFound),
        (tonic::Code::AlreadyExists, TransportCode::AlreadyExists),
        (tonic::Code::FailedPrecondition, TransportCode::FailedPrecondition),
        (tonic::Code::Aborted, TransportCode::Aborted),
        (tonic::Code::OutOfRange, TransportCode::OutOfRange),
        (tonic::Code::DataLoss, TransportCode::DataLoss),
        (tonic::Code::Unauthenticated, TransportCode::Unauthenticated),
        (tonic::Code::PermissionDenied, TransportCode::PermissionDenied),
        (tonic::Code::Unavailable, TransportCode::Unavailable),
        (tonic::Code::DeadlineExceeded, TransportCode::DeadlineExceeded),
        (tonic::Code::Internal, TransportCode::Internal),
    ] {
        assert_eq!(transport_code(code as i32), expected);
    }
    let conflict = create_failure(failure(3, TransportCode::FailedPrecondition, "exists"));
    assert_eq!((conflict.zone, conflict.code), (3, TransportCode::AlreadyExists));
    let other = create_failure(failure(3, TransportCode::Aborted, "no"));
    assert_eq!(other.code, TransportCode::Aborted);
}

#[test]
fn empty_lane_group_is_rejected_without_a_bare_flush_message() {
    let packed = pack_append(Vec::new());
    assert!(packed.messages.is_empty());
    let error = packed.lane_messages(0, 0).unwrap_err();
    assert_eq!(error.code, TransportCode::Internal);
    assert_eq!(error.message, "append lane cannot send an empty flush group");
}

#[test]
fn groups_are_packed_into_messages_near_the_target() {
    let chunks = vec![vec![1u8; 200_000], vec![2u8; 60_000], vec![3u8; 10_000]];
    let packed = pack_append(chunks);
    assert_eq!(packed.total_len, 270_000);
    assert_eq!(packed.messages.len(), 2);
    assert_eq!(packed.messages[0].content.len(), 260_000);
    assert_eq!(packed.messages[1].relative_offset, 260_000);
    assert_eq!(packed.messages[0].crc32c, crc32c::crc32c(&packed.messages[0].content));
    let lane = packed.lane_messages(1, 100).unwrap();
    assert_eq!((lane[0].write_offset, lane[0].flush), (100, false));
    assert_eq!((lane[1].write_offset, lane[1].flush), (260_100, true));
}

#[test]
fn redirects_are_decoded_and_bounded() {
    assert_eq!(redirect_routing_token(&redirect(Some("route-1"))), Some("route-1".to_string()));
    assert_eq!(redirect_routing_token(&redirect(None)), None);
    assert_eq!(redirect_routing_token(&[]), None);
    assert_eq!(redirect_routing_token(&[255, 255, 255]), None);
    let refused = || OpenEvent::Refused {
        code: 10,
        message: "redirected".into(),
        details: redirect(Some("route-1")),
    };
    let mut open = StreamOpen::new();
    for _ in 0..5 {
        open.begin();
        assert!(matches!(
            open.decide(0, refused()),
            OpenDecision::Retry(token) if token == "route-1"
        ));
    }
    open.begin();
    assert!(matches!(
        open.decide(0, refused()),
        OpenDecision::Fail(error) if error.code == TransportCode::Aborted
    ));
    assert!(matches!(open.decide(0, OpenEvent::Ended), OpenDecision::NoStream));
    assert!(matches!(open.decide(0, OpenEvent::Responded), OpenDecision::Ready));
    assert!(matches!(
        open.decide(0, OpenEvent::ShutDown),
        OpenDecision::Fail(error) if error.message == "append session open cancelled by shutdown"
    ));
}

#[test]
fn request_parameters_carry_the_routing_token() {
    assert_eq!(request_params("b", &None), "bucket=b");
    assert_eq!(request_params("b", &Some("t".into())), "bucket=b&routing_token=t");
    assert_eq!(checked_request_params(2, "b", &None).unwrap(), "bucket=b");
    let error = checked_request_params(2, "b", &Some("line\n".into())).unwrap_err();
    assert_eq!((error.zone, error.code), (2, TransportCode::Internal));
    assert_eq!(error.message, "request params are not valid gRPC metadata");
}

#[test]
fn unfinalized_create_resource_is_not_a_finish_response() {
    let mut progress = LaneProgress::open(0, 0, Some(WriteStatus::Resource(object(0, false))));
    assert_eq!(progress.durable, 0);
    assert!(progress.finalized.is_none());
    progress.fold(0, Some(WriteStatus::PersistedSize(3)));
    match durable_step(progress.clone(), 0) {
        SessionStep::Ready { result: Ok(change), clear } => {
            assert_eq!(change.persisted_size, 3);
            assert!(!clear);
        }
        _ => panic!("three bytes are durable"),
    }
    assert!(matches!(finish_step(progress.clone(), 0, None, 3), SessionStep::Wait));
    progress.fold(0, Some(WriteStatus::Resource(object(3, true))));
    match finish_step(progress, 0, None, 3) {
        SessionStep::Ready { result: Ok(finalized), clear } => {
            assert!(finalized.finalized && clear);
            assert_eq!(finalized.persisted_size, 3);
        }
        _ => panic!("the object is finalized"),
    }
}

#[test]
fn progress_and_failure_are_reported_together() {
    let mut progress = LaneProgress::open(1, 5, None);
    assert_eq!(progress.durable, 5);
    progress.fold(1, Some(WriteStatus::PersistedSize(4)));
    assert_eq!(progress.durable, 5);
    progress.fold(1, Some(WriteStatus::PersistedSize(9)));
    progress.closed(1);
    match durable_step(progress.clone(), 5) {
        SessionStep::Ready { result: Ok(change), clear } => {
            assert!(clear);
            assert_eq!(change.persisted_size, 9);
            assert_eq!(change.error.unwrap().message, "append session closed by the service");
        }
        _ => panic!("progress must not be lost"),
    }
    assert!(matches!(
        durable_step(progress.clone(), 9),
        SessionStep::Ready { result: Err(error), clear: true }
            if error.code == TransportCode::Unavailable
    ));
    progress.failed(failure(1, TransportCode::Aborted, "stream"));
    assert!(matches!(
        finish_step(progress, 1, Some(7), 9),
        SessionStep::Ready { result: Err(error), clear: true }
            if error.code == TransportCode::Aborted
    ));
    let late = SessionWait { clear_on_ready: false, inspect_before_error: false };
    assert!(matches!(
        late.step(Some(Ok(1)), Some(failure(0, TransportCode::Internal, "x"))),
        SessionStep::Ready { result: Err(_), clear: true }
    ));
    assert!(matches!(
        late.step(Some(Ok(1)), None),
        SessionStep::Ready { result: Ok(1), clear: false }
    ));
    assert!(matches!(late.step::<u8>(None, None), SessionStep::Wait));
}

#[test]
fn a_finalized_object_must_be_the_committed_prefix() {
    let mut progress = LaneProgress::open(0, 0, None);
    progress.fold(0, Some(WriteStatus::Resource(object(3, true))));
    for (generation, offset) in [(Some(8), 3), (Some(7), 4)] {
        assert!(matches!(
            finish_step(progress.clone(), 0, generation, offset),
            SessionStep::Ready { result: Err(error), clear: true }
                if error.code == TransportCode::DataLoss
                    && error.message == "finalized segment does not match the committed prefix"
        ));
    }
    assert!(finalize_result(0, Some(object(3, true)), 7, 3).is_ok());
    for wrong in [object(3, false), object(4, true)] {
        let error = finalize_result(0, Some(wrong), 7, 3).unwrap_err();
        assert_eq!(error.message, "finalized segment does not match the recovered prefix");
    }
    let error = finalize_result(0, None, 7, 3).unwrap_err();
    assert_eq!(error.message, "missing finalized resource response");
    let mut unknown = opened_token(0, 0, None);
    adopt_finalized(&mut unknown, 7, 2);
    assert_eq!((unknown.generation, unknown.metageneration), (Some(7), Some(2)));
}

#[test]
fn observations_trust_only_finalized_sizes() {
    assert_eq!(stat_from_object(1, object(5, false)).persisted_size, 0);
    assert_eq!(stat_from_object(1, object(5, true)).persisted_size, 5);
    let snapshot = snapshot_from_object(1, object(5, false), vec![1, 2]);
    assert_eq!((snapshot.persisted_size, snapshot.bytes.len()), (2, 2));
}

#[test]
fn token_identities_are_resolved_once() {
    let observed = stat_from_object(0, object(0, false));
    let mut known = token();
    assert_eq!(token_identity(&known), TokenIdentity::Known(7, 2));
    assert_eq!(resolve_token_identity(0, &mut known, &observed).unwrap(), (7, 2));
    let mut fresh = opened_token(0, 0, None);
    assert_eq!(token_identity(&fresh), TokenIdentity::Unresolved);
    let finalized = stat_from_object(0, object(0, true));
    let error = resolve_token_identity(0, &mut fresh, &finalized).unwrap_err();
    assert_eq!(error.code, TransportCode::FailedPrecondition);
    assert_eq!(error.message, "append session object is already finalized");
    assert_eq!(resolve_token_identity(0, &mut fresh, &observed).unwrap(), (7, 2));
    let mut half = token();
    half.metageneration = None;
    assert_eq!(token_identity(&half), TokenIdentity::Incomplete);
    let error = resolve_token_identity(0, &mut half, &observed).unwrap_err();
    assert_eq!(error.message, "append token has incomplete generation identity");
}

#[test]
fn requests_name_what_they_write_to() {
    let open = session_open_request(7, 2, &Some(vec![1, 2]), 30);
    assert_eq!((open.generation, open.if_metageneration_match), (7, Some(2)));
    assert_eq!((open.write_handle, open.write_offset), (Some(vec![1, 2]), 30));
    assert!(open.flush && open.state_lookup && !open.finish_write);
    let current = current_session_open_request();
    assert_eq!((current.generation, current.if_metageneration_match), (0, None));
    let observed = stat_from_object(0, object(5, true));
    let takeover = takeover_request(&observed);
    assert_eq!((takeover.write_handle, takeover.write_offset), (None, 5));
    assert_eq!(takeover_token(0, &observed, 5, None).generation, Some(7));
    let finalize = finalize_request(7, &token(), 30);
    assert!(finalize.finish_write && !finalize.flush);
    assert_eq!(finalize.if_metageneration_match, None);
    assert_eq!(create_request(true).if_generation_match, 0);
    assert!(!create_request(false).appendable);
    let replace = replace_request(&observed);
    assert_eq!((replace.if_generation_match, replace.if_metageneration_match), (7, Some(2)));
    assert_eq!(
        register_without_resource(4).message,
        "manifest create response omitted the object resource"
    );
}

#[test]
fn one_shot_writes_larger_than_one_message_are_split() {
    let data: Vec<u8> = (0..600_011).map(|index| index as u8).collect();
    let append = append_request(0, &token(), 10, &data).unwrap();
    assert_eq!(append.expected, 600_021);
    assert!(!append.open.flush);
    let mut sent = Vec::new();
    for (index, piece) in append.messages.pieces.iter().enumerate() {
        let bytes = &data[piece.start..piece.end];
        assert!(bytes.len() <= 262_144);
        assert_eq!(piece.crc32c, crc32c::crc32c(bytes));
        assert_eq!(append.messages.flushed(index), piece.end == data.len());
        sent.extend_from_slice(bytes);
    }
    assert_eq!(sent, data);
    let small = append_request(0, &token(), 0, b"abc").unwrap();
    assert!(small.open.flush && small.open.state_lookup);
    let empty = one_shot_messages(b"");
    assert_eq!(empty.pieces.len(), 1);
    assert_eq!(empty.pieces[0].crc32c, 0);
    assert!(split(b"").is_empty());
    let error = match append_request(0, &opened_token(0, 0, None), 0, b"abc") {
        Err(error) => error,
        Ok(_) => panic!("the token names no generation"),
    };
    assert_eq!(error.message, "one-shot append requires a generation-bound token");
}

#[test]
fn one_shot_writes_end_with_their_goal() {
    let mut ack = OneShotWrite::new(WriteGoal::Acknowledged);
    assert!(ack.step(None));
    let mut flush = OneShotWrite::new(WriteGoal::Persisted(4));
    assert!(!flush.step(Some(WriteStatus::PersistedSize(0))));
    assert!(!flush.step(Some(WriteStatus::Resource(object(9, false)))));
    assert!(flush.step(Some(WriteStatus::PersistedSize(4))));
    let mut finish = OneShotWrite::new(WriteGoal::Resource);
    assert!(!finish.step(Some(WriteStatus::PersistedSize(4))));
    assert!(finish.step(Some(WriteStatus::Resource(object(4, true)))));
    assert_eq!(append_result(0, Some(5), 4).unwrap(), 5);
    let short = append_result(0, Some(3), 4).unwrap_err();
    assert_eq!(short.message, "flush persisted 3, expected at least 4");
    assert_eq!(append_result(0, None, 4).unwrap_err().message, "missing persisted-size response");
}

#[test]
fn replacements_are_read_back() {
    assert!(replacement_persisted(0, Some(3), 3).is_ok());
    assert_eq!(
        replacement_persisted(0, Some(4), 3).unwrap_err().message,
        "replacement persisted Some(4), expected 3"
    );
    assert_eq!(
        replacement_persisted(0, None, 3).unwrap_err().message,
        "replacement persisted None, expected 3"
    );
    let pair = |key: &str, value: &str| MetadataEntry { key: key.into(), value: value.into() };
    let written = vec![pair("chorus.format", "1"), pair("a", "b")];
    let read = vec![pair("a", "b"), pair("chorus.format", "1")];
    assert!(same_metadata(&written, &read));
    assert!(!same_metadata(&written, &read[..1].to_vec()));
    let snapshot = ReplicaSnapshot {
        zone: 0,
        generation: 8,
        metageneration: 1,
        persisted_size: 3,
        finalized: false,
        crc32c: None,
        metadata: read,
        bytes: b"abc".to_vec(),
    };
    let token = replacement_token(0, &snapshot, b"abc", &written).unwrap();
    assert_eq!((token.generation, token.persisted_size), (Some(8), 3));
    assert_eq!(
        replacement_token(0, &snapshot, b"abd", &written).unwrap_err().message,
        "replacement generation failed verification"
    );
    assert!(replacement_token(0, &snapshot, b"abc", &Vec::new()).is_err());
    assert!(same_bytes(b"", b"") && !same_bytes(b"a", b"b") && !same_bytes(b"a", b"ab"));
}

#[test]
fn reads_check_every_response() {
    let mut bytes = Vec::new();
    accept_read(0, &mut bytes, b"abc", Some(crc32c::crc32c(b"abc"))).unwrap();
    accept_read(0, &mut bytes, b"d", None).unwrap();
    let error = accept_read(0, &mut bytes, b"e", Some(1)).unwrap_err();
    assert_eq!(error.code, TransportCode::DataLoss);
    assert_eq!(error.message, "ReadObject response CRC32C mismatch");
    assert_eq!(bytes, b"abcd");
    assert!(checksums_match(None, 4) && !checksums_match(Some(3), 4));
}

#[test]
fn session_failures_say_what_was_attempted() {
    assert_eq!(
        no_live_session(0, SessionUse::Append).message,
        "no live append session (resume required)"
    );
    assert_eq!(
        no_live_session(0, SessionUse::Finalize).message,
        "no live append session to finalize"
    );
    assert_eq!(
        send_failure(0, SessionUse::Append, false).message,
        "append session disconnected while sending"
    );
    assert_eq!(
        send_failure(0, SessionUse::Finalize, false).message,
        "append session disconnected while finalizing"
    );
    assert_eq!(send_failure(0, SessionUse::Append, true).code, TransportCode::DeadlineExceeded);
    assert_eq!(
        wait_failure(0, SessionUse::Append, false).message,
        "append session reader ended"
    );
    assert_eq!(
        wait_failure(0, SessionUse::Append, true).message,
        "append session made no progress"
    );
    assert_eq!(
        wait_failure(0, SessionUse::Finalize, false).message,
        "append session reader ended while finalizing"
    );
    assert_eq!(
        wait_failure(0, SessionUse::Finalize, true).message,
        "append session finalization made no progress"
    );
    assert_eq!(open_closed(0).message, "append open closed without a response");
    assert_eq!(wait_timeout(SessionUse::Append), None);
    assert_eq!(wait_timeout(SessionUse::Finalize), Some(Span::from_secs(30)));
    assert_eq!(session_progress_timeout(), Span::from_secs(30));
}

#[test]
fn a_stale_failure_does_not_clear_a_newer_session() {
    let mut slot = SessionSlot::new();
    assert_eq!(slot.replace(Some(1)), None);
    assert_eq!(slot.replace(Some(2)), Some(1));
    assert_eq!(slot.clear_if(1), None);
    assert_eq!(slot.current, Some(2));
    assert_eq!(slot.clear_if(2), Some(2));
    assert_eq!(slot.current, None);
}

#[test]
fn lane_session_diagnostics_describe_the_live_session() {
    let mut slot = SessionSlot::new();
    let idle = slot.lane_session_diagnostics(&None);
    assert!(idle.session_id.is_none());
    assert!(idle.response_stream_open.is_none());

    slot.replace(Some(7));
    let mut progress = LaneProgress::open(0, 0, None);
    let opened = slot.lane_session_diagnostics(&Some(progress.clone()));
    assert_eq!(opened.session_id, Some(7));
    assert_eq!(opened.response_stream_open, Some(true));

    progress.closed(0);
    let closed = slot.lane_session_diagnostics(&Some(progress));
    assert_eq!(closed.response_stream_open, Some(false));
}

fn listed(name: &str) -> ListedObject {
    ListedObject {
        zone: 0,
        name: name.into(),
        generation: 1,
        finalized: false,
        metadata: Vec::new(),
    }
}

#[test]
fn listings_end() {
    let listing = Listing::new(0);
    let listing = match listing.page(vec![listed("a")], "t1".into()) {
        ListStep::More(listing) => listing,
        _ => panic!("a second page follows"),
    };
    match listing.page(vec![listed("b")], "".into()) {
        ListStep::Done(all) => {
            assert_eq!(all.iter().map(|o| o.name.as_str()).collect::<Vec<_>>(), ["a", "b"]);
        }
        _ => panic!("the second page is the last"),
    }
    let mut repeated = Listing::new(0);
    repeated.tokens.push("t1".into());
    assert!(matches!(
        repeated.page(Vec::new(), "t1".into()),
        ListStep::Failed(error) if error.message == "ListObjects repeated a page token"
    ));
    let mut long = Listing::new(0);
    for page in 0..9_999 {
        long.tokens.push(format!("t{page}"));
    }
    assert!(matches!(
        long.page(Vec::new(), "more".into()),
        ListStep::Failed(error) if error.message == "ListObjects exceeded the pagination bound"
    ));
    assert_eq!(bucket_name("projects/_/buckets/zone-a"), "zone-a");
    assert_eq!(bucket_name("zone-a"), "zone-a");
}

#[test]
fn the_takeover_probe_judges_each_step() {
    assert_eq!(probe_payload_size(0, 37).unwrap(), 37);
    assert_eq!(
        probe_payload_size(0, 0).unwrap_err().message,
        "probe payload must be non-empty"
    );
    if usize::MAX as u64 > i64::MAX as u64 {
        assert_eq!(
            probe_payload_size(0, usize::MAX).unwrap_err().message,
            "probe payload length does not fit in i64"
        );
    }
    assert!(probe_new_object(0, 0).is_ok());
    assert_eq!(
        probe_new_object(0, -4).unwrap_err().message,
        "new appendable object opened at persisted_size=-4, expected 0"
    );
    let clean = LaneDurableChange { persisted_size: 37, error: None };
    assert_eq!(probe_append_result(clean).unwrap(), 37);
    let failed = LaneDurableChange {
        persisted_size: 37,
        error: Some(failure(0, TransportCode::Aborted, "fenced")),
    };
    assert_eq!(probe_append_result(failed).unwrap_err().code, TransportCode::Aborted);
    let observed = stat_from_object(0, object(0, false));
    assert!(matches!(probe_cleanup(Ok(observed)), ProbeCleanup::Delete(7)));
    let missing = failure(0, TransportCode::NotFound, "gone");
    assert!(matches!(probe_cleanup(Err(missing)), ProbeCleanup::Done(Ok(()))));
    let down = failure(0, TransportCode::Unavailable, "down");
    assert!(matches!(probe_cleanup(Err(down)), ProbeCleanup::Done(Err(_))));
    assert!(probe_takes_over(&Ok(1)));
    let refused: Result<i64, TransportError> = Err(failure(0, TransportCode::Aborted, "no"));
    assert!(!probe_takes_over(&refused));
}
