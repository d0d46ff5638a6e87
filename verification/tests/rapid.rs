use chorus::bursts::{
    burst_end, burst_messages, judge_flush_rate, judge_latency, judge_stamp_failure,
    judge_stamped_stream, stamped_base, summarize_sequential, BurstAcks, FlushProbe, SizeProbe,
    FLUSHED_APPENDS,
};
use chorus::held::{
    judge_created, judge_finalized, judge_listing, judge_open_stream, judge_opening, judge_reads,
    judge_takeover, read_timed_out, refused, stream_closed,
};
use chorus::probe::{GenerationZeroOpenObservation, GenerationZeroTakeoverProbeResult};
use chorus::rapid::{
    acknowledges, bad, bucket_resource, code_of, data_message, generation_zero_passed,
    judge_fresh_open, judge_metadata_fence, ok, persisted, report, status_code_name,
    transport_code_name, DataMessage, Refusal,
};
use chorus::session::WriteStatus;
use chorus::transport::{ObjectResource, TransportCode, TransportError};

fn refusal(code: i32) -> Refusal {
    Refusal { code, message: "condition".into() }
}

#[test]
fn codes_are_named_as_the_client_names_them() {
    for code in 0..=16 {
        assert_eq!(
            status_code_name(code),
            format!("{:?}", tonic::Code::from(code)),
        );
    }
    assert_eq!(status_code_name(99), format!("{:?}", tonic::Code::from(99)));
    assert_eq!(code_of(&refusal(9)), "FailedPrecondition (condition)");
    assert_eq!(transport_code_name(TransportCode::NotFound), "NOT_FOUND");
    assert_eq!(transport_code_name(TransportCode::Ambiguous), "AMBIGUOUS");
}

#[test]
fn probes_are_reported() {
    let (text, passed) = report("T1", &Ok(ok("fine".into())));
    assert_eq!((text.as_str(), passed), ("[PASS] T1\n      fine", true));
    let (text, passed) = report("T2", &Ok(bad("not fine".into())));
    assert_eq!((text.as_str(), passed), ("[FAIL] T2\n      not fine", false));
    let (text, passed) = report("T3", &Err("no bucket".into()));
    assert_eq!(
        (text.as_str(), passed),
        ("[ERR ] T3\n      probe could not run: no bucket", false)
    );
    assert_eq!(bucket_resource("zone-a"), "projects/_/buckets/zone-a");
    assert_eq!(bucket_resource("projects/_/buckets/zone-a"), "projects/_/buckets/zone-a");
}

#[test]
fn older_sizes_are_not_acknowledgments() {
    let object = ObjectResource {
        generation: 1,
        metageneration: 1,
        size: 8,
        finalized: false,
        crc32c: None,
        metadata: Vec::new(),
    };
    let resource = Some(WriteStatus::Resource(object));
    assert_eq!(persisted(&resource), Some(8));
    assert_eq!(persisted(&None), None);
    assert_eq!(acknowledges(&resource, 8), Some(8));
    assert_eq!(acknowledges(&Some(WriteStatus::PersistedSize(7)), 8), None);
    assert_eq!(stream_closed().code, 10);
    let late = read_timed_out(16);
    assert_eq!(late.code, 4);
    assert_eq!(
        late.message,
        "no persisted-size >= 16 within 20s (stream neither acked the write nor aborted)"
    );
}

#[test]
fn preconditions_are_judged() {
    let result = judge_fresh_open(&Err(refusal(9)), &Ok(8));
    assert!(result.pass);
    assert_eq!(
        result.detail,
        "wrong if_metageneration_match -> FailedPrecondition (condition); correct -> Ok"
    );
    assert_eq!(
        judge_fresh_open(&Err(refusal(10)), &Ok(8)).detail,
        "wrong metagen rejected but with unexpected code Aborted (condition); correct -> Ok"
    );
    assert_eq!(
        judge_fresh_open(&Ok(8), &Ok(8)).detail,
        "wrong if_metageneration_match was ACCEPTED (persisted 8); precondition not enforced on open"
    );
    assert_eq!(
        judge_fresh_open(&Err(refusal(9)), &Err(refusal(5))).detail,
        "correct if_metageneration_match was rejected: NotFound (condition)"
    );
    let fence = judge_metadata_fence(1, 2, &Err(refusal(9)), &Ok(8));
    assert!(fence.pass);
    assert_eq!(
        fence.detail,
        "metageneration 1->2; stale open -> FailedPrecondition (condition); current open -> Ok"
    );
    assert_eq!(
        judge_metadata_fence(2, 2, &Err(refusal(9)), &Ok(8)).detail,
        "UpdateObject did not bump metageneration (m0=2, m1=2)"
    );
    assert!(!judge_metadata_fence(1, 2, &Err(refusal(10)), &Ok(8)).pass);
    assert!(!judge_metadata_fence(1, 2, &Ok(8), &Ok(8)).pass);
    assert!(!judge_metadata_fence(1, 2, &Err(refusal(9)), &Err(refusal(9))).pass);
}

#[test]
fn a_takeover_must_fence_the_deposed_stream() {
    let fenced = judge_takeover(8, &Ok(16), &Err(refusal(10)));
    assert!(fenced.pass);
    assert_eq!(
        fenced.detail,
        "S2 takeover succeeded; S1's append at its own believed tail was rejected -> Aborted (condition) (deposed writer cannot persist) [s1_tail=8 s2=Ok(16) s1_retry_offset=8]"
    );
    let split = judge_takeover(8, &Ok(16), &Ok(24));
    assert!(!split.pass);
    assert!(split.detail.starts_with(
        "SPLIT-BRAIN: after S2 takeover, S1 STILL persisted to 24 at its stale tail \u{2014} GCS"
    ));
    let failed = judge_takeover(8, &Err(refusal(9)), &Ok(24));
    assert!(failed.detail.ends_with(
        "(takeover may be error+retry, not silent revoke) [s1_tail=8 s2=Err(FailedPrecondition) s1_retry_offset=8]"
    ));
    assert!(judge_open_stream(8, &Ok(16)).pass);
    assert_eq!(
        judge_open_stream(8, &Err(refusal(10))).detail,
        "S1 was unexpectedly fenced by the metadata CAS -> Aborted (condition) [s1_tail=8]"
    );
    assert_eq!(
        refused("S1 could not establish its stream", &refusal(5)).detail,
        "S1 could not establish its stream: NotFound (condition)"
    );
}

#[test]
fn finalization_listing_and_reads_are_judged() {
    assert!(judge_finalized(&Err(refusal(9))).pass);
    assert!(!judge_finalized(&Err(refusal(10))).pass);
    assert_eq!(
        judge_finalized(&Ok(8)).detail,
        "append after finalization unexpectedly persisted through 8"
    );
    let names: Vec<String> = vec!["p/9".into(), "p/1".into()];
    assert_eq!(
        judge_listing(&names, &"p/9".into(), &"p/1".into(), "p/", "").detail,
        "both newly created objects were immediately listed under p/"
    );
    let missing = judge_listing(&names, &"p/9".into(), &"p/2".into(), "p/", "[..]");
    assert!(!missing.pass);
    assert_eq!(missing.detail, "listing omitted a newly created object: [..]");
    let read = judge_reads(16, &Err(refusal(5)), 0, &Ok(16));
    assert!(read.pass);
    assert_eq!(
        read.detail,
        "persisted 16B flushed; OPEN object: ReadObject -> error NotFound (condition), GetObject.size -> 0; FINALIZED: ReadObject -> 16 bytes"
    );
    assert!(!judge_reads(16, &Ok(16), 0, &Ok(15)).pass);
    assert!(!judge_reads(16, &Ok(16), 0, &Err(refusal(5))).pass);
    assert!(judge_created(true, 26, 26).pass);
    assert_eq!(
        judge_created(false, 26, 26).detail,
        "finalized resource reported size 26 at expected tail 26"
    );
    assert!(judge_opening(Some(0)).is_none());
    assert!(!judge_opening(None).unwrap().pass);
    assert!(judge_opening(Some(1)).is_some());
}

#[test]
fn latencies_are_summarized_in_order() {
    let reversed: Vec<u64> = (0..200).rev().collect();
    let summary = summarize_sequential(reversed);
    assert_eq!(summary, "sequential flush RTT us: p50=100 p90=180 p99=198");
    let mut acks = BurstAcks::new(burst_end(0));
    assert_eq!(acks.end, 65_536);
    assert_eq!(acks.acknowledged(4096, 10), None);
    assert_eq!(acks.acknowledged(65_536, 30), Some(30));
    let result = judge_latency(&summary, acks.first, 30, 12);
    assert!(result.pass);
    assert_eq!(
        result.detail,
        "sequential flush RTT us: p50=100 p90=180 p99=198; pipelined burst of 16 (flush each): first ack 10us, last ack 30us; same burst, ONE flush on last: all durable in 12us"
    );
    let group = burst_messages(100, false);
    assert_eq!(group.len(), 16);
    assert_eq!((group[1].write_offset, group[1].flush), (4196, false));
    assert_eq!((group[15].write_offset, group[15].flush), (61_540, true));
    assert!(burst_messages(0, true).iter().all(|message| message.flush));
}

#[test]
fn message_sizes_and_stamps_are_reported() {
    let mut probe = SizeProbe::new();
    let mut sizes = Vec::new();
    while let Some(bytes) = probe.next() {
        sizes.push(bytes);
        if bytes == 2_097_153 {
            probe.sent(&Err(refusal(3)));
        } else {
            probe.sent(&Ok(bytes as i64));
        }
    }
    assert_eq!(sizes, [262_144, 1_048_576, 2_097_152, 2_097_153, 4_194_304]);
    assert_eq!(
        probe.finish().detail,
        "256KiB: OK (persisted 262144); 1MiB: OK (persisted 1048576); 2MiB: OK (persisted 2097152); 2MiB+1: InvalidArgument (condition) condition; 4MiB: OK (persisted 4194304)"
    );
    let mut stopped = SizeProbe::new();
    stopped.sent(&Err(refusal(3)));
    stopped.not_reopened();
    assert_eq!(stopped.next(), None);
    assert_eq!(
        stopped.finish().detail,
        "256KiB: InvalidArgument (condition) condition; (could not reopen after rejection)"
    );
    assert_eq!(stamped_base(1), 1001);
    assert_eq!(
        judge_stamped_stream(0, &Ok(8192)).unwrap(),
        "stamp 0: session persisted through 8192 after CAS"
    );
    assert_eq!(
        judge_stamped_stream(1, &Err(refusal(10))).unwrap_err().detail,
        "session died after metadata stamp 1: Aborted (condition) condition"
    );
    assert_eq!(
        judge_stamp_failure(1, &refusal(9)).detail,
        "metadata stamp 1 failed: FailedPrecondition (condition)"
    );
}

#[test]
fn the_generation_zero_probe_needs_every_step() {
    let absent = TransportError {
        zone: 0,
        code: TransportCode::NotFound,
        message: "absent".into(),
    };
    let seen = GenerationZeroOpenObservation { persisted_size: 37, resource_size: Some(37) };
    let good = GenerationZeroTakeoverProbeResult {
        expected_size: 37,
        append: Ok(37),
        takeover: Some(Ok(seen)),
        absent: Err(absent.clone()),
        cleanup: Ok(()),
    };
    assert!(generation_zero_passed(&good));
    let mut short = good.clone();
    short.append = Ok(36);
    assert!(!generation_zero_passed(&short));
    let mut untaken = good.clone();
    untaken.takeover = None;
    assert!(!generation_zero_passed(&untaken));
    let mut sizeless = good.clone();
    sizeless.takeover = Some(Ok(GenerationZeroOpenObservation { resource_size: None, ..seen }));
    assert!(!generation_zero_passed(&sizeless));
    let mut present = good.clone();
    present.absent = Ok(seen);
    assert!(!generation_zero_passed(&present));
    let mut dirty = good.clone();
    dirty.cleanup = Err(absent);
    assert!(!generation_zero_passed(&dirty));
}

#[test]
fn flushed_appends_run_to_their_count() {
    let mut probe = FlushProbe::new(8);
    while let Some(tail) = probe.next() {
        probe.sent(Ok(tail + 8));
    }
    assert_eq!((probe.completed, probe.tail), (FLUSHED_APPENDS, 800));
    let result = judge_flush_rate(probe.completed, &probe.failure, "2.5s", "40");
    assert!(result.pass);
    assert_eq!(
        result.detail,
        "100/100 per-record flushed appends on one session in 2.5s (40/s) -> flushes are NOT the \
         rate-limited mutation"
    );
}

#[test]
fn flushed_appends_end_at_the_first_failure() {
    let mut probe = FlushProbe::new(8);
    probe.sent(Ok(16));
    assert_eq!(probe.next(), Some(16));
    probe.sent(Err(refusal(8)));
    assert_eq!(probe.next(), None);
    assert_eq!((probe.completed, probe.tail), (2, 16));
    let result = judge_flush_rate(probe.completed, &probe.failure, "10ms", "200");
    assert!(result.pass);
    assert_eq!(
        result.detail,
        "throttled after 2/100 flushed appends in 10ms: ResourceExhausted (condition) condition \
         -> per-record flushes ARE rate limited"
    );
}

#[test]
fn a_data_message_carries_the_checksum_of_its_bytes() {
    for flush in [false, true] {
        assert_eq!(
            data_message(16, b"11111111", flush),
            DataMessage {
                write_offset: 16,
                crc32c: crc32c::crc32c(b"11111111"),
                flush,
                state_lookup: flush,
            }
        );
    }
}
