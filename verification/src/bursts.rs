//! Latency, message-size and metadata probes on one held stream.

use crate::rapid;
use crate::rapid::{ProbeResult, Refusal};
use crate::text;
use vstd::prelude::*;

verus! {

/// Appends that the sequential part of the latency probe makes.
pub const SEQUENTIAL_APPENDS: usize = 200;

/// Messages of one burst.
pub const BURST_MESSAGES: usize = 16;

/// Bytes of one message of the latency and metadata probes.
pub const PROBE_PAYLOAD_BYTES: usize = 4096;

/// The values in ascending order.
pub open spec fn ascending(values: Seq<u64>) -> Seq<u64> {
    values.sort_by(|a: u64, b: u64| a <= b)
}

/// `slice::sort_unstable` of the standard library: the same values, each as
/// often as before, in ascending order.
#[verifier::external_body]
fn sort(values: &mut Vec<u64>)
    ensures
        final(values)@.to_multiset() == old(values)@.to_multiset(),
        forall|i: int, j: int|
            0 <= i <= j < final(values)@.len() ==> final(values)@[i] <= final(values)@[j],
{
    values.sort_unstable();
}

/// The text of the sequential part.
pub open spec fn sequential_text(round_trips: Seq<u64>) -> Seq<char> {
    "sequential flush RTT us: p50="@ + text::decimal(ascending(round_trips)[100] as nat)
        + " p90="@ + text::decimal(ascending(round_trips)[180] as nat) + " p99="@
        + text::decimal(ascending(round_trips)[198] as nat)
}

/// Summarizes the round trips of the sequential part, in microseconds.
pub fn summarize_sequential(round_trips: Vec<u64>) -> (summary: String)
    requires
        round_trips@.len() == SEQUENTIAL_APPENDS,
    ensures
        summary@ == sequential_text(round_trips@),
{
    let mut sorted = round_trips;
    sort(&mut sorted);
    proof {
        let order = |a: u64, b: u64| a <= b;
        round_trips@.lemma_sort_by_ensures(order);
        vstd::seq_lib::lemma_sorted_unique(sorted@, ascending(round_trips@), order);
        round_trips@.to_multiset_ensures();
        sorted@.to_multiset_ensures();
    }
    let mut summary = "sequential flush RTT us: p50=".to_owned();
    text::push_decimal(&mut summary, sorted[100]);
    summary.append(" p90=");
    text::push_decimal(&mut summary, sorted[180]);
    summary.append(" p99=");
    text::push_decimal(&mut summary, sorted[198]);
    summary
}

/// One message of a burst.
#[derive(Clone, Copy, Debug, PartialEq, Eq, Structural)]
pub struct BurstMessage {
    /// Offset that the message is written at.
    pub write_offset: i64,
    /// Whether it is flushed and its durable tail reported.
    pub flush: bool,
}

/// The tail after a burst.
pub fn burst_end(tail: i64) -> (end: i64)
    requires
        tail + BURST_MESSAGES * PROBE_PAYLOAD_BYTES <= i64::MAX,
    ensures
        end == tail + BURST_MESSAGES * PROBE_PAYLOAD_BYTES,
{
    tail + BURST_MESSAGES as i64 * PROBE_PAYLOAD_BYTES as i64
}

/// The messages of a burst at `tail`: back to back, with every message flushed
/// or only the last.
pub fn burst_messages(tail: i64, flush_each: bool) -> (messages: Vec<BurstMessage>)
    requires
        tail + BURST_MESSAGES * PROBE_PAYLOAD_BYTES <= i64::MAX,
    ensures
        messages@ == Seq::new(
            BURST_MESSAGES as nat,
            |i: int|
                BurstMessage {
                    write_offset: (tail + i * PROBE_PAYLOAD_BYTES) as i64,
                    flush: flush_each || i + 1 == BURST_MESSAGES,
                },
        ),
{
    let mut messages: Vec<BurstMessage> = Vec::new();
    let mut i: usize = 0;
    while i < BURST_MESSAGES
        invariant
            i <= BURST_MESSAGES,
            tail + BURST_MESSAGES * PROBE_PAYLOAD_BYTES <= i64::MAX,
            messages@ =~= Seq::new(
                i as nat,
                |j: int|
                    BurstMessage {
                        write_offset: (tail + j * PROBE_PAYLOAD_BYTES) as i64,
                        flush: flush_each || j + 1 == BURST_MESSAGES,
                    },
            ),
        decreases BURST_MESSAGES - i,
    {
        messages.push(
            BurstMessage {
                write_offset: tail + i as i64 * PROBE_PAYLOAD_BYTES as i64,
                flush: flush_each || i + 1 == BURST_MESSAGES,
            },
        );
        i = i + 1;
    }
    messages
}

/// Acknowledgments of a burst.
#[derive(Clone, Copy, Debug, PartialEq, Eq, Structural)]
pub struct BurstAcks {
    /// Tail at which the burst is complete.
    pub end: i64,
    /// When the first acknowledgment came.
    pub first: Option<u64>,
}

impl BurstAcks {
    /// A burst of which nothing is acknowledged.
    pub fn new(end: i64) -> (acks: Self)
        ensures
            acks == (BurstAcks { end, first: None }),
    {
        BurstAcks { end, first: None }
    }

    /// Takes an acknowledgment in: remembers the first one's time, and says
    /// when the burst was complete once it is.
    pub fn acknowledged(&mut self, size: i64, at: u64) -> (last: Option<u64>)
        ensures
            final(self).end == old(self).end,
            final(self).first == match old(self).first {
                Some(first) => Some(first),
                None => Some(at),
            },
            last == if size >= old(self).end {
                Some(at)
            } else {
                None
            },
    {
        if self.first.is_none() {
            self.first = Some(at);
        }
        if size >= self.end {
            Some(at)
        } else {
            None
        }
    }
}

/// The text of the whole latency probe.
pub open spec fn latency_text(
    sequential: Seq<char>,
    first: Option<u64>,
    last: u64,
    group: u64,
) -> Seq<char> {
    sequential + "; pipelined burst of "@ + text::decimal(BURST_MESSAGES as nat)
        + " (flush each): first ack "@ + text::decimal(
        match first {
            Some(at) => at as nat,
            None => 0,
        },
    ) + "us, last ack "@ + text::decimal(last as nat)
        + "us; same burst, ONE flush on last: all durable in "@ + text::decimal(group as nat)
        + "us"@
}

/// The outcome of the latency probe.
pub fn judge_latency(sequential: &str, first: Option<u64>, last: u64, group: u64) -> (result:
    ProbeResult)
    ensures
        rapid::outcome(result) == (true, latency_text(sequential@, first, last, group)),
{
    let mut detail = sequential.to_owned();
    detail.append("; pipelined burst of ");
    text::push_decimal(&mut detail, BURST_MESSAGES as u64);
    detail.append(" (flush each): first ack ");
    let shown: u64 = match first {
        Some(at) => at,
        None => 0,
    };
    text::push_decimal(&mut detail, shown);
    detail.append("us, last ack ");
    text::push_decimal(&mut detail, last);
    detail.append("us; same burst, ONE flush on last: all durable in ");
    text::push_decimal(&mut detail, group);
    detail.append("us");
    rapid::ok(detail)
}

/// Message sizes that the size probe tries.
pub const PROBED_SIZES: usize = 5;

/// Bytes of one of the probed sizes.
pub open spec fn size_bytes(index: int) -> usize {
    if index == 0 {
        262_144
    } else if index == 1 {
        1_048_576
    } else if index == 2 {
        2_097_152
    } else if index == 3 {
        2_097_153
    } else {
        4_194_304
    }
}

/// Label of one of the probed sizes.
pub open spec fn size_label(index: int) -> Seq<char> {
    if index == 0 {
        "256KiB"@
    } else if index == 1 {
        "1MiB"@
    } else if index == 2 {
        "2MiB"@
    } else if index == 3 {
        "2MiB+1"@
    } else {
        "4MiB"@
    }
}

/// What is found for one message size.
pub open spec fn size_finding(index: int, append: Result<i64, Refusal>) -> Seq<char> {
    match append {
        Ok(size) => size_label(index) + ": OK (persisted "@ + text::signed_decimal(size as int)
            + ")"@,
        Err(refusal) => size_label(index) + ": "@ + rapid::code_text(refusal) + " "@
            + refusal.message@,
    }
}

/// A run through the probed message sizes.
pub struct SizeProbe {
    /// Sizes tried so far.
    pub tried: usize,
    /// Whether the run was given up.
    pub stopped: bool,
    /// What was found.
    pub findings: Vec<String>,
}

impl SizeProbe {
    /// A run of which nothing is tried.
    pub fn new() -> (probe: Self)
        ensures
            probe.tried == 0,
            !probe.stopped,
            probe.findings@ == Seq::<String>::empty(),
    {
        SizeProbe { tried: 0, stopped: false, findings: Vec::new() }
    }

    /// The size to try next.
    pub fn next(&self) -> (bytes: Option<usize>)
        ensures
            bytes == if self.stopped || self.tried >= PROBED_SIZES {
                None
            } else {
                Some(size_bytes(self.tried as int))
            },
    {
        if self.stopped || self.tried >= PROBED_SIZES {
            return None;
        }
        match self.tried {
            0 => Some(262_144),
            1 => Some(1_048_576),
            2 => Some(2_097_152),
            3 => Some(2_097_153),
            _ => Some(4_194_304),
        }
    }

    /// Notes what became of the message.
    pub fn sent(&mut self, append: &Result<i64, Refusal>)
        requires
            old(self).tried < PROBED_SIZES,
        ensures
            final(self).tried == old(self).tried + 1,
            final(self).stopped == old(self).stopped,
            text::texts(final(self).findings@) == text::texts(old(self).findings@).push(
                size_finding(old(self).tried as int, *append),
            ),
    {
        let mut finding = match self.tried {
            0 => "256KiB".to_owned(),
            1 => "1MiB".to_owned(),
            2 => "2MiB".to_owned(),
            3 => "2MiB+1".to_owned(),
            _ => "4MiB".to_owned(),
        };
        match append {
            Ok(size) => {
                finding.append(": OK (persisted ");
                text::push_signed(&mut finding, *size);
                finding.append(")");
            },
            Err(refusal) => {
                finding.append(": ");
                rapid::push_code(&mut finding, refusal);
                finding.append(" ");
                finding.append(refusal.message.as_str());
            },
        }
        self.findings.push(finding);
        self.tried = self.tried + 1;
        proof {
            assert(text::texts(self.findings@) =~= text::texts(old(self).findings@).push(
                size_finding(old(self).tried as int, *append),
            ));
        }
    }

    /// Gives the run up because the stream could not be opened again after a
    /// refusal.
    pub fn not_reopened(&mut self)
        ensures
            final(self).tried == old(self).tried,
            final(self).stopped,
            text::texts(final(self).findings@) == text::texts(old(self).findings@).push(
                "(could not reopen after rejection)"@,
            ),
    {
        self.findings.push("(could not reopen after rejection)".to_owned());
        self.stopped = true;
        proof {
            assert(text::texts(self.findings@) =~= text::texts(old(self).findings@).push(
                "(could not reopen after rejection)"@,
            ));
        }
    }

    /// The outcome: what was found is only reported.
    pub fn finish(&self) -> (result: ProbeResult)
        ensures
            rapid::outcome(result) == (true, text::joined(text::texts(self.findings@), "; "@)),
    {
        rapid::ok(text::join(&self.findings, "; "))
    }
}

/// Appends that the flush probe makes.
pub const FLUSHED_APPENDS: usize = 100;

/// A run of appends that are flushed one by one. It ends at the first failure.
pub struct FlushProbe {
    /// Durable tail after the last append.
    pub tail: i64,
    /// Appends that succeeded.
    pub completed: usize,
    /// The failure that ended the run.
    pub failure: Option<Refusal>,
}

impl FlushProbe {
    /// A run whose first append left this tail.
    pub fn new(tail: i64) -> (probe: Self)
        ensures
            probe == (FlushProbe { tail, completed: 1, failure: None }),
    {
        FlushProbe { tail, completed: 1, failure: None }
    }

    /// The offset of the next append, if there is one.
    pub fn next(&self) -> (write_offset: Option<i64>)
        ensures
            write_offset == if self.failure is None && self.completed < FLUSHED_APPENDS {
                Some(self.tail)
            } else {
                None
            },
    {
        if self.failure.is_none() && self.completed < FLUSHED_APPENDS {
            Some(self.tail)
        } else {
            None
        }
    }

    /// Notes what became of an append.
    pub fn sent(&mut self, append: Result<i64, Refusal>)
        requires
            old(self).completed < FLUSHED_APPENDS,
        ensures
            *final(self) == match append {
                Ok(tail) => FlushProbe {
                    tail,
                    completed: (old(self).completed + 1) as usize,
                    failure: old(self).failure,
                },
                Err(refusal) => FlushProbe {
                    tail: old(self).tail,
                    completed: old(self).completed,
                    failure: Some(refusal),
                },
            },
    {
        match append {
            Ok(tail) => {
                self.tail = tail;
                self.completed = self.completed + 1;
            },
            Err(refusal) => {
                self.failure = Some(refusal);
            },
        }
    }
}

/// Judges a run of flushed appends, which took `elapsed` at `rate` appends per
/// second. What was found is only reported.
pub fn judge_flush_rate(
    completed: usize,
    failure: &Option<Refusal>,
    elapsed: &str,
    rate: &str,
) -> (result: ProbeResult)
    ensures
        rapid::outcome(result) == (
            true,
            match failure {
                None => "100/100 per-record flushed appends on one session in "@ + elapsed@ + " ("@
                    + rate@ + "/s) -> flushes are NOT the rate-limited mutation"@,
                Some(refusal) => "throttled after "@ + text::decimal(completed as nat)
                    + "/100 flushed appends in "@ + elapsed@ + ": "@ + rapid::code_text(*refusal)
                    + " "@ + refusal.message@ + " -> per-record flushes ARE rate limited"@,
            },
        ),
{
    let mut detail: String;
    match failure {
        None => {
            detail = "100/100 per-record flushed appends on one session in ".to_owned();
            detail.append(elapsed);
            detail.append(" (");
            detail.append(rate);
            detail.append("/s) -> flushes are NOT the rate-limited mutation");
        },
        Some(refusal) => {
            detail = "throttled after ".to_owned();
            text::push_decimal(&mut detail, completed as u64);
            detail.append("/100 flushed appends in ");
            detail.append(elapsed);
            detail.append(": ");
            rapid::push_code(&mut detail, refusal);
            detail.append(" ");
            detail.append(refusal.message.as_str());
            detail.append(" -> per-record flushes ARE rate limited");
        },
    }
    rapid::ok(detail)
}

/// Metadata updates that the metadata probe makes.
pub const METADATA_ROUNDS: u32 = 2;

/// The base that a round stamps into the metadata.
pub fn stamped_base(round: u32) -> (base: u64)
    ensures
        base == 1000 + round,
{
    1000 + round as u64
}

/// A metadata update that failed.
pub fn judge_stamp_failure(round: u32, refusal: &Refusal) -> (result: ProbeResult)
    ensures
        rapid::outcome(result) == (
            false,
            "metadata stamp "@ + text::decimal(round as nat) + " failed: "@ + rapid::code_text(
                *refusal,
            ),
        ),
{
    let mut detail = "metadata stamp ".to_owned();
    text::push_decimal(&mut detail, round as u64);
    detail.append(" failed: ");
    rapid::push_code(&mut detail, refusal);
    rapid::bad(detail)
}

/// What the stream could do after a metadata update: the finding where it goes
/// on, the failed probe where it died.
pub fn judge_stamped_stream(round: u32, append: &Result<i64, Refusal>) -> (result: Result<
    String,
    ProbeResult,
>)
    ensures
        match *append {
            Ok(size) => result matches Ok(finding) && finding@ == "stamp "@ + text::decimal(
                round as nat,
            ) + ": session persisted through "@ + text::signed_decimal(size as int)
                + " after CAS"@,
            Err(refusal) => result matches Err(failed) && rapid::outcome(failed) == (
                false,
                "session died after metadata stamp "@ + text::decimal(round as nat) + ": "@
                    + rapid::code_text(refusal) + " "@ + refusal.message@,
            ),
        },
{
    match append {
        Ok(size) => {
            let mut finding = "stamp ".to_owned();
            text::push_decimal(&mut finding, round as u64);
            finding.append(": session persisted through ");
            text::push_signed(&mut finding, *size);
            finding.append(" after CAS");
            Ok(finding)
        },
        Err(refusal) => {
            let mut detail = "session died after metadata stamp ".to_owned();
            text::push_decimal(&mut detail, round as u64);
            detail.append(": ");
            rapid::push_code(&mut detail, refusal);
            detail.append(" ");
            detail.append(refusal.message.as_str());
            Err(rapid::bad(detail))
        },
    }
}

/// The percentiles of the sequential part are those of the round trips in
/// ascending order: half of them lie before the first, nine tenths before the
/// second, ninety-nine hundredths before the third.
pub proof fn law_percentiles_are_of_the_ordered_round_trips(
    round_trips: Vec<u64>,
    summary: String,
    ordered: Seq<u64>,
)
    requires
        round_trips@.len() == 200,
        call_ensures(summarize_sequential, (round_trips,), summary),
        ordered.to_multiset() == round_trips@.to_multiset(),
        forall|i: int, j: int| 0 <= i <= j < ordered.len() ==> ordered[i] <= ordered[j],
    ensures
        summary@ == "sequential flush RTT us: p50="@ + text::decimal(ordered[200int / 2] as nat)
            + " p90="@ + text::decimal(ordered[200int * 9 / 10] as nat) + " p99="@ + text::decimal(
            ordered[200int * 99 / 100] as nat,
        ),
{
    let order = |a: u64, b: u64| a <= b;
    round_trips@.lemma_sort_by_ensures(order);
    vstd::seq_lib::lemma_sorted_unique(ordered, ascending(round_trips@), order);
}

/// A burst is sixteen messages of four kibibytes, back to back from the tail
/// to its end, of which at least the last is flushed.
pub proof fn law_bursts_are_back_to_back(
    tail: i64,
    flush_each: bool,
    messages: Vec<BurstMessage>,
    end: i64,
)
    requires
        tail + 65536 <= i64::MAX,
        call_ensures(burst_messages, (tail, flush_each), messages),
        call_ensures(burst_end, (tail,), end),
    ensures
        messages@.len() == 16,
        messages@[0].write_offset == tail,
        forall|i: int|
            0 < i < 16 ==> (#[trigger] messages@[i]).write_offset == messages@[i - 1].write_offset
                + 4096,
        end == messages@[15].write_offset + 4096,
        messages@[15].flush,
        forall|i: int| 0 <= i < 15 ==> (#[trigger] messages@[i]).flush == flush_each,
{
}

/// A burst remembers when its first acknowledgment came, and is over with the
/// first acknowledgment that reaches its end.
pub proof fn law_bursts_end_at_their_tail(
    end: i64,
    fresh: BurstAcks,
    acks: &mut BurstAcks,
    first_size: i64,
    first_at: u64,
    first_last: Option<u64>,
    later: &mut BurstAcks,
    size: i64,
    at: u64,
    last: Option<u64>,
)
    requires
        call_ensures(BurstAcks::new, (end,), fresh),
        *old(acks) == fresh,
        call_ensures(BurstAcks::acknowledged, (acks, first_size, first_at), first_last),
        *old(later) == *final(acks),
        call_ensures(BurstAcks::acknowledged, (later, size, at), last),
    ensures
        fresh.first is None,
        final(acks).first == Some(first_at),
        final(later).first == Some(first_at),
        first_last is Some <==> first_size >= end,
        last is Some <==> size >= end,
        last is Some ==> last->0 == at,
        first_last is Some ==> first_last->0 == first_at,
{
}

/// The sizes that are tried grow from a quarter of a mebibyte to four, with
/// one byte over two mebibytes among them, and each is tried once.
pub proof fn law_sizes_are_tried_once_each(
    fresh: SizeProbe,
    probe: &mut SizeProbe,
    bytes: Option<usize>,
    append: &Result<i64, Refusal>,
    last: &mut SizeProbe,
    none: Option<usize>,
)
    requires
        call_ensures(SizeProbe::new, (), fresh),
        old(probe).tried < 5,
        call_ensures(SizeProbe::next, (&*old(probe),), bytes),
        call_ensures(SizeProbe::sent, (probe, append), ()),
        call_ensures(SizeProbe::not_reopened, (last,), ()),
        call_ensures(SizeProbe::next, (&*final(last),), none),
    ensures
        fresh.tried == 0 && !fresh.stopped && fresh.findings@.len() == 0,
        bytes is Some <==> !old(probe).stopped,
        bytes is Some && old(probe).tried == 0 ==> bytes->0 == 256 * 1024,
        bytes is Some && old(probe).tried == 1 ==> bytes->0 == 1024 * 1024,
        bytes is Some && old(probe).tried == 2 ==> bytes->0 == 2 * 1024 * 1024,
        bytes is Some && old(probe).tried == 3 ==> bytes->0 == 2 * 1024 * 1024 + 1,
        bytes is Some && old(probe).tried == 4 ==> bytes->0 == 4 * 1024 * 1024,
        final(probe).tried == old(probe).tried + 1,
        final(probe).stopped == old(probe).stopped,
        final(probe).findings@.len() == old(probe).findings@.len() + 1,
        forall|i: int|
            0 <= i < old(probe).findings@.len() ==> (#[trigger] final(probe).findings@[i])@
                == old(probe).findings@[i]@,
        none is None,
        final(last).findings@.len() == old(last).findings@.len() + 1,
        final(last).findings@.last()@ == "(could not reopen after rejection)"@,
{
    let before = text::texts(old(probe).findings@);
    let after = text::texts(final(probe).findings@);
    assert(after.len() == before.len() + 1);
    assert(before.len() == old(probe).findings@.len());
    assert(after.len() == final(probe).findings@.len());
    assert forall|i: int| 0 <= i < old(probe).findings@.len() implies (#[trigger] final(probe).findings@[i])@ == old(probe).findings@[i]@ by {
        assert(after[i] == before[i]);
        assert(after[i] == final(probe).findings@[i]@);
        assert(before[i] == old(probe).findings@[i]@);
    }
    let closed = text::texts(final(last).findings@);
    assert(closed.len() == final(last).findings@.len());
    assert(text::texts(old(last).findings@).len() == old(last).findings@.len());
    assert(closed.last() == final(last).findings@.last()@);
}

/// What is noted of a size that was tried names the size and what became of
/// it.
pub proof fn law_size_findings_name_the_size(
    probe: &mut SizeProbe,
    append: &Result<i64, Refusal>,
)
    requires
        old(probe).tried < 5,
        call_ensures(SizeProbe::sent, (probe, append), ()),
    ensures
        old(probe).tried == 0 ==> "256KiB: "@.is_prefix_of(final(probe).findings@.last()@),
        old(probe).tried == 1 ==> "1MiB: "@.is_prefix_of(final(probe).findings@.last()@),
        old(probe).tried == 2 ==> "2MiB: "@.is_prefix_of(final(probe).findings@.last()@),
        old(probe).tried == 3 ==> "2MiB+1: "@.is_prefix_of(final(probe).findings@.last()@),
        old(probe).tried == 4 ==> "4MiB: "@.is_prefix_of(final(probe).findings@.last()@),
{
    reveal_strlit("256KiB");
    reveal_strlit("1MiB");
    reveal_strlit("2MiB");
    reveal_strlit("2MiB+1");
    reveal_strlit("4MiB");
    reveal_strlit("256KiB: ");
    reveal_strlit("1MiB: ");
    reveal_strlit("2MiB: ");
    reveal_strlit("2MiB+1: ");
    reveal_strlit("4MiB: ");
    reveal_strlit(": ");
    reveal_strlit(": OK (persisted ");
    let label = size_label(old(probe).tried as int);
    let start = label + ": "@;
    let after = text::texts(final(probe).findings@);
    let found = final(probe).findings@.last()@;
    assert(after.len() == final(probe).findings@.len());
    assert(after.last() == found);
    assert(found == size_finding(old(probe).tried as int, *append));
    assert(start =~= found.subrange(0, start.len() as int));
    assert(label == "256KiB"@ ==> start =~= "256KiB: "@);
    assert(label == "1MiB"@ ==> start =~= "1MiB: "@);
    assert(label == "2MiB"@ ==> start =~= "2MiB: "@);
    assert(label == "2MiB+1"@ ==> start =~= "2MiB+1: "@);
    assert(label == "4MiB"@ ==> start =~= "4MiB: "@);
}

/// A run of flushed appends goes on at its tail until a hundred succeeded or
/// one failed.
pub proof fn law_flushed_appends_follow_each_other(
    tail: i64,
    fresh: FlushProbe,
    probe: &mut FlushProbe,
    append: Result<i64, Refusal>,
    write_offset: Option<i64>,
)
    requires
        call_ensures(FlushProbe::new, (tail,), fresh),
        old(probe).completed < 100,
        call_ensures(FlushProbe::sent, (probe, append), ()),
        call_ensures(FlushProbe::next, (&*final(probe),), write_offset),
    ensures
        fresh.tail == tail && fresh.completed == 1 && fresh.failure is None,
        append is Ok ==> final(probe).tail == append->Ok_0 && final(probe).completed == old(probe).completed + 1 && final(probe).failure == old(probe).failure,
        append is Err ==> final(probe).failure == Some(append->Err_0) && final(probe).completed
            == old(probe).completed && final(probe).tail == old(probe).tail,
        write_offset is Some <==> append is Ok && old(probe).failure is None && old(probe).completed < 99,
        write_offset is Some ==> write_offset->0 == append->Ok_0,
{
}

/// Latency and flush rate are only reported: neither can fail.
pub proof fn law_rates_are_only_reported(
    sequential: &str,
    first: Option<u64>,
    last: u64,
    group: u64,
    latency: ProbeResult,
    completed: usize,
    failure: &Option<Refusal>,
    elapsed: &str,
    rate: &str,
    flushes: ProbeResult,
    sizes: &SizeProbe,
    tried: ProbeResult,
)
    requires
        call_ensures(judge_latency, (sequential, first, last, group), latency),
        call_ensures(judge_flush_rate, (completed, failure, elapsed, rate), flushes),
        call_ensures(SizeProbe::finish, (sizes,), tried),
    ensures
        latency.pass && flushes.pass && tried.pass,
        sequential@.is_prefix_of(latency.detail@),
{
    assert(sequential@ =~= latency.detail@.subrange(0, sequential@.len() as int));
}

/// A metadata round stamps its own base; it fails if the update fails, and
/// afterwards if and only if the stream could not persist any more.
pub proof fn law_stamps_must_not_end_the_stream(
    round: u32,
    refusal: &Refusal,
    append: &Result<i64, Refusal>,
    base: u64,
    unstamped: ProbeResult,
    stream: Result<String, ProbeResult>,
)
    requires
        call_ensures(stamped_base, (round,), base),
        call_ensures(judge_stamp_failure, (round, refusal), unstamped),
        call_ensures(judge_stamped_stream, (round, append), stream),
    ensures
        base - round == 1000,
        !unstamped.pass,
        stream is Ok <==> *append is Ok,
        stream is Err ==> !stream->Err_0.pass,
{
}

} // verus!
