//! Verdicts of the probes that hold an append stream open.

use crate::rapid;
use crate::rapid::{ProbeResult, Refusal};
use crate::status;
use crate::text;
use vstd::prelude::*;

verus! {

/// A probe that a refusal put an end to.
pub fn refused(what: &str, refusal: &Refusal) -> (result: ProbeResult)
    ensures
        rapid::outcome(result) == (false, what@ + ": "@ + rapid::code_text(*refusal)),
{
    let mut detail = what.to_owned();
    detail.append(": ");
    rapid::push_code(&mut detail, refusal);
    rapid::bad(detail)
}

/// How the outcome of an append is written in a trace.
pub open spec fn trace_text(append: Result<i64, Refusal>) -> Seq<char> {
    match append {
        Ok(size) => "Ok("@ + text::signed_decimal(size as int) + ")"@,
        Err(refusal) => "Err("@ + rapid::code_name(refusal.code) + ")"@,
    }
}

/// The trace of a takeover.
pub open spec fn takeover_trace(tail: i64, takeover: Result<i64, Refusal>) -> Seq<char> {
    "[s1_tail="@ + text::signed_decimal(tail as int) + " s2="@ + trace_text(takeover)
        + " s1_retry_offset="@ + text::signed_decimal(tail as int) + "]"@
}

fn push_takeover_trace(out: &mut String, tail: i64, takeover: &Result<i64, Refusal>)
    ensures
        final(out)@ == old(out)@ + takeover_trace(tail, *takeover),
{
    out.append("[s1_tail=");
    text::push_signed(out, tail);
    out.append(" s2=");
    let ghost before = out@;
    match takeover {
        Ok(size) => {
            out.append("Ok(");
            text::push_signed(out, *size);
            out.append(")");
        },
        Err(refusal) => {
            out.append("Err(");
            out.append(rapid::status_code_name(refusal.code));
            out.append(")");
        },
    }
    proof {
        assert(out@ =~= before + trace_text(*takeover));
    }
    out.append(" s1_retry_offset=");
    text::push_signed(out, tail);
    out.append("]");
    proof {
        assert(out@ =~= old(out)@ + takeover_trace(tail, *takeover));
    }
}

/// The verdict on a takeover that must fence the stream before it.
pub open spec fn takeover_verdict(
    tail: i64,
    takeover: Result<i64, Refusal>,
    deposed: Result<i64, Refusal>,
) -> (bool, Seq<char>) {
    match (takeover, deposed) {
        (Ok(_), Err(refusal)) => (
            true,
            "S2 takeover succeeded; S1's append at its own believed tail was rejected -> "@
                + rapid::code_text(refusal) + " (deposed writer cannot persist) "@
                + takeover_trace(tail, takeover),
        ),
        (Ok(_), Ok(size)) => (
            false,
            "SPLIT-BRAIN: after S2 takeover, S1 STILL persisted to "@ + text::signed_decimal(
                size as int,
            )
                + " at its stale tail — GCS did NOT fence the prior stream; D1's takeover fence is INVALID "@
                + takeover_trace(tail, takeover),
        ),
        (Err(refusal), _) => (
            false,
            "S2 takeover open itself failed -> "@ + rapid::code_text(refusal)
                + " (takeover may be error+retry, not silent revoke) "@ + takeover_trace(
                tail,
                takeover,
            ),
        ),
    }
}

/// Judges a takeover by a second stream, and what the deposed stream could
/// still do at the tail it believed in: it must not persist anything.
pub fn judge_takeover(
    tail: i64,
    takeover: &Result<i64, Refusal>,
    deposed: &Result<i64, Refusal>,
) -> (result: ProbeResult)
    ensures
        rapid::outcome(result) == takeover_verdict(tail, *takeover, *deposed),
{
    match takeover {
        Ok(_) => match deposed {
            Err(refusal) => {
                let mut detail =
                    "S2 takeover succeeded; S1's append at its own believed tail was rejected -> ".to_owned();
                rapid::push_code(&mut detail, refusal);
                detail.append(" (deposed writer cannot persist) ");
                push_takeover_trace(&mut detail, tail, takeover);
                rapid::ok(detail)
            },
            Ok(size) => {
                let mut detail =
                    "SPLIT-BRAIN: after S2 takeover, S1 STILL persisted to ".to_owned();
                text::push_signed(&mut detail, *size);
                detail.append(
                    " at its stale tail — GCS did NOT fence the prior stream; D1's takeover fence is INVALID ",
                );
                push_takeover_trace(&mut detail, tail, takeover);
                rapid::bad(detail)
            },
        },
        Err(refusal) => {
            let mut detail = "S2 takeover open itself failed -> ".to_owned();
            rapid::push_code(&mut detail, refusal);
            detail.append(" (takeover may be error+retry, not silent revoke) ");
            push_takeover_trace(&mut detail, tail, takeover);
            rapid::bad(detail)
        },
    }
}

/// The verdict on a metadata update under an open stream.
pub open spec fn open_stream_verdict(tail: i64, after: Result<i64, Refusal>) -> (bool, Seq<char>) {
    match after {
        Ok(size) => (
            true,
            "metageneration bumped under an open stream; S1 still persisted to "@
                + text::signed_decimal(size as int)
                + " — metadata CAS does NOT fence an open handle (hence takeover is required) "@
                + "[s1_tail="@ + text::signed_decimal(tail as int) + "]"@,
        ),
        Err(refusal) => (
            false,
            "S1 was unexpectedly fenced by the metadata CAS -> "@ + rapid::code_text(refusal)
                + " "@ + "[s1_tail="@ + text::signed_decimal(tail as int) + "]"@,
        ),
    }
}

/// Judges what an open stream could still do after a metadata update: it must
/// not be fenced by it.
pub fn judge_open_stream(tail: i64, after: &Result<i64, Refusal>) -> (result: ProbeResult)
    ensures
        rapid::outcome(result) == open_stream_verdict(tail, *after),
{
    match after {
        Ok(size) => {
            let mut detail =
                "metageneration bumped under an open stream; S1 still persisted to ".to_owned();
            text::push_signed(&mut detail, *size);
            detail.append(
                " — metadata CAS does NOT fence an open handle (hence takeover is required) ",
            );
            detail.append("[s1_tail=");
            text::push_signed(&mut detail, tail);
            detail.append("]");
            rapid::ok(detail)
        },
        Err(refusal) => {
            let mut detail = "S1 was unexpectedly fenced by the metadata CAS -> ".to_owned();
            rapid::push_code(&mut detail, refusal);
            detail.append(" ");
            detail.append("[s1_tail=");
            text::push_signed(&mut detail, tail);
            detail.append("]");
            rapid::bad(detail)
        },
    }
}

/// The verdict on an append after finalization.
pub open spec fn finalized_verdict(append: Result<i64, Refusal>) -> (bool, Seq<char>) {
    match append {
        Err(refusal) => if refusal.code == status::GRPC_FAILED_PRECONDITION {
            (true, "append after finalization rejected -> "@ + rapid::code_text(refusal))
        } else {
            (
                false,
                "append after finalization rejected with unexpected status "@
                    + rapid::code_text(refusal),
            )
        },
        Ok(size) => (
            false,
            "append after finalization unexpectedly persisted through "@ + text::signed_decimal(
                size as int,
            ),
        ),
    }
}

/// Judges an append after finalization: a failed precondition must refuse it.
pub fn judge_finalized(append: &Result<i64, Refusal>) -> (result: ProbeResult)
    ensures
        rapid::outcome(result) == finalized_verdict(*append),
{
    match append {
        Err(refusal) => if refusal.code == status::GRPC_FAILED_PRECONDITION {
            let mut detail = "append after finalization rejected -> ".to_owned();
            rapid::push_code(&mut detail, refusal);
            rapid::ok(detail)
        } else {
            let mut detail =
                "append after finalization rejected with unexpected status ".to_owned();
            rapid::push_code(&mut detail, refusal);
            rapid::bad(detail)
        },
        Ok(size) => {
            let mut detail = "append after finalization unexpectedly persisted through ".to_owned();
            text::push_signed(&mut detail, *size);
            rapid::bad(detail)
        },
    }
}

/// Whether a name is among the names.
pub open spec fn listed(names: Seq<String>, name: Seq<char>) -> bool {
    exists|i: int| 0 <= i < names.len() && (#[trigger] names[i])@ == name
}

fn is_listed(names: &Vec<String>, name: &String) -> (found: bool)
    ensures
        found == listed(names@, name@),
{
    let mut i: usize = 0;
    while i < names.len()
        invariant
            i <= names@.len(),
            forall|j: int| 0 <= j < i ==> (#[trigger] names@[j])@ != name@,
        decreases names@.len() - i,
    {
        if names[i] == *name {
            return true;
        }
        i = i + 1;
    }
    false
}

/// The verdict on a listing right after two creations.
pub open spec fn listing_verdict(
    names: Seq<String>,
    first: Seq<char>,
    second: Seq<char>,
    prefix: Seq<char>,
    rendered: Seq<char>,
) -> (bool, Seq<char>) {
    if listed(names, first) && listed(names, second) {
        (true, "both newly created objects were immediately listed under "@ + prefix)
    } else {
        (false, "listing omitted a newly created object: "@ + rendered)
    }
}

/// Judges a listing right after two creations: both objects must be in it.
/// `rendered` is how the names are shown where one is missing.
pub fn judge_listing(
    names: &Vec<String>,
    first: &String,
    second: &String,
    prefix: &str,
    rendered: &str,
) -> (result: ProbeResult)
    ensures
        rapid::outcome(result) == listing_verdict(names@, first@, second@, prefix@, rendered@),
{
    if is_listed(names, first) && is_listed(names, second) {
        let mut detail = "both newly created objects were immediately listed under ".to_owned();
        detail.append(prefix);
        rapid::ok(detail)
    } else {
        let mut detail = "listing omitted a newly created object: ".to_owned();
        detail.append(rendered);
        rapid::bad(detail)
    }
}

/// How the outcome of a read is written.
pub open spec fn read_text(read: Result<u64, Refusal>) -> Seq<char> {
    match read {
        Ok(bytes) => text::decimal(bytes as nat) + " bytes"@,
        Err(refusal) => "error "@ + rapid::code_text(refusal),
    }
}

fn push_read(out: &mut String, read: &Result<u64, Refusal>)
    ensures
        final(out)@ == old(out)@ + read_text(*read),
{
    match read {
        Ok(bytes) => {
            text::push_decimal(out, *bytes);
            out.append(" bytes");
        },
        Err(refusal) => {
            out.append("error ");
            rapid::push_code(out, refusal);
        },
    }
    proof {
        assert(out@ =~= old(out)@ + read_text(*read));
    }
}

/// The verdict on reads of an object before and after its finalization.
pub open spec fn reads_verdict(
    tail: i64,
    open_read: Result<u64, Refusal>,
    open_size: i64,
    final_read: Result<u64, Refusal>,
) -> (bool, Seq<char>) {
    (
        final_read matches Ok(bytes) && bytes == tail,
        "persisted "@ + text::signed_decimal(tail as int)
            + "B flushed; OPEN object: ReadObject -> "@ + read_text(open_read)
            + ", GetObject.size -> "@ + text::signed_decimal(open_size as int)
            + "; FINALIZED: ReadObject -> "@ + read_text(final_read),
    )
}

/// Judges the reads of an object: once it is finalized, all bytes that were
/// persisted must be readable. What is visible before is only reported.
pub fn judge_reads(
    tail: i64,
    open_read: &Result<u64, Refusal>,
    open_size: i64,
    final_read: &Result<u64, Refusal>,
) -> (result: ProbeResult)
    ensures
        rapid::outcome(result) == reads_verdict(tail, *open_read, open_size, *final_read),
{
    let mut detail = "persisted ".to_owned();
    text::push_signed(&mut detail, tail);
    detail.append("B flushed; OPEN object: ReadObject -> ");
    push_read(&mut detail, open_read);
    detail.append(", GetObject.size -> ");
    text::push_signed(&mut detail, open_size);
    detail.append("; FINALIZED: ReadObject -> ");
    push_read(&mut detail, final_read);
    let complete: bool = match final_read {
        Ok(bytes) => tail >= 0 && *bytes == tail as u64,
        Err(_) => false,
    };
    if complete {
        rapid::ok(detail)
    } else {
        rapid::bad(detail)
    }
}

/// How long a probe waits for one response.
pub const READ_TIMEOUT_SECS: u64 = 20;

/// The refusal that stands for a stream closed too early.
pub fn stream_closed() -> (refusal: Refusal)
    ensures
        refusal.code == status::GRPC_ABORTED,
        refusal.message@ == "stream closed before reaching the expected offset"@,
{
    Refusal {
        code: status::GRPC_ABORTED,
        message: "stream closed before reaching the expected offset".to_owned(),
    }
}

/// The refusal that stands for a stream that neither acknowledges nor ends.
pub fn read_timed_out(expected: i64) -> (refusal: Refusal)
    ensures
        refusal.code == status::GRPC_DEADLINE_EXCEEDED,
        refusal.message@ == "no persisted-size >= "@ + text::signed_decimal(expected as int)
            + " within "@ + text::decimal(READ_TIMEOUT_SECS as nat)
            + "s (stream neither acked the write nor aborted)"@,
{
    let mut message = "no persisted-size >= ".to_owned();
    text::push_signed(&mut message, expected);
    message.append(" within ");
    text::push_decimal(&mut message, READ_TIMEOUT_SECS);
    message.append("s (stream neither acked the write nor aborted)");
    Refusal { code: status::GRPC_DEADLINE_EXCEEDED, message }
}

/// The verdict on a creating stream that is finalized.
pub open spec fn created_verdict(finalized: bool, size: i64, tail: i64) -> (bool, Seq<char>) {
    if finalized && size == tail {
        (
            true,
            "one create RPC appended and finalized "@ + text::signed_decimal(tail as int)
                + " bytes through continuations"@,
        )
    } else {
        (
            false,
            "finalized resource reported size "@ + text::signed_decimal(size as int)
                + " at expected tail "@ + text::signed_decimal(tail as int),
        )
    }
}

/// Judges the object that a creating stream reported at its end: it must be
/// finalized at the tail.
pub fn judge_created(finalized: bool, size: i64, tail: i64) -> (result: ProbeResult)
    ensures
        rapid::outcome(result) == created_verdict(finalized, size, tail),
{
    if finalized && size == tail {
        let mut detail = "one create RPC appended and finalized ".to_owned();
        text::push_signed(&mut detail, tail);
        detail.append(" bytes through continuations");
        rapid::ok(detail)
    } else {
        let mut detail = "finalized resource reported size ".to_owned();
        text::push_signed(&mut detail, size);
        detail.append(" at expected tail ");
        text::push_signed(&mut detail, tail);
        rapid::bad(detail)
    }
}

/// Judges the first response of a creating stream: it must report an empty
/// durable tail.
pub fn judge_opening(size: Option<i64>) -> (result: Option<ProbeResult>)
    ensures
        size == Some(0i64) ==> result is None,
        size != Some(0i64) ==> (result matches Some(failed) && rapid::outcome(failed) == (
            false,
            "appendable create did not report an empty durable tail"@,
        )),
{
    let empty: bool = match size {
        Some(bytes) => bytes == 0,
        None => false,
    };
    if empty {
        None
    } else {
        Some(rapid::bad("appendable create did not report an empty durable tail".to_owned()))
    }
}

/// A refused probe has failed, and says at what and by which refusal.
pub proof fn law_refused_probes_fail(
    what: &str,
    refusal: &Refusal,
    shown: String,
    result: ProbeResult,
)
    requires
        call_ensures(refused, (what, refusal), result),
        call_ensures(rapid::code_of, (refusal,), shown),
    ensures
        !result.pass,
        result.detail@ == what@ + ": "@ + shown@,
{
}

/// A takeover passes if and only if it succeeded and the deposed stream could
/// persist nothing any more.
pub proof fn law_takeovers_depose_the_first_stream(
    tail: i64,
    takeover: &Result<i64, Refusal>,
    deposed: &Result<i64, Refusal>,
    result: ProbeResult,
)
    requires
        call_ensures(judge_takeover, (tail, takeover, deposed), result),
    ensures
        result.pass <==> *takeover is Ok && *deposed is Err,
{
}

/// An open stream passes if and only if it could still persist after a
/// metadata update.
pub proof fn law_updates_spare_an_open_stream(
    tail: i64,
    after: &Result<i64, Refusal>,
    result: ProbeResult,
)
    requires
        call_ensures(judge_open_stream, (tail, after), result),
    ensures
        result.pass <==> *after is Ok,
{
}

/// Finalization passes if and only if a failed precondition refused the append
/// after it.
pub proof fn law_finalized_objects_refuse_appends(
    append: &Result<i64, Refusal>,
    result: ProbeResult,
)
    requires
        call_ensures(judge_finalized, (append,), result),
    ensures
        result.pass <==> *append is Err && append->Err_0.code == 9,
{
}

/// A listing passes if and only if both new objects are in it.
pub proof fn law_listings_show_new_objects(
    names: &Vec<String>,
    first: &String,
    second: &String,
    prefix: &str,
    rendered: &str,
    result: ProbeResult,
)
    requires
        call_ensures(judge_listing, (names, first, second, prefix, rendered), result),
    ensures
        result.pass <==> names@.map_values(|name: String| name@).contains(first@)
            && names@.map_values(|name: String| name@).contains(second@),
{
    let all = names@.map_values(|name: String| name@);
    assert(all.len() == names@.len());
    assert(forall|i: int| 0 <= i < all.len() ==> #[trigger] all[i] == names@[i]@);
    if all.contains(first@) {
        let i = choose|i: int| 0 <= i < all.len() && all[i] == first@;
        assert(names@[i]@ == first@);
    }
    if all.contains(second@) {
        let i = choose|i: int| 0 <= i < all.len() && all[i] == second@;
        assert(names@[i]@ == second@);
    }
    if listed(names@, first@) {
        let i = choose|i: int| 0 <= i < names@.len() && (#[trigger] names@[i])@ == first@;
        assert(all[i] == first@);
    }
    if listed(names@, second@) {
        let i = choose|i: int| 0 <= i < names@.len() && (#[trigger] names@[i])@ == second@;
        assert(all[i] == second@);
    }
}

/// Reads pass if and only if the finalized object gave every byte that was
/// persisted.
pub proof fn law_finalized_objects_are_read_whole(
    tail: i64,
    open_read: &Result<u64, Refusal>,
    open_size: i64,
    final_read: &Result<u64, Refusal>,
    result: ProbeResult,
)
    requires
        call_ensures(judge_reads, (tail, open_read, open_size, final_read), result),
    ensures
        result.pass <==> *final_read is Ok && final_read->Ok_0 == tail,
{
}

/// A creation passes if and only if the object was finalized at the tail, and
/// its opening if and only if it reported an empty tail.
pub proof fn law_creations_begin_empty_and_end_at_the_tail(
    finalized: bool,
    size: i64,
    tail: i64,
    created: ProbeResult,
    opened: Option<i64>,
    opening: Option<ProbeResult>,
)
    requires
        call_ensures(judge_created, (finalized, size, tail), created),
        call_ensures(judge_opening, (opened,), opening),
    ensures
        created.pass <==> finalized && size == tail,
        opening is None <==> opened is Some && opened->0 == 0,
        opening is Some ==> !opening->0.pass,
{
}

/// A stream that ends early counts as aborted; one that neither acknowledges
/// nor ends counts as past its deadline of twenty seconds.
pub proof fn law_silent_streams_are_refusals(
    expected: i64,
    closed: Refusal,
    late: Refusal,
    shown: String,
)
    requires
        call_ensures(stream_closed, (), closed),
        call_ensures(read_timed_out, (expected,), late),
        call_ensures(text::to_decimal, (20u64,), shown),
    ensures
        closed.code == 10,
        late.code == 4,
        late.message@ == "no persisted-size >= "@ + text::signed_decimal(expected as int)
            + " within "@ + shown@ + "s (stream neither acked the write nor aborted)"@,
{
}

} // verus!
