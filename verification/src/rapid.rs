//! Verdicts of the live-bucket probe suite.

use crate::pack;
use crate::probe::GenerationZeroTakeoverProbeResult;
use crate::session;
use crate::session::WriteStatus;
use crate::status;
use crate::text;
use crate::transport::TransportCode;
use vstd::prelude::*;

verus! {

/// A refusal of the service.
#[derive(Debug)]
pub struct Refusal {
    /// Number of the status code.
    pub code: i32,
    /// Message of the status.
    pub message: String,
}

/// The outcome of one probe.
#[derive(Debug)]
pub struct ProbeResult {
    /// Whether the service behaved as expected.
    pub pass: bool,
    /// What was observed.
    pub detail: String,
}

/// The outcome as plain values.
pub open spec fn outcome(result: ProbeResult) -> (bool, Seq<char>) {
    (result.pass, result.detail@)
}

/// One data message of a probe.
#[derive(Clone, Copy, Debug, PartialEq, Eq, Structural)]
pub struct DataMessage {
    /// Offset that the message is written at.
    pub write_offset: i64,
    /// Checksum of its bytes.
    pub crc32c: u32,
    /// Whether it is flushed.
    pub flush: bool,
    /// Whether its durable tail is reported: that of a flushed message is.
    pub state_lookup: bool,
}

/// The message that carries these bytes.
pub fn data_message(write_offset: i64, data: &[u8], flush: bool) -> (message: DataMessage)
    ensures
        message == (DataMessage {
            write_offset,
            crc32c: pack::crc32c_of(data@),
            flush,
            state_lookup: flush,
        }),
{
    DataMessage { write_offset, crc32c: pack::checksum(data), flush, state_lookup: flush }
}

/// A probe that matched its expectation.
pub fn ok(detail: String) -> (result: ProbeResult)
    ensures
        outcome(result) == (true, detail@),
{
    ProbeResult { pass: true, detail }
}

/// A probe that did not match its expectation.
pub fn bad(detail: String) -> (result: ProbeResult)
    ensures
        outcome(result) == (false, detail@),
{
    ProbeResult { pass: false, detail }
}

/// The name of a status code. A number outside the known range counts as
/// unknown.
pub open spec fn code_name(code: i32) -> Seq<char> {
    if code == 0 {
        "Ok"@
    } else if code == 1 {
        "Cancelled"@
    } else if code == 3 {
        "InvalidArgument"@
    } else if code == 4 {
        "DeadlineExceeded"@
    } else if code == 5 {
        "NotFound"@
    } else if code == 6 {
        "AlreadyExists"@
    } else if code == 7 {
        "PermissionDenied"@
    } else if code == 8 {
        "ResourceExhausted"@
    } else if code == 9 {
        "FailedPrecondition"@
    } else if code == 10 {
        "Aborted"@
    } else if code == 11 {
        "OutOfRange"@
    } else if code == 12 {
        "Unimplemented"@
    } else if code == 13 {
        "Internal"@
    } else if code == 14 {
        "Unavailable"@
    } else if code == 15 {
        "DataLoss"@
    } else if code == 16 {
        "Unauthenticated"@
    } else {
        "Unknown"@
    }
}

/// The name of a status code.
pub fn status_code_name(code: i32) -> (name: &'static str)
    ensures
        name@ == code_name(code),
{
    match code {
        0 => "Ok",
        1 => "Cancelled",
        3 => "InvalidArgument",
        4 => "DeadlineExceeded",
        5 => "NotFound",
        6 => "AlreadyExists",
        7 => "PermissionDenied",
        8 => "ResourceExhausted",
        9 => "FailedPrecondition",
        10 => "Aborted",
        11 => "OutOfRange",
        12 => "Unimplemented",
        13 => "Internal",
        14 => "Unavailable",
        15 => "DataLoss",
        16 => "Unauthenticated",
        _ => "Unknown",
    }
}

/// The text of a refusal: the code's name, and the message in brackets.
pub open spec fn code_text(refusal: Refusal) -> Seq<char> {
    code_name(refusal.code) + " ("@ + refusal.message@ + ")"@
}

/// Appends the text of a refusal.
pub fn push_code(out: &mut String, refusal: &Refusal)
    ensures
        final(out)@ == old(out)@ + code_text(*refusal),
{
    out.append(status_code_name(refusal.code));
    out.append(" (");
    out.append(refusal.message.as_str());
    out.append(")");
    proof {
        assert(out@ =~= old(out)@ + code_text(*refusal));
    }
}

/// The text of a refusal.
pub fn code_of(refusal: &Refusal) -> (text: String)
    ensures
        text@ == code_text(*refusal),
{
    let mut out = String::new();
    push_code(&mut out, refusal);
    proof {
        assert(Seq::<char>::empty() + code_text(*refusal) =~= code_text(*refusal));
    }
    out
}

/// The name of a classification.
pub open spec fn classification_name(code: TransportCode) -> Seq<char> {
    match code {
        TransportCode::NotFound => "NOT_FOUND"@,
        TransportCode::AlreadyExists => "ALREADY_EXISTS"@,
        TransportCode::InvalidArgument => "INVALID_ARGUMENT"@,
        TransportCode::FailedPrecondition => "FAILED_PRECONDITION"@,
        TransportCode::Aborted => "ABORTED"@,
        TransportCode::OutOfRange => "OUT_OF_RANGE"@,
        TransportCode::ResourceExhausted => "RESOURCE_EXHAUSTED"@,
        TransportCode::Unimplemented => "UNIMPLEMENTED"@,
        TransportCode::DataLoss => "DATA_LOSS"@,
        TransportCode::Ambiguous => "AMBIGUOUS"@,
        TransportCode::Unauthenticated => "UNAUTHENTICATED"@,
        TransportCode::PermissionDenied => "PERMISSION_DENIED"@,
        TransportCode::Unavailable => "UNAVAILABLE"@,
        TransportCode::DeadlineExceeded => "DEADLINE_EXCEEDED"@,
        TransportCode::Internal => "INTERNAL"@,
    }
}

/// The name of a classification.
pub fn transport_code_name(code: TransportCode) -> (name: &'static str)
    ensures
        name@ == classification_name(code),
{
    match code {
        TransportCode::NotFound => "NOT_FOUND",
        TransportCode::AlreadyExists => "ALREADY_EXISTS",
        TransportCode::InvalidArgument => "INVALID_ARGUMENT",
        TransportCode::FailedPrecondition => "FAILED_PRECONDITION",
        TransportCode::Aborted => "ABORTED",
        TransportCode::OutOfRange => "OUT_OF_RANGE",
        TransportCode::ResourceExhausted => "RESOURCE_EXHAUSTED",
        TransportCode::Unimplemented => "UNIMPLEMENTED",
        TransportCode::DataLoss => "DATA_LOSS",
        TransportCode::Ambiguous => "AMBIGUOUS",
        TransportCode::Unauthenticated => "UNAUTHENTICATED",
        TransportCode::PermissionDenied => "PERMISSION_DENIED",
        TransportCode::Unavailable => "UNAVAILABLE",
        TransportCode::DeadlineExceeded => "DEADLINE_EXCEEDED",
        TransportCode::Internal => "INTERNAL",
    }
}

/// The line or lines that report a probe.
pub open spec fn report_text(name: Seq<char>, result: Result<ProbeResult, String>) -> Seq<char> {
    match result {
        Ok(probe) => (if probe.pass {
            "[PASS] "@
        } else {
            "[FAIL] "@
        }) + name + "\n      "@ + probe.detail@,
        Err(reason) => "[ERR ] "@ + name + "\n      probe could not run: "@ + reason@,
    }
}

/// Reports a probe: the text to print, and whether it counts as passed. One
/// that could not run has not passed.
pub fn report(name: &str, result: &Result<ProbeResult, String>) -> (reported: (String, bool))
    ensures
        reported.0@ == report_text(name@, *result),
        reported.1 == (*result matches Ok(probe) && probe.pass),
{
    match result {
        Ok(probe) => {
            let mut line = if probe.pass {
                "[PASS] ".to_owned()
            } else {
                "[FAIL] ".to_owned()
            };
            line.append(name);
            line.append("\n      ");
            line.append(probe.detail.as_str());
            (line, probe.pass)
        },
        Err(reason) => {
            let mut line = "[ERR ] ".to_owned();
            line.append(name);
            line.append("\n      probe could not run: ");
            line.append(reason.as_str());
            (line, false)
        },
    }
}

/// The size that a response reports.
pub fn persisted(status: &Option<WriteStatus>) -> (size: Option<i64>)
    ensures
        size == session::reported_size(*status),
{
    match status {
        Some(WriteStatus::PersistedSize(size)) => Some(*size),
        Some(WriteStatus::Resource(object)) => Some(object.size),
        None => None,
    }
}

/// Whether a response acknowledges the write: a size below the expected one is
/// an older state and is skipped.
pub fn acknowledges(status: &Option<WriteStatus>, expected: i64) -> (acknowledged: Option<i64>)
    ensures
        acknowledged == match session::reported_size(*status) {
            Some(size) => if size >= expected {
                Some(size)
            } else {
                None
            },
            None => None,
        },
{
    match persisted(status) {
        Some(size) => if size >= expected {
            Some(size)
        } else {
            None
        },
        None => None,
    }
}

/// The full resource name of a bucket.
pub open spec fn bucket_resource_text(bucket: Seq<char>) -> Seq<char> {
    if text::has_prefix(bucket, "projects/"@) {
        bucket
    } else {
        "projects/_/buckets/"@ + bucket
    }
}

/// The full resource name of a bucket: a bare name is completed.
pub fn bucket_resource(bucket: &str) -> (resource: String)
    ensures
        resource@ == bucket_resource_text(bucket@),
{
    if text::starts_with(bucket, "projects/") {
        bucket.to_owned()
    } else {
        let mut resource = "projects/_/buckets/".to_owned();
        resource.append(bucket);
        resource
    }
}

/// Whether the generation-zero takeover probe passed: the flush persisted all
/// bytes, the takeover reported them both as the object's size and as its
/// durable tail, the object that never was is not found, and the cleanup
/// succeeded.
pub open spec fn generation_zero_ok(result: GenerationZeroTakeoverProbeResult) -> bool {
    &&& result.append matches Ok(size) && size == result.expected_size
    &&& result.takeover matches Some(Ok(seen)) && seen.resource_size == Some(result.expected_size)
        && seen.persisted_size == result.expected_size
    &&& result.absent matches Err(error) && error.code == TransportCode::NotFound
    &&& result.cleanup is Ok
}

/// Whether the generation-zero takeover probe passed.
pub fn generation_zero_passed(result: &GenerationZeroTakeoverProbeResult) -> (passed: bool)
    ensures
        passed == generation_zero_ok(*result),
{
    let append: bool = match &result.append {
        Ok(size) => *size == result.expected_size,
        Err(_) => false,
    };
    let takeover: bool = match &result.takeover {
        Some(Ok(seen)) => match seen.resource_size {
            Some(size) => size == result.expected_size && seen.persisted_size
                == result.expected_size,
            None => false,
        },
        Some(Err(_)) => false,
        None => false,
    };
    let absent: bool = match &result.absent {
        Ok(_) => false,
        Err(error) => error.code == TransportCode::NotFound,
    };
    let cleanup: bool = result.cleanup.is_ok();
    append && takeover && absent && cleanup
}

/// The verdict on a precondition that is checked when an object is opened.
pub open spec fn fresh_open_verdict(
    wrong: Result<i64, Refusal>,
    correct: Result<i64, Refusal>,
) -> (bool, Seq<char>) {
    match (wrong, correct) {
        (Err(refusal), Ok(_)) => if refusal.code == status::GRPC_FAILED_PRECONDITION {
            (true, "wrong if_metageneration_match -> "@ + code_text(refusal) + "; correct -> Ok"@)
        } else {
            (
                false,
                "wrong metagen rejected but with unexpected code "@ + code_text(refusal)
                    + "; correct -> Ok"@,
            )
        },
        (Ok(size), _) => (
            false,
            "wrong if_metageneration_match was ACCEPTED (persisted "@ + text::signed_decimal(
                size as int,
            ) + "); precondition not enforced on open"@,
        ),
        (Err(_), Err(refusal)) => (
            false,
            "correct if_metageneration_match was rejected: "@ + code_text(refusal),
        ),
    }
}

/// Judges an open with a wrong metageneration and one with the correct one:
/// the first must be refused by a failed precondition, the second succeed.
pub fn judge_fresh_open(wrong: &Result<i64, Refusal>, correct: &Result<i64, Refusal>) -> (result:
    ProbeResult)
    ensures
        outcome(result) == fresh_open_verdict(*wrong, *correct),
{
    match wrong {
        Ok(size) => {
            let mut detail = "wrong if_metageneration_match was ACCEPTED (persisted ".to_owned();
            text::push_signed(&mut detail, *size);
            detail.append("); precondition not enforced on open");
            bad(detail)
        },
        Err(refusal) => match correct {
            Ok(_) => if refusal.code == status::GRPC_FAILED_PRECONDITION {
                let mut detail = "wrong if_metageneration_match -> ".to_owned();
                push_code(&mut detail, refusal);
                detail.append("; correct -> Ok");
                ok(detail)
            } else {
                let mut detail = "wrong metagen rejected but with unexpected code ".to_owned();
                push_code(&mut detail, refusal);
                detail.append("; correct -> Ok");
                bad(detail)
            },
            Err(second) => {
                let mut detail = "correct if_metageneration_match was rejected: ".to_owned();
                push_code(&mut detail, second);
                bad(detail)
            },
        },
    }
}

/// The verdict on a metadata update that fences later opens.
pub open spec fn metadata_fence_verdict(
    before: i64,
    after: i64,
    stale: Result<i64, Refusal>,
    current: Result<i64, Refusal>,
) -> (bool, Seq<char>) {
    if after <= before {
        (
            false,
            "UpdateObject did not bump metageneration (m0="@ + text::signed_decimal(before as int)
                + ", m1="@ + text::signed_decimal(after as int) + ")"@,
        )
    } else {
        match (stale, current) {
            (Err(refusal), Ok(_)) => if refusal.code == status::GRPC_FAILED_PRECONDITION {
                (
                    true,
                    "metageneration "@ + text::signed_decimal(before as int) + "->"@
                        + text::signed_decimal(after as int) + "; stale open -> "@ + code_text(
                        refusal,
                    ) + "; current open -> Ok"@,
                )
            } else {
                (false, "stale open rejected with unexpected code "@ + code_text(refusal))
            },
            (Ok(size), _) => (
                false,
                "stale if_metageneration_match ACCEPTED (persisted "@ + text::signed_decimal(
                    size as int,
                ) + ") after CAS"@,
            ),
            (Err(_), Err(refusal)) => (
                false,
                "current if_metageneration_match rejected: "@ + code_text(refusal),
            ),
        }
    }
}

/// Judges a metadata update from one metageneration to another, and the opens
/// with the stale and the current one after it.
pub fn judge_metadata_fence(
    before: i64,
    after: i64,
    stale: &Result<i64, Refusal>,
    current: &Result<i64, Refusal>,
) -> (result: ProbeResult)
    ensures
        outcome(result) == metadata_fence_verdict(before, after, *stale, *current),
{
    if after <= before {
        let mut detail = "UpdateObject did not bump metageneration (m0=".to_owned();
        text::push_signed(&mut detail, before);
        detail.append(", m1=");
        text::push_signed(&mut detail, after);
        detail.append(")");
        return bad(detail);
    }
    match stale {
        Ok(size) => {
            let mut detail = "stale if_metageneration_match ACCEPTED (persisted ".to_owned();
            text::push_signed(&mut detail, *size);
            detail.append(") after CAS");
            bad(detail)
        },
        Err(refusal) => match current {
            Ok(_) => if refusal.code == status::GRPC_FAILED_PRECONDITION {
                let mut detail = "metageneration ".to_owned();
                text::push_signed(&mut detail, before);
                detail.append("->");
                text::push_signed(&mut detail, after);
                detail.append("; stale open -> ");
                push_code(&mut detail, refusal);
                detail.append("; current open -> Ok");
                ok(detail)
            } else {
                let mut detail = "stale open rejected with unexpected code ".to_owned();
                push_code(&mut detail, refusal);
                bad(detail)
            },
            Err(second) => {
                let mut detail = "current if_metageneration_match rejected: ".to_owned();
                push_code(&mut detail, second);
                bad(detail)
            },
        },
    }
}

/// A data message carries its own offset and the checksum of its own bytes,
/// and its durable tail is asked for if and only if it is flushed.
pub proof fn law_messages_describe_their_bytes(
    write_offset: i64,
    data: &[u8],
    flush: bool,
    message: DataMessage,
)
    requires
        call_ensures(data_message, (write_offset, data, flush), message),
    ensures
        message.write_offset == write_offset,
        message.crc32c == pack::crc32c_of(data@),
        message.flush <==> flush,
        message.state_lookup <==> flush,
{
}

/// Each status number has its own name, and every other number is unknown.
pub proof fn law_status_numbers_have_names(code: i32, name: &'static str)
    requires
        call_ensures(status_code_name, (code,), name),
    ensures
        code == 0 ==> name@ == "Ok"@,
        code == 1 ==> name@ == "Cancelled"@,
        code == 3 ==> name@ == "InvalidArgument"@,
        code == 4 ==> name@ == "DeadlineExceeded"@,
        code == 5 ==> name@ == "NotFound"@,
        code == 6 ==> name@ == "AlreadyExists"@,
        code == 7 ==> name@ == "PermissionDenied"@,
        code == 8 ==> name@ == "ResourceExhausted"@,
        code == 9 ==> name@ == "FailedPrecondition"@,
        code == 10 ==> name@ == "Aborted"@,
        code == 11 ==> name@ == "OutOfRange"@,
        code == 12 ==> name@ == "Unimplemented"@,
        code == 13 ==> name@ == "Internal"@,
        code == 14 ==> name@ == "Unavailable"@,
        code == 15 ==> name@ == "DataLoss"@,
        code == 16 ==> name@ == "Unauthenticated"@,
        code == 2 || code < 0 || code > 16 ==> name@ == "Unknown"@,
{
}

/// Each classification is shown under its own name.
pub proof fn law_classifications_have_names(code: TransportCode, name: &'static str)
    requires
        call_ensures(transport_code_name, (code,), name),
    ensures
        code is NotFound ==> name@ == "NOT_FOUND"@,
        code is AlreadyExists ==> name@ == "ALREADY_EXISTS"@,
        code is InvalidArgument ==> name@ == "INVALID_ARGUMENT"@,
        code is FailedPrecondition ==> name@ == "FAILED_PRECONDITION"@,
        code is Aborted ==> name@ == "ABORTED"@,
        code is OutOfRange ==> name@ == "OUT_OF_RANGE"@,
        code is ResourceExhausted ==> name@ == "RESOURCE_EXHAUSTED"@,
        code is Unimplemented ==> name@ == "UNIMPLEMENTED"@,
        code is DataLoss ==> name@ == "DATA_LOSS"@,
        code is Ambiguous ==> name@ == "AMBIGUOUS"@,
        code is Unauthenticated ==> name@ == "UNAUTHENTICATED"@,
        code is PermissionDenied ==> name@ == "PERMISSION_DENIED"@,
        code is Unavailable ==> name@ == "UNAVAILABLE"@,
        code is DeadlineExceeded ==> name@ == "DEADLINE_EXCEEDED"@,
        code is Internal ==> name@ == "INTERNAL"@,
{
}

/// A refusal is shown as its code's name with its message in brackets.
pub proof fn law_refusals_show_code_and_message(
    refusal: &Refusal,
    name: &'static str,
    shown: String,
    out: &mut String,
)
    requires
        call_ensures(status_code_name, (refusal.code,), name),
        call_ensures(code_of, (refusal,), shown),
        call_ensures(push_code, (out, refusal), ()),
    ensures
        shown@ == name@ + " ("@ + refusal.message@ + ")"@,
        final(out)@ == old(out)@ + shown@,
{
}

/// A probe counts as passed only if it ran and passed, and is shown as what it
/// counts as.
pub proof fn law_only_passed_probes_count(
    name: &str,
    result: &Result<ProbeResult, String>,
    reported: (String, bool),
)
    requires
        call_ensures(report, (name, result), reported),
    ensures
        reported.1 <==> *result is Ok && result->Ok_0.pass,
        *result is Ok && reported.1 ==> reported.0@ == "[PASS] "@ + name@ + "\n      "@
            + result->Ok_0.detail@,
        *result is Ok && !reported.1 ==> reported.0@ == "[FAIL] "@ + name@ + "\n      "@
            + result->Ok_0.detail@,
        *result is Err ==> reported.0@ == "[ERR ] "@ + name@ + "\n      probe could not run: "@
            + result->Err_0@,
{
}

/// A verdict keeps the detail that it was made with.
pub proof fn law_verdicts_keep_their_detail(
    detail: String,
    passed: ProbeResult,
    failed: ProbeResult,
)
    requires
        call_ensures(ok, (detail,), passed),
        call_ensures(bad, (detail,), failed),
    ensures
        passed.pass && !failed.pass,
        passed.detail@ == detail@ && failed.detail@ == detail@,
{
}

/// A response acknowledges a write with the size that it reports, be it as a
/// bare size or within the object, and only if that reaches the expected one.
pub proof fn law_acknowledgments_reach_the_expected_size(
    status: &Option<WriteStatus>,
    expected: i64,
    size: Option<i64>,
    acknowledged: Option<i64>,
)
    requires
        call_ensures(persisted, (status,), size),
        call_ensures(acknowledges, (status, expected), acknowledged),
    ensures
        *status matches Some(WriteStatus::PersistedSize(bytes)) ==> size == Some(bytes),
        *status matches Some(WriteStatus::Resource(object)) ==> size == Some(object.size),
        *status is None ==> size is None,
        acknowledged is Some <==> size is Some && size->0 >= expected,
        acknowledged is Some ==> acknowledged == size,
{
}

/// A bucket's resource name ends in the bucket's name, begins with `projects/`,
/// and is not completed twice.
pub proof fn law_resource_names_are_completed_once(
    bucket: &str,
    resource: String,
    again: &str,
    twice: String,
)
    requires
        call_ensures(bucket_resource, (bucket,), resource),
        again@ == resource@,
        call_ensures(bucket_resource, (again,), twice),
    ensures
        "projects/"@.is_prefix_of(resource@),
        "projects/"@.is_prefix_of(bucket@) ==> resource@ == bucket@,
        !"projects/"@.is_prefix_of(bucket@) ==> resource@ == "projects/_/buckets/"@ + bucket@,
        twice@ == resource@,
{
    reveal_strlit("projects/");
    reveal_strlit("projects/_/buckets/");
    let prefix = "projects/"@;
    let completed = "projects/_/buckets/"@ + bucket@;
    assert(completed.take(prefix.len() as int) =~= prefix);
    assert(prefix =~= completed.subrange(0, prefix.len() as int));
    if prefix.is_prefix_of(bucket@) {
        assert(bucket@.take(prefix.len() as int) =~= prefix);
    }
    if text::has_prefix(bucket@, prefix) {
        assert(prefix =~= bucket@.subrange(0, prefix.len() as int));
    }
}

/// The takeover probe passes if and only if every byte was flushed, both sizes
/// of the takeover are those bytes, the object that never was is not found and
/// the cleanup succeeded.
pub proof fn law_takeover_probe_demands_everything(
    result: &GenerationZeroTakeoverProbeResult,
    passed: bool,
)
    requires
        call_ensures(generation_zero_passed, (result,), passed),
    ensures
        passed ==> result.append is Ok && result.append->Ok_0 == result.expected_size,
        passed ==> result.takeover is Some && result.takeover->0 is Ok,
        passed ==> result.takeover->0->Ok_0.persisted_size == result.expected_size,
        passed ==> result.takeover->0->Ok_0.resource_size == Some(result.expected_size),
        passed ==> result.absent is Err && result.absent->Err_0.code is NotFound,
        passed ==> result.cleanup is Ok,
        !passed ==> {
            ||| result.append is Err
            ||| result.append->Ok_0 != result.expected_size
            ||| result.takeover is None
            ||| result.takeover->0 is Err
            ||| result.takeover->0->Ok_0.persisted_size != result.expected_size
            ||| result.takeover->0->Ok_0.resource_size != Some(result.expected_size)
            ||| result.absent is Ok
            ||| !(result.absent->Err_0.code is NotFound)
            ||| result.cleanup is Err
        },
{
}

/// Opens are fenced if and only if the wrong metageneration is refused by a
/// failed precondition and the correct one is not refused.
pub proof fn law_opens_are_fenced_by_the_metageneration(
    wrong: &Result<i64, Refusal>,
    correct: &Result<i64, Refusal>,
    result: ProbeResult,
)
    requires
        call_ensures(judge_fresh_open, (wrong, correct), result),
    ensures
        result.pass <==> *wrong is Err && wrong->Err_0.code == 9 && *correct is Ok,
{
}

/// A metadata update fences if and only if it raised the metageneration, the
/// old one is refused by a failed precondition and the new one is not refused.
pub proof fn law_updates_fence_the_old_metageneration(
    before: i64,
    after: i64,
    stale: &Result<i64, Refusal>,
    current: &Result<i64, Refusal>,
    result: ProbeResult,
)
    requires
        call_ensures(judge_metadata_fence, (before, after, stale, current), result),
    ensures
        result.pass <==> before < after && *stale is Err && stale->Err_0.code == 9
            && *current is Ok,
{
}

} // verus!
