//! Write redirects: where a stream must be opened again.

use crate::auth;
use crate::status;
use crate::text;
use crate::transport::{TransportCode, TransportError};
use vstd::prelude::*;

verus! {

/// Bounded number of consecutive zonal redirects honored per write open.
pub const MAX_WRITE_REDIRECTS: u32 = 5;

/// One detail message of a rich status.
pub struct StatusDetail {
    /// Names the type of the message.
    pub type_url: String,
    /// The serialized message.
    pub value: Vec<u8>,
}

/// The details as pairs of type URL and serialized message.
pub open spec fn detail_pairs(details: Seq<StatusDetail>) -> Seq<(Seq<char>, Seq<u8>)> {
    Seq::new(details.len(), |i: int| (details[i].type_url@, details[i].value@))
}

/// The type URLs and values of the details of a serialized `google.rpc.Status`,
/// in order; `None` where the bytes are no such message.
pub uninterp spec fn rich_status_details(bytes: Seq<u8>) -> Option<Seq<(Seq<char>, Seq<u8>)>>;

/// `prost::Message::decode` for `google.rpc.Status`: the details of the decoded
/// message, a function of the bytes alone, or nothing where decoding fails.
#[verifier::external_body]
fn decode_rich_status(bytes: &[u8]) -> (details: Option<Vec<StatusDetail>>)
    ensures
        rich_status_details(bytes@) == match details {
            Some(inner) => Some(detail_pairs(inner@)),
            None => None,
        },
{
    let decoded: Result<googleapis_tonic_google_storage_v2::google::rpc::Status, _> =
        prost::Message::decode(bytes);
    let details = decoded.ok()?.details.into_iter();
    Some(details.map(|any| StatusDetail { type_url: any.type_url, value: any.value }).collect())
}

/// The routing token of a serialized write redirect; `None` where the bytes are
/// no such message or it carries no token.
pub uninterp spec fn redirect_token(bytes: Seq<u8>) -> Option<Seq<char>>;

/// `prost::Message::decode` for `BidiWriteObjectRedirectedError`: the routing
/// token of the decoded message, a function of the bytes alone, or nothing
/// where decoding fails or the message carries none.
#[verifier::external_body]
fn decode_redirect(bytes: &[u8]) -> (token: Option<String>)
    ensures
        redirect_token(bytes@) == match token {
            Some(inner) => Some(inner@),
            None => None,
        },
{
    let decoded: Result<
        googleapis_tonic_google_storage_v2::google::storage::v2::BidiWriteObjectRedirectedError,
        _,
    > = prost::Message::decode(bytes);
    decoded.ok()?.routing_token
}

/// Whether a detail message is a write redirect, by its type URL.
pub open spec fn is_redirect(type_url: Seq<char>) -> bool {
    text::has_suffix(type_url, "google.storage.v2.BidiWriteObjectRedirectedError"@)
}

/// The routing token of the first write redirect that carries one.
pub open spec fn first_token(details: Seq<(Seq<char>, Seq<u8>)>) -> Option<Seq<char>>
    decreases details.len(),
{
    if details.len() == 0 {
        None
    } else if is_redirect(details[0].0) && redirect_token(details[0].1) is Some {
        redirect_token(details[0].1)
    } else {
        first_token(details.drop_first())
    }
}

/// The routing token that the details of a status carry.
pub open spec fn routing_token(details: Seq<u8>) -> Option<Seq<char>> {
    if details.len() == 0 {
        None
    } else {
        match rich_status_details(details) {
            Some(pairs) => first_token(pairs),
            None => None,
        }
    }
}

/// The text of an optional string.
pub open spec fn optional_text(s: Option<String>) -> Option<Seq<char>> {
    match s {
        Some(inner) => Some(inner@),
        None => None,
    }
}

/// Finds the routing token among decoded details.
pub fn first_redirect_token(details: &Vec<StatusDetail>) -> (token: Option<String>)
    ensures
        optional_text(token) == first_token(detail_pairs(details@)),
{
    let ghost pairs = detail_pairs(details@);
    let mut i: usize = 0;
    proof {
        assert(pairs.skip(0) =~= pairs);
    }
    while i < details.len()
        invariant
            i <= details@.len(),
            pairs == detail_pairs(details@),
            first_token(pairs.skip(i as int)) == first_token(pairs),
        decreases details@.len() - i,
    {
        let detail = &details[i];
        proof {
            assert(pairs.skip(i as int)[0] == (detail.type_url@, detail.value@));
            assert(pairs.skip(i as int).drop_first() =~= pairs.skip(i + 1));
        }
        if text::ends_with(
            detail.type_url.as_str(),
            "google.storage.v2.BidiWriteObjectRedirectedError",
        ) {
            let token = decode_redirect(detail.value.as_slice());
            if token.is_some() {
                return token;
            }
        }
        i = i + 1;
    }
    None
}

/// Extracts the routing token of a write redirect from the serialized details
/// of a status, if they carry one.
pub fn redirect_routing_token(details: &[u8]) -> (token: Option<String>)
    ensures
        optional_text(token) == routing_token(details@),
{
    if details.len() == 0 {
        return None;
    }
    match decode_rich_status(details) {
        Some(decoded) => first_redirect_token(&decoded),
        None => None,
    }
}

/// The request parameters that route an object operation: the bucket, and the
/// routing token once a redirect has supplied one.
pub fn request_params(bucket: &str, token: &Option<String>) -> (params: String)
    ensures
        params@ == match token {
            Some(inner) => "bucket="@ + bucket@ + "&routing_token="@ + inner@,
            None => "bucket="@ + bucket@,
        },
{
    let params = "bucket=".to_owned().concat(bucket);
    match token {
        Some(inner) => params.concat("&routing_token=").concat(inner.as_str()),
        None => params,
    }
}

/// The request parameters, if they can stand in a metadata field.
pub fn checked_request_params(zone: usize, bucket: &str, token: &Option<String>) -> (result: Result<
    String,
    TransportError,
>)
    ensures
        ({
            let text = match token {
                Some(inner) => "bucket="@ + bucket@ + "&routing_token="@ + inner@,
                None => "bucket="@ + bucket@,
            };
            if auth::metadata_value(text) {
                result matches Ok(params) && params@ == text
            } else {
                result matches Err(error) && status::failed(
                    error,
                    zone,
                    TransportCode::Internal,
                    "request params are not valid gRPC metadata"@,
                )
            }
        }),
{
    let params = request_params(bucket, token);
    if auth::is_metadata_value(params.as_str()) {
        Ok(params)
    } else {
        Err(
            status::failure(
                zone,
                TransportCode::Internal,
                "request params are not valid gRPC metadata",
            ),
        )
    }
}

/// What happened to an attempt at opening a write stream.
pub enum OpenEvent {
    /// The replica is shutting down.
    ShutDown,
    /// The requests could not be queued.
    ChannelClosed,
    /// The stream did not open in time.
    OpenTimedOut,
    /// The first response did not arrive in time.
    FirstTimedOut,
    /// The service answered with a status before any response.
    Refused {
        /// gRPC status code.
        code: i32,
        /// Diagnostic text.
        message: String,
        /// Serialized details of the status.
        details: Vec<u8>,
    },
    /// The service closed the stream without a response.
    Ended,
    /// The first response arrived.
    Responded,
}

/// How opening a write stream goes on.
pub enum OpenDecision {
    /// Open it again with this routing token.
    Retry(String),
    /// Give up.
    Fail(TransportError),
    /// There is no stream.
    NoStream,
    /// The stream is open.
    Ready,
}

/// Attempts at opening one write stream.
pub struct StreamOpen {
    /// Attempts begun so far.
    pub attempt: u32,
}

impl StreamOpen {
    /// At most one attempt more than the redirects that are honored.
    pub open spec fn wf(self) -> bool {
        self.attempt <= MAX_WRITE_REDIRECTS + 1
    }

    /// No attempt yet.
    pub fn new() -> (open: Self)
        ensures
            open.attempt == 0,
    {
        StreamOpen { attempt: 0 }
    }

    /// Begins another attempt.
    pub fn begin(&mut self)
        requires
            old(self).attempt <= MAX_WRITE_REDIRECTS,
        ensures
            final(self).attempt == old(self).attempt + 1,
            final(self).wf(),
    {
        self.attempt = self.attempt + 1;
    }

    /// Whether a status leads to another attempt: it is a redirect with a
    /// token, and not one too many.
    pub open spec fn retries(self, details: Seq<u8>) -> bool {
        self.attempt <= MAX_WRITE_REDIRECTS && routing_token(details) is Some
    }

    /// Decides how opening goes on. A redirect before any response is followed
    /// with its routing token; nothing is replayed once a response was seen.
    pub fn decide(&self, zone: usize, event: OpenEvent) -> (decision: OpenDecision)
        ensures
            match event {
                OpenEvent::ShutDown => decision matches OpenDecision::Fail(error) && status::failed(
                    error,
                    zone,
                    TransportCode::Unavailable,
                    "append session open cancelled by shutdown"@,
                ),
                OpenEvent::ChannelClosed => decision matches OpenDecision::Fail(error)
                    && status::failed(
                    error,
                    zone,
                    TransportCode::Internal,
                    "write stream channel closed"@,
                ),
                OpenEvent::OpenTimedOut => decision matches OpenDecision::Fail(error)
                    && status::failed(
                    error,
                    zone,
                    TransportCode::DeadlineExceeded,
                    "append session open timed out"@,
                ),
                OpenEvent::FirstTimedOut => decision matches OpenDecision::Fail(error)
                    && status::failed(
                    error,
                    zone,
                    TransportCode::DeadlineExceeded,
                    "append open made no progress"@,
                ),
                OpenEvent::Refused { code, message, details } => if self.retries(details@) {
                    decision matches OpenDecision::Retry(token) && Some(token@) == routing_token(
                        details@,
                    )
                } else {
                    decision matches OpenDecision::Fail(error) && error == (TransportError {
                        zone,
                        code: status::classified(code),
                        message,
                    })
                },
                OpenEvent::Ended => decision is NoStream,
                OpenEvent::Responded => decision is Ready,
            },
    {
        match event {
            OpenEvent::ShutDown => OpenDecision::Fail(
                status::failure(
                    zone,
                    TransportCode::Unavailable,
                    "append session open cancelled by shutdown",
                ),
            ),
            OpenEvent::ChannelClosed => OpenDecision::Fail(
                status::failure(zone, TransportCode::Internal, "write stream channel closed"),
            ),
            OpenEvent::OpenTimedOut => OpenDecision::Fail(
                status::failure(
                    zone,
                    TransportCode::DeadlineExceeded,
                    "append session open timed out",
                ),
            ),
            OpenEvent::FirstTimedOut => OpenDecision::Fail(
                status::failure(
                    zone,
                    TransportCode::DeadlineExceeded,
                    "append open made no progress",
                ),
            ),
            OpenEvent::Refused { code, message, details } => {
                if self.attempt <= MAX_WRITE_REDIRECTS {
                    if let Some(token) = redirect_routing_token(details.as_slice()) {
                        return OpenDecision::Retry(token);
                    }
                }
                OpenDecision::Fail(status::status(zone, code, message))
            },
            OpenEvent::Ended => OpenDecision::NoStream,
            OpenEvent::Responded => OpenDecision::Ready,
        }
    }
}

/// However often the service redirects, a stream is attempted at most one time
/// more than redirects are honored: a further attempt begins only after a
/// retry, and a retry is refused after that many attempts.
pub proof fn law_redirects_are_bounded(open: StreamOpen, details: Seq<u8>)
    requires
        open.wf(),
    ensures
        open.retries(details) ==> open.attempt <= MAX_WRITE_REDIRECTS,
        open.attempt == MAX_WRITE_REDIRECTS + 1 ==> !open.retries(details),
{
}

/// A type URL that ends in the name of the write redirect.
pub open spec fn names_redirect(type_url: Seq<char>) -> bool {
    let name = "google.storage.v2.BidiWriteObjectRedirectedError"@;
    type_url.len() >= name.len() && type_url.skip(type_url.len() - name.len()) == name
}

proof fn lemma_first_token(details: Seq<(Seq<char>, Seq<u8>)>, i: int)
    requires
        0 <= i <= details.len(),
        forall|j: int|
            0 <= j < i ==> !(names_redirect((#[trigger] details[j]).0) && redirect_token(
                details[j].1,
            ) is Some),
        i < details.len() ==> names_redirect(details[i].0) && redirect_token(details[i].1) is Some,
    ensures
        first_token(details) == if i < details.len() {
            redirect_token(details[i].1)
        } else {
            None
        },
    decreases i,
{
    if details.len() > 0 {
        assert(is_redirect(details[0].0) == names_redirect(details[0].0));
        if i > 0 {
            let rest = details.drop_first();
            assert forall|j: int| 0 <= j < i - 1 implies !(names_redirect((#[trigger] rest[j]).0)
                && redirect_token(rest[j].1) is Some) by {
                assert(rest[j] == details[j + 1]);
            }
            if i < details.len() {
                assert(rest[i - 1] == details[i]);
            }
            lemma_first_token(rest, i - 1);
        }
    }
}

/// The routing token of a status is that of the first detail which names the
/// write redirect and carries one. A status without details, or with details
/// that cannot be read, or without such a one, has none.
pub proof fn law_first_redirect_routes(details: &[u8], token: Option<String>, i: int)
    requires
        call_ensures(redirect_routing_token, (details,), token),
        rich_status_details(details@) is Some ==> {
            let pairs = rich_status_details(details@)->Some_0;
            &&& 0 <= i <= pairs.len()
            &&& forall|j: int|
                0 <= j < i ==> !(names_redirect((#[trigger] pairs[j]).0) && redirect_token(
                    pairs[j].1,
                ) is Some)
            &&& i < pairs.len() ==> names_redirect(pairs[i].0) && redirect_token(pairs[i].1) is Some
        },
    ensures
        details@.len() == 0 || rich_status_details(details@) is None ==> token is None,
        details@.len() > 0 && rich_status_details(details@) is Some ==> {
            let pairs = rich_status_details(details@)->Some_0;
            &&& token is Some <==> i < pairs.len()
            &&& token is Some ==> Some(token->Some_0@) == redirect_token(pairs[i].1)
        },
{
    if rich_status_details(details@) is Some {
        lemma_first_token(rich_status_details(details@)->Some_0, i);
    }
}

/// The same holds of details that were read already.
pub proof fn law_first_redirect_detail_routes(
    details: &Vec<StatusDetail>,
    token: Option<String>,
    i: int,
)
    requires
        call_ensures(first_redirect_token, (details,), token),
        0 <= i <= details@.len(),
        forall|j: int|
            0 <= j < i ==> !(names_redirect((#[trigger] details@[j]).type_url@) && redirect_token(
                details@[j].value@,
            ) is Some),
        i < details@.len() ==> names_redirect(details@[i].type_url@) && redirect_token(
            details@[i].value@,
        ) is Some,
    ensures
        token is Some <==> i < details@.len(),
        token is Some ==> Some(token->Some_0@) == redirect_token(details@[i].value@),
{
    let pairs = detail_pairs(details@);
    assert forall|j: int| 0 <= j < i implies !(names_redirect((#[trigger] pairs[j]).0)
        && redirect_token(pairs[j].1) is Some) by {
        assert(pairs[j] == (details@[j].type_url@, details@[j].value@));
    }
    lemma_first_token(pairs, i);
}

/// A redirect is followed with the very token that it carries, and only five
/// times for one stream: after that, or without a token, the status is a
/// failure, which keeps its text and its class.
pub proof fn law_redirects_are_followed(
    open: &StreamOpen,
    zone: usize,
    code: i32,
    message: String,
    details: Vec<u8>,
    decision: OpenDecision,
    token: Option<String>,
    class: TransportCode,
)
    requires
        call_ensures(
            StreamOpen::decide,
            (open, zone, OpenEvent::Refused { code, message, details }),
            decision,
        ),
        optional_text(token) == routing_token(details@),
        call_ensures(status::transport_code, (code,), class),
    ensures
        decision is Retry <==> open.attempt <= 5 && token is Some,
        decision is Retry ==> decision->Retry_0@ == token->Some_0@,
        !(decision is Retry) ==> decision is Fail && decision->Fail_0.zone == zone
            && decision->Fail_0.code == class && decision->Fail_0.message == message,
{
}

/// Every other event decides by itself: only a response makes a stream ready,
/// a stream that ended has none, what took too long exceeded its deadline, and
/// shutdown makes the replica unavailable. None of them is tried again.
pub proof fn law_only_redirects_open_again(
    open: &StreamOpen,
    zone: usize,
    event: OpenEvent,
    decision: OpenDecision,
)
    requires
        call_ensures(StreamOpen::decide, (open, zone, event), decision),
        !(event is Refused),
    ensures
        !(decision is Retry),
        decision is Ready <==> event is Responded,
        decision is NoStream <==> event is Ended,
        decision is Fail ==> decision->Fail_0.zone == zone,
        event is ShutDown ==> decision->Fail_0.code is Unavailable,
        event is ChannelClosed ==> decision->Fail_0.code is Internal,
        event is OpenTimedOut || event is FirstTimedOut
            ==> decision->Fail_0.code is DeadlineExceeded,
{
}

/// Attempts are counted from none on, one at a time.
pub proof fn law_attempts_are_counted(fresh: StreamOpen, open: &mut StreamOpen)
    requires
        call_ensures(StreamOpen::new, (), fresh),
        call_ensures(StreamOpen::begin, (open,), ()),
    ensures
        fresh.attempt == 0,
        final(open).attempt == old(open).attempt + 1,
{
}

/// Requests are routed by their bucket, and by the token once there is one;
/// parameters that cannot stand in a metadata field are refused.
pub proof fn law_requests_name_bucket_and_token(
    zone: usize,
    bucket: &str,
    token: &Option<String>,
    params: String,
    checked: Result<String, TransportError>,
)
    requires
        call_ensures(request_params, (bucket, token), params),
        call_ensures(checked_request_params, (zone, bucket, token), checked),
    ensures
        token is None ==> params@ == "bucket="@ + bucket@,
        token is Some ==> params@ == "bucket="@ + bucket@ + "&routing_token="@ + token->Some_0@,
        checked is Ok ==> checked->Ok_0@ == params@,
        checked is Ok <==> auth::sendable(params@),
        checked is Err ==> checked->Err_0.code is Internal && checked->Err_0.zone == zone,
{
    if auth::sendable(params@) {
        assert forall|i: int| 0 <= i < params@.len() implies auth::metadata_char(
            #[trigger] params@[i],
        ) by {}
    }
    if auth::metadata_value(params@) {
        assert forall|i: int| 0 <= i < params@.len() implies #[trigger] params@[i] as u32 == 9 || (
        params@[i] as u32 >= 32 && params@[i] as u32 != 127) by {
            assert(auth::metadata_char(params@[i]));
        }
    }
}

} // verus!
