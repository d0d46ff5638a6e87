//! The engine's records: queued, dispatched, and resolved in order.

use crate::error::Error;
use crate::seqno::{AppendReceipt, WalSeqNo};
use std::collections::VecDeque;
use vstd::prelude::*;

verus! {

/// A record that the log has taken ownership of.
pub struct AdmittedAppend<T> {
    /// Caller-assigned sequence number.
    pub seqno: WalSeqNo,
    /// Bytes of application payload.
    pub payload_bytes: usize,
    /// Bytes of the encoded record.
    pub encoded_bytes: usize,
    /// Cumulative encoded admission boundary after this record.
    pub admission_end_bytes: u128,
    /// What the caller attached: the bytes and whom to tell the outcome.
    pub ticket: T,
}

/// What reaches the engine from its handle.
pub enum Command<T, S> {
    /// Append a record.
    Append(AdmittedAppend<T>),
    /// Drain and stop.
    Shutdown {
        /// Whom to tell once the engine has stopped.
        response: S,
    },
}

/// Records dispatched together that have not all resolved.
pub struct CompletionBatch<T> {
    /// The unresolved records, oldest first.
    pub appends: VecDeque<AdmittedAppend<T>>,
}

/// A record that reached its quorum.
pub struct CompletedAppend<T> {
    /// Durability evidence.
    pub receipt: AppendReceipt,
    /// Bytes of application payload.
    pub payload_bytes: usize,
    /// Number of records committed up to and including this one.
    pub watermark: u64,
    /// What the caller attached.
    pub ticket: T,
}

/// A record that will not be reported as committed.
pub struct FailedAppend<T> {
    /// The record.
    pub append: AdmittedAppend<T>,
    /// What its caller is told.
    pub error: Error,
}

/// Everything that a stopping engine has to answer.
pub struct Failures<T, S> {
    /// Records and what their callers are told, oldest first.
    pub appends: Vec<FailedAppend<T>>,
    /// Shutdown requests to acknowledge.
    pub responses: Vec<S>,
}

/// What a look at the oldest dispatched batch led to.
pub enum CompletionNext {
    /// The batch resolved completely; look at the next one.
    NextBatch,
    /// The batch waits for more commits.
    Wait,
    /// The batch failed at its oldest unresolved record.
    Failed(Error),
}

/// Outcome of one look at the oldest dispatched batch.
pub struct CompletionPass<T> {
    /// Records that committed, in order.
    pub completed: Vec<CompletedAppend<T>>,
    /// What to do next.
    pub next: CompletionNext,
}

/// Facts about one dispatched batch.
pub struct DispatchReport {
    /// Whether earlier records were still unresolved.
    pub refill: bool,
    /// Encoded bytes of the batch.
    pub record_bytes: u128,
    /// Dispatched and unresolved records now.
    pub pending_records: usize,
}

/// The append commands among `commands`, in order.
pub open spec fn appends_of<T, S>(commands: Seq<Command<T, S>>) -> Seq<AdmittedAppend<T>>
    decreases commands.len(),
{
    if commands.len() == 0 {
        Seq::empty()
    } else {
        match commands[0] {
            Command::Append(append) => seq![append] + appends_of(commands.drop_first()),
            Command::Shutdown { .. } => appends_of(commands.drop_first()),
        }
    }
}

/// The shutdown requests among `commands`, in order.
pub open spec fn responses_of<T, S>(commands: Seq<Command<T, S>>) -> Seq<S>
    decreases commands.len(),
{
    if commands.len() == 0 {
        Seq::empty()
    } else {
        match commands[0] {
            Command::Append(_) => responses_of(commands.drop_first()),
            Command::Shutdown { response } => seq![response] + responses_of(commands.drop_first()),
        }
    }
}

/// How many commands stand before the first shutdown request.
pub open spec fn leading_appends<T, S>(commands: Seq<Command<T, S>>) -> nat
    decreases commands.len(),
{
    if commands.len() == 0 || commands[0] is Shutdown {
        0
    } else {
        1 + leading_appends(commands.drop_first())
    }
}

/// The unresolved records of all batches, oldest first.
pub open spec fn flatten<T>(batches: Seq<CompletionBatch<T>>) -> Seq<AdmittedAppend<T>>
    decreases batches.len(),
{
    if batches.len() == 0 {
        Seq::empty()
    } else {
        batches[0].appends@ + flatten(batches.drop_first())
    }
}

/// Records numbered without gap or repetition, from `first` on.
pub open spec fn numbered<T>(appends: Seq<AdmittedAppend<T>>, first: int) -> bool {
    forall|i: int|
        0 <= i < appends.len() ==> (#[trigger] appends[i]).seqno.record_index == first + i
}

/// Where the encoded bytes of record `i` begin, if the first begin at `start`.
pub open spec fn bytes_before<T>(appends: Seq<AdmittedAppend<T>>, start: int, i: int) -> int {
    if i == 0 {
        start
    } else {
        appends[i - 1].admission_end_bytes as int
    }
}

/// Records whose encoded bytes follow each other from `start` on.
pub open spec fn chained<T>(appends: Seq<AdmittedAppend<T>>, start: int) -> bool {
    forall|i: int|
        0 <= i < appends.len() ==> (#[trigger] appends[i]).admission_end_bytes == bytes_before(
            appends,
            start,
            i,
        ) + appends[i].encoded_bytes
}

/// How many of `len` records from `first` on lie below `committed_end`.
pub open spec fn committed_count(first: int, len: nat, committed_end: u64) -> nat {
    if committed_end <= first {
        0
    } else if committed_end - first >= len {
        len
    } else {
        (committed_end - first) as nat
    }
}

/// What is reported of a committed record.
pub open spec fn completed_of<T>(append: AdmittedAppend<T>) -> CompletedAppend<T> {
    CompletedAppend {
        receipt: AppendReceipt { seqno: append.seqno },
        payload_bytes: append.payload_bytes,
        watermark: (append.seqno.record_index + 1) as u64,
        ticket: append.ticket,
    }
}

/// Every record of `appends` told the same error.
pub open spec fn failed_with<T>(appends: Seq<AdmittedAppend<T>>, error: Error) -> Seq<
    FailedAppend<T>,
> {
    Seq::new(appends.len(), |i: int| FailedAppend { append: appends[i], error })
}

pub proof fn lemma_appends_concat<T, S>(a: Seq<Command<T, S>>, b: Seq<Command<T, S>>)
    ensures
        appends_of(a + b) == appends_of(a) + appends_of(b),
        responses_of(a + b) == responses_of(a) + responses_of(b),
    decreases a.len(),
{
    if a.len() == 0 {
        assert(a + b =~= b);
        assert(appends_of(a) + appends_of(b) =~= appends_of(b));
        assert(responses_of(a) + responses_of(b) =~= responses_of(b));
    } else {
        assert((a + b).drop_first() =~= a.drop_first() + b);
        lemma_appends_concat(a.drop_first(), b);
        match a[0] {
            Command::Append(append) => {
                assert(seq![append] + (appends_of(a.drop_first()) + appends_of(b)) =~= (
                seq![append] + appends_of(a.drop_first())) + appends_of(b));
            },
            Command::Shutdown { response } => {
                assert(seq![response] + (responses_of(a.drop_first()) + responses_of(b)) =~= (
                seq![response] + responses_of(a.drop_first())) + responses_of(b));
            },
        }
    }
}

pub proof fn lemma_appends_push<T, S>(commands: Seq<Command<T, S>>, command: Command<T, S>)
    ensures
        appends_of(commands.push(command)) == match command {
            Command::Append(append) => appends_of(commands).push(append),
            Command::Shutdown { .. } => appends_of(commands),
        },
        responses_of(commands.push(command)) == match command {
            Command::Append(_) => responses_of(commands),
            Command::Shutdown { response } => responses_of(commands).push(response),
        },
{
    lemma_appends_concat(commands, seq![command]);
    assert(commands.push(command) =~= commands + seq![command]);
    assert(seq![command].drop_first() =~= Seq::<Command<T, S>>::empty());
    reveal_with_fuel(appends_of, 2);
    reveal_with_fuel(responses_of, 2);
}

pub proof fn lemma_flatten_push<T>(batches: Seq<CompletionBatch<T>>, batch: CompletionBatch<T>)
    ensures
        flatten(batches.push(batch)) == flatten(batches) + batch.appends@,
    decreases batches.len(),
{
    if batches.len() == 0 {
        assert(batches.push(batch).drop_first() =~= Seq::<CompletionBatch<T>>::empty());
        reveal_with_fuel(flatten, 2);
        assert(flatten(batches.push(batch)) =~= batch.appends@);
        assert(flatten(batches) + batch.appends@ =~= batch.appends@);
    } else {
        assert(batches.push(batch).drop_first() =~= batches.drop_first().push(batch));
        lemma_flatten_push(batches.drop_first(), batch);
        assert(batches[0].appends@ + (flatten(batches.drop_first()) + batch.appends@) =~= (
        batches[0].appends@ + flatten(batches.drop_first())) + batch.appends@);
    }
}

/// The leading appends of a queue are the first of its appends.
pub proof fn lemma_leading<T, S>(commands: Seq<Command<T, S>>, n: int)
    requires
        0 <= n <= leading_appends(commands),
    ensures
        n <= commands.len(),
        forall|i: int| 0 <= i < n ==> #[trigger] commands[i] is Append,
        appends_of(commands).len() >= n,
        forall|i: int|
            0 <= i < n ==> commands[i] == Command::<T, S>::Append(#[trigger] appends_of(commands)[i]),
        appends_of(commands.skip(n)) == appends_of(commands).skip(n),
        responses_of(commands.skip(n)) == responses_of(commands),
    decreases n,
{
    if n == 0 {
        assert(commands.skip(0) =~= commands);
        assert(appends_of(commands).skip(0) =~= appends_of(commands));
    } else {
        let rest = commands.drop_first();
        lemma_leading(rest, n - 1);
        let append = commands[0]->Append_0;
        assert(appends_of(commands) == seq![append] + appends_of(rest));
        assert(commands.skip(n) =~= rest.skip(n - 1));
        assert(appends_of(commands).skip(n) =~= appends_of(rest).skip(n - 1));
        assert forall|i: int| 0 <= i < n implies #[trigger] commands[i] is Append && commands[i]
            == Command::<T, S>::Append(appends_of(commands)[i]) by {
            if i > 0 {
                assert(commands[i] == rest[i - 1]);
                assert(appends_of(commands)[i] == appends_of(rest)[i - 1]);
            }
        }
        assert forall|i: int| 0 <= i < n implies commands[i] == Command::<T, S>::Append(
            #[trigger] appends_of(commands)[i],
        ) by {
            assert(commands[i] is Append);
        }
    }
}

/// Byte boundaries of chained records never fall below their start.
pub proof fn lemma_chain_grows<T>(appends: Seq<AdmittedAppend<T>>, start: int, i: int)
    requires
        chained(appends, start),
        0 <= i < appends.len(),
    ensures
        start <= appends[i].admission_end_bytes,
    decreases i,
{
    if i > 0 {
        lemma_chain_grows(appends, start, i - 1);
    }
}

/// Leading appends end at a shutdown request or at the end of the queue.
pub proof fn lemma_leading_end<T, S>(commands: Seq<Command<T, S>>)
    ensures
        leading_appends(commands) <= commands.len(),
        leading_appends(commands) < commands.len() ==> commands[leading_appends(
            commands,
        ) as int] is Shutdown,
    decreases commands.len(),
{
    if commands.len() > 0 && commands[0] is Append {
        lemma_leading_end(commands.drop_first());
    }
}

/// Every command of a queue is either an append or a shutdown request, and
/// keeps its place among its kind: as many appends stand before it as were
/// queued before it, and as many requests.
pub proof fn law_queue_is_appends_and_requests<T, S>(commands: Seq<Command<T, S>>, i: int)
    requires
        0 <= i < commands.len(),
    ensures
        appends_of(commands).len() + responses_of(commands).len() == commands.len(),
        ({
            let earlier = commands.take(i);
            let appends = appends_of(earlier).len() as int;
            let responses = responses_of(earlier).len() as int;
            &&& appends + responses == i
            &&& commands[i] is Append ==> appends < appends_of(commands).len() && appends_of(
                commands,
            )[appends] == commands[i]->Append_0
            &&& commands[i] is Shutdown ==> responses < responses_of(commands).len()
                && responses_of(commands)[responses] == commands[i]->response
        }),
{
    let earlier = commands.take(i);
    let later = commands.skip(i + 1);
    lemma_split(commands);
    lemma_split(earlier);
    assert(commands =~= earlier.push(commands[i]) + later);
    lemma_appends_push(earlier, commands[i]);
    lemma_appends_concat(earlier.push(commands[i]), later);
}

proof fn lemma_split<T, S>(commands: Seq<Command<T, S>>)
    ensures
        appends_of(commands).len() + responses_of(commands).len() == commands.len(),
    decreases commands.len(),
{
    if commands.len() > 0 {
        lemma_split(commands.drop_first());
    }
}

/// The unresolved records of all batches, taken together, hold every record of
/// every batch, at the place that follows from the batches before it.
pub proof fn law_batches_hold_all_pending_records<T>(
    batches: Seq<CompletionBatch<T>>,
    batch: int,
    i: int,
)
    requires
        0 <= batch < batches.len(),
        0 <= i < batches[batch].appends@.len(),
    ensures
        ({
            let before = flatten(batches.take(batch)).len() as int;
            &&& flatten(batches.take(batch + 1)).len() == before + batches[batch].appends@.len()
            &&& before + i < flatten(batches).len()
            &&& flatten(batches)[before + i] == batches[batch].appends@[i]
        }),
        flatten(batches.take(0)).len() == 0,
{
    let earlier = batches.take(batch);
    assert(batches.take(batch + 1) =~= earlier.push(batches[batch]));
    lemma_flatten_push(earlier, batches[batch]);
    assert(batches.take(0) =~= Seq::<CompletionBatch<T>>::empty());
    lemma_flatten_prefix(batches, batch + 1);
    let before = flatten(earlier).len() as int;
    assert(flatten(batches.take(batch + 1))[before + i] == batches[batch].appends@[i]);
}

proof fn lemma_flatten_prefix<T>(batches: Seq<CompletionBatch<T>>, n: int)
    requires
        0 <= n <= batches.len(),
    ensures
        flatten(batches.take(n)).len() <= flatten(batches).len(),
        forall|i: int|
            0 <= i < flatten(batches.take(n)).len() ==> #[trigger] flatten(batches.take(n))[i]
                == flatten(batches)[i],
    decreases batches.len() - n,
{
    if n < batches.len() {
        lemma_flatten_prefix(batches, n + 1);
        assert(batches.take(n + 1) =~= batches.take(n).push(batches[n]));
        lemma_flatten_push(batches.take(n), batches[n]);
        assert forall|i: int| 0 <= i < flatten(batches.take(n)).len() implies #[trigger] flatten(
            batches.take(n),
        )[i] == flatten(batches)[i] by {
            assert(flatten(batches.take(n + 1))[i] == flatten(batches.take(n))[i]);
        }
    } else {
        assert(batches.take(n) =~= batches);
    }
}

} // verus!
