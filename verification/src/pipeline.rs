//! Everything between admission and outcome taken together, and its bounds.

use crate::config::WalEngineConfig;
use crate::engine::Engine;
use crate::permits::Permits;
use crate::queue;
use crate::queue::{AdmittedAppend, Command};
use vstd::prelude::*;

verus! {

/// The engine, the commands on their way to it, and the permits that admitted
/// records hold: a place in the queue until they are dispatched, and their
/// encoded bytes until they are resolved.
pub struct Pipeline<T, S> {
    /// Places in the queue.
    pub slots: Permits,
    /// Encoded bytes in flight.
    pub bytes: Permits,
    /// Commands that the engine has not received.
    pub channel: Seq<Command<T, S>>,
    /// The engine.
    pub engine: Engine<T, S>,
}

/// Encoded bytes of these records.
pub open spec fn total_bytes<T>(appends: Seq<AdmittedAppend<T>>) -> nat
    decreases appends.len(),
{
    if appends.len() == 0 {
        0
    } else {
        appends[0].encoded_bytes as nat + total_bytes(appends.drop_first())
    }
}

proof fn lemma_total_concat<T>(a: Seq<AdmittedAppend<T>>, b: Seq<AdmittedAppend<T>>)
    ensures
        total_bytes(a + b) == total_bytes(a) + total_bytes(b),
    decreases a.len(),
{
    if a.len() == 0 {
        assert(a + b =~= b);
    } else {
        assert((a + b).drop_first() =~= a.drop_first() + b);
        lemma_total_concat(a.drop_first(), b);
    }
}

proof fn lemma_total_one<T>(append: AdmittedAppend<T>)
    ensures
        total_bytes(seq![append]) == append.encoded_bytes,
{
    assert(seq![append].drop_first() =~= Seq::<AdmittedAppend<T>>::empty());
    reveal_with_fuel(total_bytes, 2);
}

impl<T, S> Pipeline<T, S> {
    /// Admitted records that were not dispatched, wherever they wait.
    pub open spec fn waiting(self) -> nat {
        self.engine.state.queued().len() + queue::appends_of(self.channel).len()
    }

    /// Encoded bytes that were admitted and not resolved.
    pub open spec fn in_flight(self) -> nat {
        total_bytes(self.engine.state.unresolved()) + total_bytes(queue::appends_of(self.channel))
    }

    /// Every waiting record holds a place, every unresolved one its bytes, and
    /// no more are dispatched than the window holds.
    pub open spec fn wf(self) -> bool {
        &&& self.slots.wf()
        &&& self.bytes.wf()
        &&& self.slots.taken == self.waiting()
        &&& self.bytes.taken == self.in_flight()
        &&& self.engine.state.pending_records == self.engine.state.pending().len()
        &&& self.engine.state.pending_records <= self.engine.window
    }

    /// A pipeline that has just been started.
    pub open spec fn started(self, config: WalEngineConfig) -> bool {
        &&& self.slots == (Permits { capacity: config.queue_capacity, taken: 0 })
        &&& self.bytes == (Permits { capacity: config.max_inflight_bytes, taken: 0 })
        &&& self.channel.len() == 0
        &&& self.engine.window == config.pipeline_window_records
        &&& self.engine.state.queue@.len() == 0
        &&& self.engine.state.completion_batches@.len() == 0
        &&& self.engine.state.pending_records == 0
    }

    /// The engine's dispatched records and its window are the same.
    pub open spec fn same_dispatched(self, next: Self) -> bool {
        &&& next.engine.state.completion_batches == self.engine.state.completion_batches
        &&& next.engine.state.pending_records == self.engine.state.pending_records
        &&& next.engine.window == self.engine.window
    }

    /// A record took its permits and is on its way to the engine.
    pub open spec fn admits(self, append: AdmittedAppend<T>, next: Self) -> bool {
        &&& self.slots.taken + 1 <= self.slots.capacity
        &&& next.slots == (Permits { taken: (self.slots.taken + 1) as usize, ..self.slots })
        &&& self.bytes.taken + append.encoded_bytes <= self.bytes.capacity
        &&& next.bytes == (Permits {
            taken: (self.bytes.taken + append.encoded_bytes) as usize,
            ..self.bytes
        })
        &&& next.channel == self.channel.push(Command::Append(append))
        &&& next.engine == self.engine
    }

    /// A record could not be sent after all and gave its permits back.
    pub open spec fn withdraws(self, next: Self) -> bool {
        &&& self.channel.len() > 0
        &&& self.channel.last() is Append
        &&& next.channel == self.channel.drop_last()
        &&& next.slots == (Permits { taken: (self.slots.taken - 1) as usize, ..self.slots })
        &&& next.bytes == (Permits {
            taken: (self.bytes.taken - self.channel.last()->Append_0.encoded_bytes) as usize,
            ..self.bytes
        })
        &&& next.engine == self.engine
    }

    /// A shutdown request, which holds no permit, is on its way to the engine.
    pub open spec fn asks_to_stop(self, response: S, next: Self) -> bool {
        &&& next.channel == self.channel.push(Command::Shutdown { response })
        &&& next.slots == self.slots
        &&& next.bytes == self.bytes
        &&& next.engine == self.engine
    }

    /// The engine receives a command.
    pub open spec fn receives(self, next: Self) -> bool {
        &&& self.channel.len() > 0
        &&& next.channel == self.channel.drop_first()
        &&& next.engine.state.queue@ == self.engine.state.queue@.push(self.channel[0])
        &&& self.same_dispatched(next)
        &&& next.slots == self.slots
        &&& next.bytes == self.bytes
    }

    /// The engine dispatches records, which give their places back.
    pub open spec fn dispatches(self, count: nat, next: Self) -> bool {
        &&& 0 < count <= self.engine.state.batch_size(self.engine.window)
        &&& next.engine.state.queue@ == self.engine.state.queue@.skip(count as int)
        &&& next.engine.state.pending() == self.engine.state.pending()
            + self.engine.state.queued().take(count as int)
        &&& next.engine.state.unresolved() == self.engine.state.unresolved()
        &&& next.engine.state.pending_records == self.engine.state.pending_records + count
        &&& next.engine.window == self.engine.window
        &&& next.channel == self.channel
        &&& next.slots == (Permits { taken: (self.slots.taken - count) as usize, ..self.slots })
        &&& next.bytes == self.bytes
    }

    /// The oldest dispatched records are resolved and give their bytes back.
    pub open spec fn resolves(self, count: nat, next: Self) -> bool {
        let pending = self.engine.state.pending();
        &&& count <= pending.len()
        &&& next.engine.state.queue == self.engine.state.queue
        &&& next.engine.state.pending() == pending.skip(count as int)
        &&& next.engine.state.unresolved() == self.engine.state.unresolved().skip(count as int)
        &&& next.engine.state.pending_records == next.engine.state.pending().len()
        &&& next.engine.window == self.engine.window
        &&& next.channel == self.channel
        &&& next.slots == self.slots
        &&& next.bytes == (Permits {
            taken: (self.bytes.taken - total_bytes(pending.take(count as int))) as usize,
            ..self.bytes
        })
    }

    /// The engine stops and answers everything, what is on its way included.
    pub open spec fn stops(self, next: Self) -> bool {
        &&& next.engine.state.queue@.len() == 0
        &&& next.engine.state.completion_batches@.len() == 0
        &&& next.engine.state.pending_records == 0
        &&& next.engine.window == self.engine.window
        &&& next.channel.len() == 0
        &&& next.slots == (Permits { taken: 0, ..self.slots })
        &&& next.bytes == (Permits { taken: 0, ..self.bytes })
    }

    /// Something happens.
    pub open spec fn moves_to(self, next: Self) -> bool {
        ||| exists|append: AdmittedAppend<T>| self.admits(append, next)
        ||| self.withdraws(next)
        ||| exists|response: S| self.asks_to_stop(response, next)
        ||| self.receives(next)
        ||| exists|count: nat| self.dispatches(count, next)
        ||| exists|count: nat| self.resolves(count, next)
        ||| self.stops(next)
    }
}

proof fn lemma_unresolved<T, S>(pipeline: Pipeline<T, S>)
    ensures
        total_bytes(pipeline.engine.state.unresolved()) == total_bytes(
            pipeline.engine.state.pending(),
        ) + total_bytes(pipeline.engine.state.queued()),
{
    lemma_total_concat(pipeline.engine.state.pending(), pipeline.engine.state.queued());
}

/// Whatever happens keeps the bounds: waiting records hold places, unresolved
/// records hold bytes, and the dispatched ones fit the window.
pub proof fn law_pipeline_keeps_its_bounds<T, S>(before: Pipeline<T, S>, after: Pipeline<T, S>)
    requires
        before.wf(),
        before.moves_to(after),
    ensures
        after.wf(),
        after.slots.capacity == before.slots.capacity,
        after.bytes.capacity == before.bytes.capacity,
        after.engine.window == before.engine.window,
{
    let state = before.engine.state;
    lemma_unresolved(before);
    lemma_unresolved(after);
    if exists|append: AdmittedAppend<T>| before.admits(append, after) {
        let append = choose|append: AdmittedAppend<T>| before.admits(append, after);
        queue::lemma_appends_push(before.channel, Command::<T, S>::Append(append));
        let sent = queue::appends_of(before.channel);
        assert(sent.push(append) =~= sent + seq![append]);
        lemma_total_concat(sent, seq![append]);
        lemma_total_one(append);
    } else if before.withdraws(after) {
        let append = before.channel.last()->Append_0;
        assert(before.channel =~= after.channel.push(before.channel.last()));
        queue::lemma_appends_push(after.channel, before.channel.last());
        let sent = queue::appends_of(after.channel);
        assert(sent.push(append) =~= sent + seq![append]);
        lemma_total_concat(sent, seq![append]);
        lemma_total_one(append);
    } else if exists|response: S| before.asks_to_stop(response, after) {
        let response = choose|response: S| before.asks_to_stop(response, after);
        queue::lemma_appends_push(before.channel, Command::<T, S>::Shutdown { response });
    } else if before.receives(after) {
        let command = before.channel[0];
        queue::lemma_appends_push(state.queue@, command);
        assert(after.engine.state.pending() == state.pending());
        if command is Append {
            let append = command->Append_0;
            let rest = queue::appends_of(after.channel);
            assert(queue::appends_of(before.channel) == seq![append] + rest);
            lemma_total_concat(seq![append], rest);
            lemma_total_one(append);
            assert(state.queued().push(append) =~= state.queued() + seq![append]);
            lemma_total_concat(state.queued(), seq![append]);
        }
    } else if exists|count: nat| before.dispatches(count, after) {
        let count = choose|count: nat| before.dispatches(count, after);
        queue::lemma_leading(state.queue@, count as int);
    } else if exists|count: nat| before.resolves(count, after) {
        let count = choose|count: nat| before.resolves(count, after);
        let pending = state.pending();
        assert(pending =~= pending.take(count as int) + pending.skip(count as int));
        lemma_total_concat(pending.take(count as int), pending.skip(count as int));
    }
}

/// The state after the one at `i` follows from it.
pub open spec fn follows<T, S>(run: Seq<Pipeline<T, S>>, i: int) -> bool {
    run[i].moves_to(run[i + 1])
}

/// At every moment of a run the records that were handed to the writer and are
/// not resolved number at most the configured window, those admitted and not
/// yet handed to it, in the channel and in the queue together, at most the
/// configured queue capacity, and the encoded bytes of both are within the
/// configured budget.
pub proof fn law_pipeline_is_bounded<T, S>(
    run: Seq<Pipeline<T, S>>,
    config: WalEngineConfig,
    i: int,
)
    requires
        0 <= i < run.len(),
        run[0].started(config),
        forall|k: int| 0 <= k < run.len() - 1 ==> #[trigger] follows(run, k),
    ensures
        run[i].wf(),
        run[i].engine.state.pending().len() <= config.pipeline_window_records,
        run[i].waiting() <= config.queue_capacity,
        run[i].in_flight() <= config.max_inflight_bytes,
        run[i].slots.capacity == config.queue_capacity,
        run[i].bytes.capacity == config.max_inflight_bytes,
        run[i].engine.window == config.pipeline_window_records,
    decreases i,
{
    if i > 0 {
        law_pipeline_is_bounded(run, config, i - 1);
        assert(follows(run, i - 1));
        law_pipeline_keeps_its_bounds(run[i - 1], run[i]);
    } else {
        lemma_unresolved(run[0]);
    }
}

} // verus!
