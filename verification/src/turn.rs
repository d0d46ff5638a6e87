//! One turn of the engine's loop: what it does next, and what can wake it.

use crate::engine::{Engine, ProvisionPlan, SwapResult};
use crate::queue;
use crate::queue::{Command, CompletionNext};
use crate::rotation::Rotation;
use vstd::prelude::*;

verus! {

/// How far a turn has come. Within a turn the engine first resolves committed
/// records, then requests background work, swaps, stops, dispatches, and only
/// then waits.
#[derive(Clone, Copy, Debug, PartialEq, Eq, Structural)]
pub enum Stage {
    /// Committed records are resolved.
    Complete,
    /// Background work is requested.
    Provision,
    /// A due rotation swaps segments.
    Swap,
    /// A drained engine takes its shutdown request.
    Stop,
    /// Queued records are dispatched.
    Dispatch,
}

/// What the writer reports of its segments.
#[derive(Clone, Copy, Debug, PartialEq, Eq, Structural)]
pub struct WriterFacts {
    /// A refill is provisioned and waits for the fold to register it.
    pub unregistered_spare_ready: bool,
    /// A spare should be provisioned.
    pub spare_wanted: bool,
    /// A confirmed spare is available for a swap.
    pub spare_ready: bool,
    /// Every record admitted to the active segment has committed.
    pub swap_boundary_ready: bool,
}

/// What the engine does next.
#[derive(Clone, Copy, Debug, PartialEq, Eq, Structural)]
pub enum Action {
    /// Look at the oldest dispatched batch.
    InspectFront,
    /// Request background work.
    Request(ProvisionPlan),
    /// Swap the active segment for its spare.
    BeginSwap,
    /// Take the shutdown request and end.
    Shutdown,
    /// Hand so many records to the writer.
    Dispatch(usize),
    /// End: no input can come and nothing is left.
    Finish,
    /// Wait for an event.
    Wait,
}

/// The events that can wake a waiting engine, in the order of preference.
#[derive(Clone, Copy, Debug, PartialEq, Eq, Structural)]
pub struct Wakes {
    /// Progress of dispatched records.
    pub commits: bool,
    /// An enforced seal, or the end of a fold's retry delay.
    pub rotation: bool,
    /// A recheck after a truncation.
    pub rechecks: bool,
    /// A result of background work.
    pub provisioning: bool,
    /// A command.
    pub commands: bool,
}

impl<T, S> Engine<T, S> {
    /// The background work to request now.
    pub open spec fn planned(self, facts: WriterFacts) -> ProvisionPlan {
        if self.spare_requested {
            ProvisionPlan::Nothing
        } else if self.rotation.may_fold(self.state.next_completion as int)
            && facts.unregistered_spare_ready {
            ProvisionPlan::Fold
        } else if !facts.spare_wanted {
            ProvisionPlan::Nothing
        } else if self.rotation is Draining {
            ProvisionPlan::Unregistered
        } else {
            ProvisionPlan::Registered
        }
    }

    /// Whether the segments must be swapped now.
    pub open spec fn swaps(self, facts: WriterFacts) -> bool {
        self.rotation == Rotation::Due && facts.spare_ready && facts.swap_boundary_ready
    }

    /// Whether the front of the queue asks to stop and nothing is unresolved
    /// before it.
    pub open spec fn stops(self) -> bool {
        self.state.pending_records == 0 && self.state.queue@.len() > 0
            && self.state.queue@[0] is Shutdown
    }

    /// Records that can be dispatched now.
    pub open spec fn dispatchable(self) -> nat {
        if self.rotation.paused() {
            0
        } else {
            self.state.batch_size(self.window)
        }
    }

    /// Whether nothing is left and nothing can come.
    pub open spec fn finished(self) -> bool {
        self.state.input_closed && self.state.queue@.len() == 0 && self.state.pending_records == 0
    }

    /// What the engine does next from a stage on.
    pub open spec fn action(self, stage: Stage, facts: WriterFacts) -> Action {
        let before_provision = stage is Complete || stage is Provision;
        let before_swap = before_provision || stage is Swap;
        let before_stop = before_swap || stage is Stop;
        if stage is Complete && self.state.completion_batches@.len() > 0 {
            Action::InspectFront
        } else if before_provision && self.planned(facts) != ProvisionPlan::Nothing {
            Action::Request(self.planned(facts))
        } else if before_swap && self.swaps(facts) {
            Action::BeginSwap
        } else if before_stop && self.stops() {
            Action::Shutdown
        } else if self.dispatchable() > 0 {
            Action::Dispatch(self.dispatchable() as usize)
        } else if self.finished() {
            Action::Finish
        } else {
            Action::Wait
        }
    }

    fn stop_ready(&self) -> (ready: bool)
        ensures
            ready == self.stops(),
    {
        if self.state.pending_records != 0 || self.state.queue.len() == 0 {
            return false;
        }
        match &self.state.queue[0] {
            Command::Shutdown { response: _ } => true,
            Command::Append(_) => false,
        }
    }

    /// Decides what the engine does next from a stage on, and the stage that
    /// follows where nothing interferes.
    pub fn next_action(&self, stage: Stage, facts: WriterFacts) -> (decided: (Action, Stage))
        ensures
            decided.0 == self.action(stage, facts),
            decided.1 == match decided.0 {
                Action::InspectFront => Stage::Complete,
                Action::Request(_) => Stage::Swap,
                Action::BeginSwap => Stage::Stop,
                Action::Shutdown | Action::Dispatch(_) => Stage::Dispatch,
                Action::Finish | Action::Wait => Stage::Complete,
            },
    {
        let complete: bool = match stage {
            Stage::Complete => true,
            _ => false,
        };
        let before_provision: bool = match stage {
            Stage::Complete | Stage::Provision => true,
            _ => false,
        };
        let before_swap: bool = match stage {
            Stage::Complete | Stage::Provision | Stage::Swap => true,
            _ => false,
        };
        let before_stop: bool = match stage {
            Stage::Dispatch => false,
            _ => true,
        };
        if complete && self.state.completion_batches.len() > 0 {
            return (Action::InspectFront, Stage::Complete);
        }
        if before_provision {
            let plan = self.provision_plan(facts.unregistered_spare_ready, facts.spare_wanted);
            if plan != ProvisionPlan::Nothing {
                return (Action::Request(plan), Stage::Swap);
            }
        }
        if before_swap && self.swap_due(facts.spare_ready, facts.swap_boundary_ready) {
            return (Action::BeginSwap, Stage::Stop);
        }
        if before_stop && self.stop_ready() {
            return (Action::Shutdown, Stage::Dispatch);
        }
        let count: usize = self.next_batch();
        if count > 0 {
            return (Action::Dispatch(count), Stage::Dispatch);
        }
        if self.state.drained() {
            return (Action::Finish, Stage::Complete);
        }
        (Action::Wait, Stage::Complete)
    }

    /// The events that can wake the engine while it waits.
    pub fn wakes(&self) -> (wakes: Wakes)
        ensures
            wakes == (Wakes {
                commits: self.state.pending_records != 0,
                rotation: self.rotation is Sealing || (self.rotation matches Rotation::Draining {
                    retry,
                    ..
                } && retry),
                rechecks: self.rotation_rechecks_open,
                provisioning: true,
                commands: !self.state.input_closed,
            }),
    {
        let sealing: bool = match self.rotation {
            Rotation::Sealing => true,
            _ => false,
        };
        Wakes {
            commits: self.state.pending_records != 0,
            rotation: sealing || self.rotation.retry_pending(),
            rechecks: self.rotation_rechecks_open,
            provisioning: true,
            commands: !self.state.input_closed,
        }
    }
}

/// The stage after a look at the oldest batch: the next batch is looked at as
/// long as one is resolved completely. A failure ends the engine instead.
pub fn stage_after_front(next: &CompletionNext) -> (stage: Option<Stage>)
    ensures
        stage == match *next {
            CompletionNext::NextBatch => Some(Stage::Complete),
            CompletionNext::Wait => Some(Stage::Provision),
            CompletionNext::Failed(_) => None,
        },
{
    match next {
        CompletionNext::NextBatch => Some(Stage::Complete),
        CompletionNext::Wait => Some(Stage::Provision),
        CompletionNext::Failed(_) => None,
    }
}

/// The stage after a swap: the consumed spare is refilled first.
pub fn stage_after_swap(result: SwapResult) -> (stage: Stage)
    ensures
        stage == match result {
            SwapResult::Swapped { .. } => Stage::Complete,
            SwapResult::NotNeeded => Stage::Stop,
        },
{
    match result {
        SwapResult::Swapped { end_record_index: _ } => Stage::Complete,
        SwapResult::NotNeeded => Stage::Stop,
    }
}

/// An engine waits only when it can do nothing: no record can be dispatched and
/// it has not finished. A record at the front of the queue is held back only by
/// a full window or by rotation, and a full window is woken by commits.
pub proof fn law_a_waiting_engine_can_do_nothing<T, S>(
    engine: Engine<T, S>,
    stage: Stage,
    facts: WriterFacts,
)
    requires
        engine.action(stage, facts) == Action::Wait,
    ensures
        engine.dispatchable() == 0,
        !engine.finished(),
        engine.state.queue@.len() > 0 && engine.state.queue@[0] is Append ==> engine.rotation.paused()
            || engine.state.pending_records >= engine.window,
        stage is Complete ==> engine.state.completion_batches@.len() == 0 && engine.planned(facts)
            == ProvisionPlan::Nothing && !engine.swaps(facts) && !engine.stops(),
{
    if engine.state.queue@.len() > 0 && engine.state.queue@[0] is Append
        && !engine.rotation.paused() && engine.state.pending_records < engine.window {
        assert(queue::leading_appends(engine.state.queue@) >= 1);
    }
}

/// Shutdown is graceful: a shutdown request is taken only when no dispatched
/// record is unresolved and no record was queued before it.
pub proof fn law_shutdown_waits_for_earlier_records<T, S>(
    engine: Engine<T, S>,
    stage: Stage,
    facts: WriterFacts,
)
    requires
        engine.wf(),
        engine.action(stage, facts) == Action::Shutdown,
    ensures
        engine.state.pending_records == 0,
        engine.state.pending().len() == 0,
        engine.state.queue@[0] is Shutdown,
{
}

/// While a segment that was swapped out lacks an enforced seal, no swap begins,
/// and neither a crossed budget nor a parked, delayed or released fold changes
/// that.
pub proof fn law_one_unenforced_seal<T, S>(
    engine: Engine<T, S>,
    stage: Stage,
    facts: WriterFacts,
    flag: bool,
    attempts: usize,
)
    requires
        engine.rotation.owes_seal(),
    ensures
        engine.action(stage, facts) != Action::BeginSwap,
        engine.rotation.marked(flag).owes_seal(),
        engine.rotation.with_capacity_block(flag).owes_seal(),
        engine.rotation.with_retry(flag, attempts).owes_seal(),
{
}

/// While rotation is disabled nothing is swapped or folded, and neither a
/// sample of the budget nor the end of a delay or of a capacity block enables
/// it again.
pub proof fn law_disabled_rotation_stays_disabled<T, S>(
    engine: Engine<T, S>,
    stage: Stage,
    facts: WriterFacts,
    flag: bool,
    attempts: usize,
)
    requires
        engine.rotation is Disabled,
    ensures
        engine.action(stage, facts) != Action::BeginSwap,
        engine.action(stage, facts) != Action::Request(ProvisionPlan::Fold),
        engine.rotation.marked(flag) is Disabled,
        engine.rotation.with_capacity_block(flag) == engine.rotation,
        engine.rotation.with_retry(flag, attempts) == engine.rotation,
{
}

/// An engine ends only when nothing is left: its input is closed, no command is
/// queued and every dispatched record has resolved. In particular a shutdown
/// request is never left unanswered.
pub proof fn law_engine_finishes_only_when_drained<T, S>(
    engine: &Engine<T, S>,
    stage: Stage,
    facts: WriterFacts,
    decided: (Action, Stage),
)
    requires
        call_ensures(Engine::<T, S>::next_action, (engine, stage, facts), decided),
        decided.0 is Finish,
    ensures
        engine.state.input_closed,
        engine.state.queue@.len() == 0,
        engine.state.pending_records == 0,
        engine.wf() ==> engine.state.unresolved().len() == 0,
{
}

/// What each decision needs, in plain terms: a look at a batch needs a batch, a
/// swap a crossed budget, a confirmed spare and a committed boundary, the end a
/// shutdown request in front with nothing unresolved before it, a dispatch
/// records in front, room in the window and a budget that is not crossed.
pub proof fn law_decisions_are_justified<T, S>(
    engine: &Engine<T, S>,
    stage: Stage,
    facts: WriterFacts,
    decided: (Action, Stage),
)
    requires
        call_ensures(Engine::<T, S>::next_action, (engine, stage, facts), decided),
    ensures
        ({
            let queue = engine.state.queue@;
            let action = decided.0;
            &&& action is InspectFront <==> stage is Complete
                && engine.state.completion_batches@.len() > 0
            &&& action is Request ==> {
                &&& stage is Complete || stage is Provision
                &&& !engine.spare_requested
                &&& action->Request_0 is Fold ==> engine.rotation is Draining
                    && facts.unregistered_spare_ready && engine.rotation->end_record_index
                    < engine.state.next_completion && !engine.rotation->retry
                    && !engine.rotation->fold_capacity_blocked
                &&& action->Request_0 is Unregistered ==> engine.rotation is Draining
                    && facts.spare_wanted
                &&& action->Request_0 is Registered ==> !(engine.rotation is Draining)
                    && facts.spare_wanted
                &&& !(action->Request_0 is Nothing)
            }
            &&& action is BeginSwap ==> {
                &&& !(stage is Stop) && !(stage is Dispatch)
                &&& engine.rotation is Due && facts.spare_ready && facts.swap_boundary_ready
            }
            &&& action is Shutdown ==> {
                &&& !(stage is Dispatch)
                &&& engine.state.pending_records == 0 && queue.len() > 0 && queue[0] is Shutdown
            }
            &&& action is Dispatch ==> {
                let count = action->Dispatch_0;
                &&& 0 < count <= queue.len()
                &&& engine.state.pending_records + count <= engine.window
                &&& forall|i: int| 0 <= i < count ==> #[trigger] queue[i] is Append
                &&& engine.state.pending_records + count < engine.window && count < queue.len()
                    ==> queue[count as int] is Shutdown
                &&& !(engine.rotation is Due)
                &&& engine.rotation is Draining ==> !engine.rotation->successor_due
                &&& engine.rotation is Disabled ==> !engine.rotation->due
            }
        }),
{
    queue::lemma_leading_end(engine.state.queue@);
    if decided.0 is Dispatch {
        queue::lemma_leading(engine.state.queue@, decided.0->Dispatch_0 as int);
    }
}

/// Whatever can be done is done, in the order of the turn: an engine waits only
/// if no batch can be looked at, no work can be requested, no swap begun, no
/// shutdown request taken, no record dispatched, and something is left or can
/// still come.
pub proof fn law_nothing_possible_is_put_off<T, S>(
    engine: &Engine<T, S>,
    stage: Stage,
    facts: WriterFacts,
    decided: (Action, Stage),
    paused: bool,
)
    requires
        call_ensures(Engine::<T, S>::next_action, (engine, stage, facts), decided),
        call_ensures(Rotation::dispatch_paused, (&engine.rotation,), paused),
    ensures
        ({
            let queue = engine.state.queue@;
            let action = decided.0;
            let begins = stage is Complete || stage is Provision;
            let folds = engine.rotation is Draining && facts.unregistered_spare_ready
                && engine.rotation->end_record_index < engine.state.next_completion
                && !engine.rotation->retry && !engine.rotation->fold_capacity_blocked;
            let requests = begins && !engine.spare_requested && (folds || facts.spare_wanted);
            let swaps = (begins || stage is Swap) && engine.rotation is Due && facts.spare_ready
                && facts.swap_boundary_ready;
            let stops = !(stage is Dispatch) && engine.state.pending_records == 0 && queue.len() > 0
                && queue[0] is Shutdown;
            let dispatches = !paused && engine.state.pending_records < engine.window && queue.len()
                > 0 && queue[0] is Append;
            let inspects = stage is Complete && engine.state.completion_batches@.len() > 0;
            let left = queue.len() > 0 || engine.state.pending_records > 0
                || !engine.state.input_closed;
            &&& action is Request <==> !inspects && requests
            &&& action is Request && folds ==> action->Request_0 is Fold
            &&& action is BeginSwap <==> !inspects && !requests && swaps
            &&& action is Shutdown <==> !inspects && !requests && !swaps && stops
            &&& action is Dispatch <==> !inspects && !requests && !swaps && !stops && dispatches
            &&& action is Finish <==> !inspects && !requests && !swaps && !stops && !dispatches
                && !left
            &&& action is Wait <==> !inspects && !requests && !swaps && !stops && !dispatches
                && left
        }),
{
    queue::lemma_leading_end(engine.state.queue@);
    if engine.state.queue@.len() > 0 && engine.state.queue@[0] is Append {
        assert(queue::leading_appends(engine.state.queue@) >= 1);
    }
}

/// A turn goes forward: the stage after a decision is never earlier than the one
/// it was made in, except that a look at a batch and the end of a turn lead to
/// its beginning.
pub proof fn law_turns_go_forward<T, S>(
    engine: &Engine<T, S>,
    stage: Stage,
    facts: WriterFacts,
    decided: (Action, Stage),
)
    requires
        call_ensures(Engine::<T, S>::next_action, (engine, stage, facts), decided),
    ensures
        decided.0 is InspectFront || decided.0 is Finish || decided.0 is Wait
            ==> decided.1 is Complete,
        decided.0 is Request ==> decided.1 is Swap,
        decided.0 is BeginSwap ==> decided.1 is Stop,
        decided.0 is Shutdown || decided.0 is Dispatch ==> decided.1 is Dispatch,
{
}

/// A waiting engine listens to everything that can move it on: to commits while
/// records are dispatched, to a seal in flight or a running delay, to rechecks
/// and commands as long as they can come, and always to background work.
pub proof fn law_waiting_engine_hears_what_it_needs<T, S>(engine: &Engine<T, S>, wakes: Wakes)
    requires
        call_ensures(Engine::<T, S>::wakes, (engine,), wakes),
    ensures
        wakes.commits <==> engine.state.pending_records > 0,
        wakes.rotation <==> engine.rotation is Sealing || engine.rotation is Draining
            && engine.rotation->retry,
        wakes.rechecks <==> engine.rotation_rechecks_open,
        wakes.provisioning,
        wakes.commands <==> !engine.state.input_closed,
{
}

/// Batches are looked at until one waits, and a failed one ends the turn; a swap
/// begins the turn anew so that the consumed spare is refilled first.
pub proof fn law_stages_follow_results(
    next: &CompletionNext,
    after_front: Option<Stage>,
    result: SwapResult,
    after_swap: Stage,
)
    requires
        call_ensures(stage_after_front, (next,), after_front),
        call_ensures(stage_after_swap, (result,), after_swap),
    ensures
        after_front is None <==> next is Failed,
        next is NextBatch ==> after_front->Some_0 is Complete,
        next is Wait ==> after_front->Some_0 is Provision,
        result is Swapped <==> after_swap is Complete,
        result is NotNeeded <==> after_swap is Stop,
{
}

} // verus!
