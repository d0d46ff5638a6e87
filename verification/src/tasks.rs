//! Scheduling decisions of the background tasks.

use crate::error::Error;
use crate::seqno::AppendReceipt;
use vstd::prelude::*;

verus! {

/// What the command queue of the maintenance task has.
#[derive(Clone, Copy, Debug, PartialEq, Eq, Structural)]
pub enum CommandState {
    /// A command that can be executed.
    Ready,
    /// No command now.
    Empty,
    /// No command now or later: all senders are gone, or the queue was closed
    /// and is drained.
    Closed,
}

/// What the maintenance task does next.
#[derive(Clone, Copy, Debug, PartialEq, Eq, Structural)]
pub enum Duty {
    /// Close the queue; only what it holds is still executed.
    BeginDrain,
    /// Run the periodic pass: sweep, cleanup, repair.
    Pass,
    /// Execute one command.
    Execute,
    /// Wait for an event.
    Wait,
    /// End.
    Stop,
}

/// The maintenance task between two pieces of work.
#[derive(Clone, Copy, Debug, PartialEq, Eq, Structural)]
pub struct MaintenanceLoop {
    /// Whether the task only drains its queue.
    pub draining: bool,
}

impl MaintenanceLoop {
    /// A running task.
    pub fn new() -> (task: Self)
        ensures
            !task.draining,
    {
        MaintenanceLoop { draining: false }
    }

    /// What comes next. Shutdown comes before all; an overdue pass comes before
    /// each command, so that a flood of commands cannot starve it; and while
    /// the queue is drained no pass interleaves.
    pub open spec fn duty(self, shutdown: bool, pass_due: bool, commands: CommandState) -> Duty {
        if self.draining {
            match commands {
                CommandState::Ready => Duty::Execute,
                CommandState::Empty => Duty::Wait,
                CommandState::Closed => Duty::Stop,
            }
        } else if shutdown {
            Duty::BeginDrain
        } else if pass_due {
            Duty::Pass
        } else {
            match commands {
                CommandState::Ready => Duty::Execute,
                CommandState::Empty => Duty::Wait,
                CommandState::Closed => Duty::Stop,
            }
        }
    }

    /// Decides what comes next.
    pub fn next(&mut self, shutdown: bool, pass_due: bool, commands: CommandState) -> (duty: Duty)
        ensures
            duty == old(self).duty(shutdown, pass_due, commands),
            final(self).draining == (old(self).draining || shutdown),
    {
        if !self.draining {
            if shutdown {
                self.draining = true;
                return Duty::BeginDrain;
            }
            if pass_due {
                return Duty::Pass;
            }
        }
        match commands {
            CommandState::Ready => Duty::Execute,
            CommandState::Empty => Duty::Wait,
            CommandState::Closed => Duty::Stop,
        }
    }

    /// Adopts the end of a periodic pass, which shutdown may have cut short.
    pub fn pass_ended(&mut self, shutdown: bool)
        ensures
            final(self).draining == (old(self).draining || shutdown),
    {
        if shutdown {
            self.draining = true;
        }
    }
}

/// What a periodic pass does, one after the other.
#[derive(Clone, Copy, Debug, PartialEq, Eq, Structural)]
pub enum PassStep {
    /// Look for objects of dead incarnations, while the sweep has work.
    Sweep,
    /// Delete what the committed floor has made unreachable.
    Cleanup,
    /// Restore missing copies.
    Repair,
    /// Nothing more.
    Done,
}

/// The step of a pass after this one; `None` stands before the first.
pub open spec fn step_after(after: Option<PassStep>) -> PassStep {
    match after {
        None => PassStep::Sweep,
        Some(PassStep::Sweep) => PassStep::Cleanup,
        Some(PassStep::Cleanup) => PassStep::Repair,
        Some(PassStep::Repair) | Some(PassStep::Done) => PassStep::Done,
    }
}

/// Decides on the next step of a pass.
pub fn next_step(after: Option<PassStep>) -> (step: PassStep)
    ensures
        step == step_after(after),
{
    match after {
        None => PassStep::Sweep,
        Some(PassStep::Sweep) => PassStep::Cleanup,
        Some(PassStep::Cleanup) => PassStep::Repair,
        Some(PassStep::Repair) | Some(PassStep::Done) => PassStep::Done,
    }
}

/// A run of steps, each the one after the step before it.
pub open spec fn is_pass(steps: Seq<PassStep>) -> bool {
    forall|i: int|
        0 <= i < steps.len() ==> #[trigger] steps[i] == step_after(
            if i == 0 {
                None
            } else {
                Some(steps[i - 1])
            },
        )
}

/// A pass sweeps before it deletes, deletes before it repairs, does each once,
/// and is then over.
pub proof fn law_pass_sweeps_deletes_then_repairs(steps: Seq<PassStep>)
    requires
        is_pass(steps),
        steps.len() >= 4,
    ensures
        steps[0] == PassStep::Sweep,
        steps[1] == PassStep::Cleanup,
        steps[2] == PassStep::Repair,
        forall|i: int| 3 <= i < steps.len() ==> #[trigger] steps[i] == PassStep::Done,
    decreases steps.len(),
{
    assert(steps[0] == step_after(None));
    assert(steps[1] == step_after(Some(steps[0])));
    assert(steps[2] == step_after(Some(steps[1])));
    assert(steps[3] == step_after(Some(steps[2])));
    if steps.len() > 4 {
        let earlier = steps.drop_last();
        assert forall|i: int| 0 <= i < earlier.len() implies #[trigger] earlier[i] == step_after(
            if i == 0 {
                None
            } else {
                Some(earlier[i - 1])
            },
        ) by {
            assert(steps[i] == earlier[i]);
        }
        law_pass_sweeps_deletes_then_repairs(earlier);
        let last = steps.len() - 1;
        assert(steps[last] == step_after(Some(steps[last - 1])));
        assert(earlier[last - 1] == PassStep::Done);
    }
}

/// A queued command is never dropped at shutdown: a draining task ends only
/// when its queue is closed and empty.
pub proof fn law_drain_executes_every_command(
    task: MaintenanceLoop,
    shutdown: bool,
    pass_due: bool,
    commands: CommandState,
)
    requires
        task.draining,
    ensures
        commands is Ready ==> task.duty(shutdown, pass_due, commands) == Duty::Execute,
        task.duty(shutdown, pass_due, commands) == Duty::Stop ==> commands is Closed,
        task.duty(shutdown, pass_due, commands) != Duty::Pass,
{
}

/// However many commands there are, an overdue pass runs before the next one.
pub proof fn law_commands_do_not_starve_passes(
    task: MaintenanceLoop,
    commands: CommandState,
)
    requires
        !task.draining,
    ensures
        task.duty(false, true, commands) == Duty::Pass,
{
}

/// The wake-up by which a truncation makes the engine read the directory's
/// capacity again.
#[derive(Clone, Copy, Debug, PartialEq, Eq, Structural)]
pub struct RecheckSignal {
    /// Whether a wake-up is waiting.
    pub pending: bool,
}

impl RecheckSignal {
    /// Notes a completed truncation. One waiting wake-up is enough: the engine
    /// has not seen it yet, so it will read what this truncation left.
    pub fn truncated(&mut self)
        ensures
            final(self).pending,
    {
        self.pending = true;
    }

    /// Takes the wake-up.
    pub fn take(&mut self) -> (woken: bool)
        ensures
            woken == old(self).pending,
            !final(self).pending,
    {
        let woken: bool = self.pending;
        self.pending = false;
        woken
    }
}

/// What the provisioning worker does with an attempt when it is shut down.
#[derive(Clone, Copy, Debug, PartialEq, Eq, Structural)]
pub enum CancelPlan {
    /// Wait for the attempt: a submitted manifest update must come to an end.
    Await,
    /// Wait for the attempt while its replicas are shut down.
    ShutDownReplicas,
}

/// Decides how an attempt is cancelled: one without replicas holds no session
/// that could be closed.
pub fn cancel_plan(replicas: usize) -> (plan: CancelPlan)
    ensures
        plan == if replicas == 0 {
            CancelPlan::Await
        } else {
            CancelPlan::ShutDownReplicas
        },
{
    if replicas == 0 {
        CancelPlan::Await
    } else {
        CancelPlan::ShutDownReplicas
    }
}

/// What a change of the shutdown signal means: a lost signal counts as one
/// that was given.
pub fn shutdown_requested(lost: bool, requested: bool) -> (stop: bool)
    ensures
        stop == (lost || requested),
{
    lost || requested
}

/// Records waiting for dispatch, from the places that are free.
pub fn queue_depth(queue_capacity: usize, free: usize) -> (depth: usize)
    ensures
        depth == if free >= queue_capacity {
            0
        } else {
            queue_capacity - free
        },
{
    if free >= queue_capacity {
        0
    } else {
        queue_capacity - free
    }
}

/// The outcome of an admitted append: an engine that is gone has closed.
pub fn completion_result(received: Option<Result<AppendReceipt, Error>>) -> (result: Result<
    AppendReceipt,
    Error,
>)
    ensures
        result == match received {
            Some(outcome) => outcome,
            None => Err::<AppendReceipt, Error>(Error::Closed),
        },
{
    match received {
        Some(outcome) => outcome,
        None => Err(Error::Closed),
    }
}

/// What the maintenance task does next: a shutdown that was not noticed before
/// begins the drain, an overdue pass goes before any command of a running task
/// and never interrupts a drain, a ready command is executed, and the task ends
/// only if no command is there or can come. Once it drains it does not stop
/// doing so.
pub proof fn law_duties_are_taken_in_order(
    task: &mut MaintenanceLoop,
    shutdown: bool,
    pass_due: bool,
    commands: CommandState,
    duty: Duty,
)
    requires
        call_ensures(MaintenanceLoop::next, (task, shutdown, pass_due, commands), duty),
    ensures
        duty is BeginDrain <==> !old(task).draining && shutdown,
        duty is Pass <==> !old(task).draining && !shutdown && pass_due,
        duty is Execute <==> !(duty is BeginDrain) && !(duty is Pass) && commands is Ready,
        duty is Wait <==> !(duty is BeginDrain) && !(duty is Pass) && commands is Empty,
        duty is Stop <==> !(duty is BeginDrain) && !(duty is Pass) && commands is Closed,
        final(task).draining <==> old(task).draining || shutdown,
{
}

/// A task starts without draining, and a pass that shutdown cut short begins the
/// drain.
pub proof fn law_passes_end_in_a_drain(
    started: MaintenanceLoop,
    task: &mut MaintenanceLoop,
    shutdown: bool,
)
    requires
        call_ensures(MaintenanceLoop::new, (), started),
        call_ensures(MaintenanceLoop::pass_ended, (task, shutdown), ()),
    ensures
        !started.draining,
        final(task).draining <==> old(task).draining || shutdown,
{
}

/// Asked for one step after the other, a pass sweeps, deletes, repairs and is
/// over, and it stays over.
pub proof fn law_steps_of_a_pass(
    first: PassStep,
    second: PassStep,
    third: PassStep,
    fourth: PassStep,
    fifth: PassStep,
)
    requires
        call_ensures(next_step, (None::<PassStep>,), first),
        call_ensures(next_step, (Some(first),), second),
        call_ensures(next_step, (Some(second),), third),
        call_ensures(next_step, (Some(third),), fourth),
        call_ensures(next_step, (Some(fourth),), fifth),
    ensures
        first is Sweep,
        second is Cleanup,
        third is Repair,
        fourth is Done,
        fifth is Done,
{
}

/// No truncation goes unnoticed: a wake-up that was asked for is taken by the
/// next look, once.
pub proof fn law_wake_ups_are_taken_once(
    signal: &mut RecheckSignal,
    taken: &mut RecheckSignal,
    woken: bool,
    again: &mut RecheckSignal,
    woken_again: bool,
)
    requires
        call_ensures(RecheckSignal::truncated, (signal,), ()),
        *old(taken) == *final(signal),
        call_ensures(RecheckSignal::take, (taken,), woken),
        *old(again) == *final(taken),
        call_ensures(RecheckSignal::take, (again,), woken_again),
    ensures
        woken,
        !woken_again,
{
}

/// Small decisions: an attempt with replicas has them shut down while it is
/// awaited; a lost shutdown signal counts as given; what is not free in the queue
/// is taken; and an append whose engine is gone was closed, while any other
/// outcome is handed on as it is.
pub proof fn law_small_decisions(
    replicas: usize,
    plan: CancelPlan,
    lost: bool,
    requested: bool,
    stop: bool,
    queue_capacity: usize,
    free: usize,
    depth: usize,
    received: Option<Result<AppendReceipt, Error>>,
    result: Result<AppendReceipt, Error>,
)
    requires
        call_ensures(cancel_plan, (replicas,), plan),
        call_ensures(shutdown_requested, (lost, requested), stop),
        call_ensures(queue_depth, (queue_capacity, free), depth),
        call_ensures(completion_result, (received,), result),
    ensures
        plan is ShutDownReplicas <==> replicas > 0,
        stop <==> lost || requested,
        free <= queue_capacity ==> depth + free == queue_capacity,
        free > queue_capacity ==> depth == 0,
        received is Some ==> result == received->Some_0,
        received is None ==> result is Err && result->Err_0 is Closed,
{
}

} // verus!
