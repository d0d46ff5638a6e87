//! Benchmark workloads: what may be sent next, and what is counted.

use crate::seqno::WalSeqNo;
use crate::text;
use vstd::prelude::*;

verus! {

/// What an open- or closed-loop run came to.
#[derive(Clone, Copy, Debug, PartialEq, Eq, Structural)]
pub struct WorkloadStats {
    /// Appends that completed.
    pub completed_appends: u64,
    /// Appends that were sent.
    pub scheduled_appends: u64,
    /// Times that a due append waited because too many were outstanding.
    pub outstanding_cap_waits: u64,
    /// Whether the run was given up before all appends completed.
    pub drain_timed_out: bool,
    /// Appends outstanding when it was given up.
    pub undrained_appends: usize,
}

impl WorkloadStats {
    /// Nothing happened.
    pub fn new() -> (stats: Self)
        ensures
            stats == (WorkloadStats {
                completed_appends: 0,
                scheduled_appends: 0,
                outstanding_cap_waits: 0,
                drain_timed_out: false,
                undrained_appends: 0,
            }),
    {
        WorkloadStats {
            completed_appends: 0,
            scheduled_appends: 0,
            outstanding_cap_waits: 0,
            drain_timed_out: false,
            undrained_appends: 0,
        }
    }

    /// A closed-loop run, in which every append that was sent has completed.
    pub fn closed(completed: u64) -> (stats: Self)
        ensures
            stats == (WorkloadStats {
                completed_appends: completed,
                scheduled_appends: completed,
                outstanding_cap_waits: 0,
                drain_timed_out: false,
                undrained_appends: 0,
            }),
    {
        let mut stats = WorkloadStats::new();
        stats.completed_appends = completed;
        stats.scheduled_appends = completed;
        stats
    }
}

/// Appends that the engine can hold across its queue and its pipeline; waiting
/// at the same bound keeps a benchmark from growing.
pub fn outstanding_cap(queue_capacity: usize, pipeline_window: usize) -> (cap: usize)
    ensures
        cap == if queue_capacity + pipeline_window > usize::MAX {
            usize::MAX as int
        } else {
            queue_capacity + pipeline_window
        },
{
    match queue_capacity.checked_add(pipeline_window) {
        Some(cap) => cap,
        None => usize::MAX,
    }
}

/// What an open-loop run does when an append is due.
#[derive(Clone, Copy, Debug, PartialEq, Eq, Structural)]
pub enum OpenLoopStep {
    /// Send it.
    Send,
    /// Wait for a completion, or for the end of the drain time.
    AwaitCompletion,
}

/// An open-loop run: appends become due at fixed times, whatever becomes of
/// the ones before.
#[derive(Clone, Copy, Debug, PartialEq, Eq, Structural)]
pub struct OpenLoop {
    /// Appends that may be outstanding.
    pub cap: usize,
    /// Appends outstanding.
    pub inflight: usize,
    /// What was counted so far.
    pub stats: WorkloadStats,
}

impl OpenLoop {
    /// Every append that was sent completed or is outstanding, no more are
    /// outstanding than may be, and none is given up before the drain time is
    /// over.
    pub open spec fn wf(self) -> bool {
        &&& self.cap > 0
        &&& self.inflight <= self.cap
        &&& self.stats.scheduled_appends == self.stats.completed_appends + self.inflight
        &&& !self.stats.drain_timed_out ==> self.stats.undrained_appends == 0
    }

    /// The run is over: all that was sent completed, or it was given up with
    /// what is outstanding.
    pub open spec fn over(self) -> bool {
        if self.stats.drain_timed_out {
            self.stats.undrained_appends == self.inflight
        } else {
            self.inflight == 0
        }
    }

    /// A run that sent nothing.
    pub fn new(cap: usize) -> (run: Self)
        requires
            cap > 0,
        ensures
            run.wf(),
            run == (OpenLoop {
                cap,
                inflight: 0,
                stats: WorkloadStats {
                    completed_appends: 0,
                    scheduled_appends: 0,
                    outstanding_cap_waits: 0,
                    drain_timed_out: false,
                    undrained_appends: 0,
                },
            }),
    {
        OpenLoop { cap, inflight: 0, stats: WorkloadStats::new() }
    }

    /// The sequence number of the next append of a run that began with `first`.
    pub fn next_seqno(&self, first: u64) -> (seqno: Option<u64>)
        ensures
            seqno == if first + self.stats.scheduled_appends <= u64::MAX {
                Some((first + self.stats.scheduled_appends) as u64)
            } else {
                None
            },
    {
        first.checked_add(self.stats.scheduled_appends)
    }

    /// An append is due: where too many are outstanding this counts as a wait.
    pub fn due(&mut self) -> (step: OpenLoopStep)
        requires
            old(self).wf(),
        ensures
            final(self).wf(),
            step == if old(self).inflight >= old(self).cap {
                OpenLoopStep::AwaitCompletion
            } else {
                OpenLoopStep::Send
            },
            *final(self) == (OpenLoop {
                stats: WorkloadStats {
                    outstanding_cap_waits: if old(self).inflight < old(self).cap
                        || old(self).stats.outstanding_cap_waits == u64::MAX {
                        old(self).stats.outstanding_cap_waits
                    } else {
                        (old(self).stats.outstanding_cap_waits + 1) as u64
                    },
                    ..old(self).stats
                },
                ..*old(self)
            }),
    {
        if self.inflight >= self.cap {
            self.stats.outstanding_cap_waits = self.stats.outstanding_cap_waits.saturating_add(1);
            OpenLoopStep::AwaitCompletion
        } else {
            OpenLoopStep::Send
        }
    }

    /// What a due append that waits does after a completion.
    pub fn after_completion(&self) -> (step: OpenLoopStep)
        ensures
            step == if self.inflight >= self.cap {
                OpenLoopStep::AwaitCompletion
            } else {
                OpenLoopStep::Send
            },
    {
        if self.inflight >= self.cap {
            OpenLoopStep::AwaitCompletion
        } else {
            OpenLoopStep::Send
        }
    }

    /// An append was sent.
    pub fn sent(&mut self)
        requires
            old(self).wf(),
            old(self).inflight < old(self).cap,
            old(self).stats.scheduled_appends < u64::MAX,
        ensures
            final(self).wf(),
            *final(self) == (OpenLoop {
                inflight: (old(self).inflight + 1) as usize,
                stats: WorkloadStats {
                    scheduled_appends: (old(self).stats.scheduled_appends + 1) as u64,
                    ..old(self).stats
                },
                ..*old(self)
            }),
    {
        self.inflight = self.inflight + 1;
        self.stats.scheduled_appends = self.stats.scheduled_appends + 1;
    }

    /// An append completed.
    pub fn completed(&mut self)
        requires
            old(self).wf(),
            old(self).inflight > 0,
        ensures
            final(self).wf(),
            *final(self) == (OpenLoop {
                inflight: (old(self).inflight - 1) as usize,
                stats: WorkloadStats {
                    completed_appends: (old(self).stats.completed_appends + 1) as u64,
                    ..old(self).stats
                },
                ..*old(self)
            }),
    {
        self.inflight = self.inflight - 1;
        self.stats.completed_appends = self.stats.completed_appends + 1;
    }

    /// The drain time is over: the run is given up with what is outstanding.
    pub fn timed_out(&mut self)
        requires
            old(self).wf(),
        ensures
            final(self).wf(),
            final(self).over(),
            *final(self) == (OpenLoop {
                stats: WorkloadStats {
                    drain_timed_out: true,
                    undrained_appends: old(self).inflight,
                    ..old(self).stats
                },
                ..*old(self)
            }),
    {
        self.stats.drain_timed_out = true;
        self.stats.undrained_appends = self.inflight;
    }
}

/// A run that is over accounts for every append: each one that was sent
/// completed or is reported as undrained, and undrained appends are reported
/// only of a run that was given up, never more than may be outstanding.
pub proof fn law_open_loop_accounts_for_every_append(run: OpenLoop)
    requires
        run.wf(),
        run.over(),
    ensures
        run.stats.scheduled_appends == run.stats.completed_appends + run.stats.undrained_appends,
        run.stats.undrained_appends > 0 ==> run.stats.drain_timed_out,
        run.stats.undrained_appends <= run.cap,
{
}

/// A closed-loop run: a fixed number of appends is outstanding, and each one
/// that completes in time is followed by another.
#[derive(Clone, Copy, Debug, PartialEq, Eq, Structural)]
pub struct ClosedLoop {
    /// Appends to keep outstanding.
    pub outstanding: usize,
    /// Appends outstanding.
    pub inflight: usize,
    /// Appends that completed.
    pub completed: u64,
}

impl ClosedLoop {
    /// No more are outstanding than are to be kept so.
    pub open spec fn wf(self) -> bool {
        self.inflight <= self.outstanding
    }

    /// A run that sent nothing.
    pub fn new(outstanding: usize) -> (run: Self)
        ensures
            run.wf(),
            run == (ClosedLoop { outstanding, inflight: 0, completed: 0 }),
    {
        ClosedLoop { outstanding, inflight: 0, completed: 0 }
    }

    /// The sequence number of the next append of a run that began with `first`.
    pub fn next_seqno(&self, first: u64) -> (seqno: Option<u64>)
        ensures
            seqno == if first + self.completed + self.inflight <= u64::MAX {
                Some((first + self.completed + self.inflight) as u64)
            } else {
                None
            },
    {
        match first.checked_add(self.completed) {
            Some(behind) => behind.checked_add(self.inflight as u64),
            None => None,
        }
    }

    /// Whether an append is sent to begin with.
    pub fn fills(&self) -> (fills: bool)
        ensures
            fills == (self.inflight < self.outstanding),
    {
        self.inflight < self.outstanding
    }

    /// An append was sent.
    pub fn sent(&mut self)
        requires
            old(self).inflight < old(self).outstanding,
        ensures
            final(self).wf(),
            *final(self) == (ClosedLoop {
                inflight: (old(self).inflight + 1) as usize,
                ..*old(self)
            }),
    {
        self.inflight = self.inflight + 1;
    }

    /// An append completed; whether another one follows it.
    pub fn completes(&mut self, before_deadline: bool) -> (follows: bool)
        requires
            old(self).wf(),
            old(self).inflight > 0,
            old(self).completed < u64::MAX,
        ensures
            final(self).wf(),
            final(self).inflight < final(self).outstanding,
            *final(self) == (ClosedLoop {
                inflight: (old(self).inflight - 1) as usize,
                completed: (old(self).completed + 1) as u64,
                ..*old(self)
            }),
            follows == before_deadline,
    {
        self.inflight = self.inflight - 1;
        self.completed = self.completed + 1;
        before_deadline
    }

    /// What the run came to, once nothing is outstanding.
    pub fn stats(&self) -> (stats: WorkloadStats)
        requires
            self.inflight == 0,
        ensures
            stats == (WorkloadStats {
                completed_appends: self.completed,
                scheduled_appends: self.completed,
                outstanding_cap_waits: 0,
                drain_timed_out: false,
                undrained_appends: 0,
            }),
    {
        WorkloadStats::closed(self.completed)
    }
}

/// A run of consecutively numbered appends through a window.
#[derive(Clone, Copy, Debug, PartialEq, Eq, Structural)]
pub struct AppendWindow {
    /// Number of the next append.
    pub next: u64,
    /// Number behind the last append.
    pub target: u64,
    /// Appends outstanding.
    pub inflight: usize,
    /// Appends that may be outstanding.
    pub window: usize,
}

impl AppendWindow {
    /// No more are outstanding than may be, and the next one is not behind the
    /// last.
    pub open spec fn wf(self) -> bool {
        self.next <= self.target && self.inflight <= self.window && self.window > 0
    }

    /// A run of `count` appends from `start` on.
    pub fn new(start: u64, count: u64, window: usize) -> (run: Self)
        requires
            start + count <= u64::MAX,
            window > 0,
        ensures
            run.wf(),
            run == (AppendWindow {
                next: start,
                target: (start + count) as u64,
                inflight: 0,
                window,
            }),
    {
        AppendWindow { next: start, target: start + count, inflight: 0, window }
    }

    /// The number to append next, if one may be sent now.
    pub fn send(&mut self) -> (number: Option<u64>)
        requires
            old(self).wf(),
        ensures
            final(self).wf(),
            if old(self).inflight < old(self).window && old(self).next < old(self).target {
                &&& number == Some(old(self).next)
                &&& *final(self) == (AppendWindow {
                    next: (old(self).next + 1) as u64,
                    inflight: (old(self).inflight + 1) as usize,
                    ..*old(self)
                })
            } else {
                number is None && *final(self) == *old(self)
            },
    {
        if self.inflight < self.window && self.next < self.target {
            let number: u64 = self.next;
            self.next = self.next + 1;
            self.inflight = self.inflight + 1;
            Some(number)
        } else {
            None
        }
    }

    /// An append completed.
    pub fn completed(&mut self)
        requires
            old(self).wf(),
            old(self).inflight > 0,
        ensures
            final(self).wf(),
            *final(self) == (AppendWindow {
                inflight: (old(self).inflight - 1) as usize,
                ..*old(self)
            }),
    {
        self.inflight = self.inflight - 1;
    }

    /// Whether all appends were sent and completed.
    pub fn finished(&self) -> (finished: bool)
        requires
            self.wf(),
        ensures
            finished == (self.inflight == 0 && self.next == self.target),
    {
        self.inflight == 0 && self.next == self.target
    }
}

/// A window is never stuck: while appends remain, one may be sent or one is
/// outstanding.
pub proof fn law_window_makes_progress(run: AppendWindow)
    requires
        run.wf(),
        !(run.inflight == 0 && run.next == run.target),
    ensures
        run.inflight > 0 || (run.inflight < run.window && run.next < run.target),
{
}

/// Checks that a follower delivers the records one after the other; gives the
/// number expected next.
pub fn delivered(expected: u64, actual: u64) -> (result: Result<u64, String>)
    requires
        expected < u64::MAX,
    ensures
        if actual == expected {
            result matches Ok(next) && next == expected + 1
        } else {
            result matches Err(message) && message@ == "readonly follower returned "@
                + text::decimal(actual as nat) + ", expected "@ + text::decimal(expected as nat)
        },
{
    if actual == expected {
        return Ok(expected + 1);
    }
    let mut message = "readonly follower returned ".to_owned();
    text::push_decimal(&mut message, actual);
    message.append(", expected ");
    text::push_decimal(&mut message, expected);
    Err(message)
}

/// Checks that the log that a run will follow is still empty.
pub fn starts_empty(end: WalSeqNo) -> (result: Result<(), &'static str>)
    ensures
        if end.record_index == 0 {
            result is Ok
        } else {
            result matches Err(reason) && reason@ == "readonly benchmark requires an unused prefix"@
        },
{
    if end.record_index == 0 {
        Ok(())
    } else {
        Err("readonly benchmark requires an unused prefix")
    }
}

/// Checks that a run that must stay in one segment has not rotated.
pub fn stayed_active(rotations: u64) -> (result: Result<(), String>)
    ensures
        if rotations == 0 {
            result is Ok
        } else {
            result matches Err(message) && message@
                == "readonly active-tail benchmark unexpectedly rotated "@ + text::decimal(
                rotations as nat,
            ) + " segments"@
        },
{
    if rotations == 0 {
        return Ok(());
    }
    let mut message = "readonly active-tail benchmark unexpectedly rotated ".to_owned();
    text::push_decimal(&mut message, rotations);
    message.append(" segments");
    Err(message)
}

/// A benchmark waits where the engine would: at what its queue and its window
/// hold together.
pub proof fn law_benchmarks_wait_where_the_engine_does(
    queue_capacity: usize,
    pipeline_window: usize,
    cap: usize,
)
    requires
        call_ensures(outstanding_cap, (queue_capacity, pipeline_window), cap),
    ensures
        queue_capacity + pipeline_window <= usize::MAX ==> cap == queue_capacity + pipeline_window,
        queue_capacity + pipeline_window > usize::MAX ==> cap == usize::MAX,
{
}

/// In an open loop a due append is sent exactly if fewer are outstanding than
/// may be, and a wait is counted exactly if it is not. Sending and completing one
/// keep the account: what was sent completed or is outstanding.
pub proof fn law_open_loops_send_what_is_due(
    waiting: &mut OpenLoop,
    step: OpenLoopStep,
    again: OpenLoopStep,
    sending: &mut OpenLoop,
    completing: &mut OpenLoop,
    first: u64,
    seqno: Option<u64>,
    next: Option<u64>,
)
    requires
        call_ensures(OpenLoop::due, (waiting,), step),
        call_ensures(OpenLoop::after_completion, (&*final(waiting),), again),
        old(sending).wf(),
        old(sending).inflight < old(sending).cap,
        old(sending).stats.scheduled_appends < u64::MAX,
        call_ensures(OpenLoop::next_seqno, (&*old(sending), first), seqno),
        call_ensures(OpenLoop::sent, (sending,), ()),
        call_ensures(OpenLoop::next_seqno, (&*final(sending), first), next),
        old(completing).wf(),
        old(completing).inflight > 0,
        call_ensures(OpenLoop::completed, (completing,), ()),
    ensures
        step is Send <==> old(waiting).inflight < old(waiting).cap,
        again == step,
        final(waiting).inflight == old(waiting).inflight,
        final(waiting).stats.scheduled_appends == old(waiting).stats.scheduled_appends,
        final(waiting).stats.completed_appends == old(waiting).stats.completed_appends,
        step is Send ==> final(waiting).stats == old(waiting).stats,
        step is AwaitCompletion && old(waiting).stats.outstanding_cap_waits < u64::MAX ==> final(waiting).stats.outstanding_cap_waits == old(waiting).stats.outstanding_cap_waits + 1,
        final(sending).inflight == old(sending).inflight + 1,
        final(sending).stats.scheduled_appends == old(sending).stats.scheduled_appends + 1,
        final(sending).stats.completed_appends == old(sending).stats.completed_appends,
        final(completing).inflight == old(completing).inflight - 1,
        final(completing).stats.completed_appends == old(completing).stats.completed_appends + 1,
        final(completing).stats.scheduled_appends == old(completing).stats.scheduled_appends,
        seqno is Some ==> seqno->Some_0 == first + old(sending).stats.scheduled_appends,
        seqno is Some && next is Some ==> next->Some_0 == seqno->Some_0 + 1,
        seqno is None <==> first + old(sending).stats.scheduled_appends > u64::MAX,
{
}

/// An open loop starts with nothing counted, and one that is given up reports
/// what is outstanding.
pub proof fn law_open_loops_report_what_is_left(
    cap: usize,
    fresh: OpenLoop,
    run: &mut OpenLoop,
)
    requires
        call_ensures(OpenLoop::new, (cap,), fresh),
        call_ensures(OpenLoop::timed_out, (run,), ()),
    ensures
        fresh.cap == cap && fresh.inflight == 0,
        fresh.stats.completed_appends == 0 && fresh.stats.scheduled_appends == 0
            && fresh.stats.outstanding_cap_waits == 0,
        !fresh.stats.drain_timed_out && fresh.stats.undrained_appends == 0,
        final(run).stats.drain_timed_out,
        final(run).stats.undrained_appends == old(run).inflight,
        final(run).stats.completed_appends == old(run).stats.completed_appends,
        final(run).stats.scheduled_appends == old(run).stats.scheduled_appends,
        final(run).inflight == old(run).inflight && final(run).cap == old(run).cap,
{
}

/// A closed loop fills up to its number and follows each append that completes
/// in time by another; it numbers its appends without a gap, and its report says
/// that everything sent has completed.
pub proof fn law_closed_loops_keep_their_number(
    outstanding: usize,
    fresh: ClosedLoop,
    sending: &mut ClosedLoop,
    fills: bool,
    completing: &mut ClosedLoop,
    before_deadline: bool,
    follows: bool,
    first: u64,
    seqno: Option<u64>,
    next: Option<u64>,
    ended: &ClosedLoop,
    stats: WorkloadStats,
)
    requires
        call_ensures(ClosedLoop::new, (outstanding,), fresh),
        call_ensures(ClosedLoop::fills, (&*old(sending),), fills),
        old(sending).inflight < old(sending).outstanding,
        call_ensures(ClosedLoop::next_seqno, (&*old(sending), first), seqno),
        call_ensures(ClosedLoop::sent, (sending,), ()),
        call_ensures(ClosedLoop::next_seqno, (&*final(sending), first), next),
        old(completing).inflight > 0,
        old(completing).completed < u64::MAX,
        call_ensures(ClosedLoop::completes, (completing, before_deadline), follows),
        ended.inflight == 0,
        call_ensures(ClosedLoop::stats, (ended,), stats),
    ensures
        fresh.outstanding == outstanding && fresh.inflight == 0 && fresh.completed == 0,
        fills,
        final(sending).inflight == old(sending).inflight + 1,
        final(sending).completed == old(sending).completed,
        seqno is Some ==> seqno->Some_0 == first + old(sending).completed + old(sending).inflight,
        seqno is Some && next is Some ==> next->Some_0 == seqno->Some_0 + 1,
        follows <==> before_deadline,
        final(completing).inflight == old(completing).inflight - 1,
        final(completing).completed == old(completing).completed + 1,
        stats.completed_appends == ended.completed,
        stats.scheduled_appends == ended.completed,
        !stats.drain_timed_out && stats.undrained_appends == 0,
        stats.outstanding_cap_waits == 0,
{
}

/// A window sends its numbers in order, each once, exactly while there is room
/// and one is left; it is finished exactly if all were sent and completed.
pub proof fn law_windows_send_their_numbers_in_order(
    start: u64,
    count: u64,
    window: usize,
    fresh: AppendWindow,
    sending: &mut AppendWindow,
    number: Option<u64>,
    completing: &mut AppendWindow,
    run: &AppendWindow,
    finished: bool,
)
    requires
        start + count <= u64::MAX,
        call_ensures(AppendWindow::new, (start, count, window), fresh),
        old(sending).wf(),
        call_ensures(AppendWindow::send, (sending,), number),
        old(completing).inflight > 0,
        call_ensures(AppendWindow::completed, (completing,), ()),
        call_ensures(AppendWindow::finished, (run,), finished),
    ensures
        fresh.next == start && fresh.target == start + count && fresh.inflight == 0
            && fresh.window == window,
        number is Some <==> old(sending).inflight < old(sending).window && old(sending).next < old(
            sending,
        ).target,
        number is Some ==> number->Some_0 == old(sending).next && final(sending).next == old(
            sending,
        ).next + 1 && final(sending).inflight == old(sending).inflight + 1,
        number is None ==> *final(sending) == *old(sending),
        final(sending).target == old(sending).target,
        final(sending).window == old(sending).window,
        final(completing).inflight == old(completing).inflight - 1,
        final(completing).next == old(completing).next,
        final(completing).target == old(completing).target,
        finished <==> run.inflight == 0 && run.next == run.target,
{
}

/// A follower must deliver exactly the expected record; a run follows only an
/// unused log, and one that must stay in a segment has not rotated.
pub proof fn law_followers_deliver_in_order(
    expected: u64,
    actual: u64,
    result: Result<u64, String>,
    end: WalSeqNo,
    empty: Result<(), &'static str>,
    rotations: u64,
    stayed: Result<(), String>,
)
    requires
        expected < u64::MAX,
        call_ensures(delivered, (expected, actual), result),
        call_ensures(starts_empty, (end,), empty),
        call_ensures(stayed_active, (rotations,), stayed),
    ensures
        result is Ok <==> actual == expected,
        result is Ok ==> result->Ok_0 == actual + 1,
        empty is Ok <==> end.record_index == 0,
        stayed is Ok <==> rotations == 0,
{
}

/// Counts begin at zero; those of a closed loop count each completed append as
/// scheduled, and nothing as left over.
pub proof fn law_counts_begin_at_zero(fresh: WorkloadStats, completed: u64, closed: WorkloadStats)
    requires
        call_ensures(WorkloadStats::new, (), fresh),
        call_ensures(WorkloadStats::closed, (completed,), closed),
    ensures
        fresh.completed_appends == 0 && fresh.scheduled_appends == 0,
        fresh.outstanding_cap_waits == 0 && fresh.undrained_appends == 0 && !fresh.drain_timed_out,
        closed.completed_appends == completed && closed.scheduled_appends == completed,
        closed.outstanding_cap_waits == 0 && closed.undrained_appends == 0
            && !closed.drain_timed_out,
{
}

} // verus!
