//! Rotation control for one preregistered pending segment.

use vstd::prelude::*;

verus! {

/// Where the log stands between two active segments.
#[derive(Clone, Copy, Debug, PartialEq, Eq, Structural)]
pub enum Rotation {
    /// Active segment within its advisory size budget.
    Idle,
    /// Budget crossed. Dispatch is fail-closed until a confirmed pending
    /// segment is available for the in-memory swap.
    Due,
    /// Admissions already route to the adopted spare; the swapped-out segment
    /// is draining toward its admitted end.
    Draining {
        /// Last record index of the swapped-out segment.
        end_record_index: u64,
        /// Fold attempts that failed so far.
        fold_attempts: usize,
        /// Whether a retry delay is running.
        retry: bool,
        /// A fold rejected for directory capacity cannot make progress until
        /// truncation removes retained entries.
        fold_capacity_blocked: bool,
        /// The consumed pending segment itself crossed the rotation floor
        /// before the fold registered its refill.
        successor_due: bool,
    },
    /// The swapped-out segment's seal enforcement is in flight.
    Sealing,
    /// Sealing failed for good: no further rotation until restart.
    Disabled {
        /// Whether the active segment has crossed its budget.
        due: bool,
    },
}

impl Rotation {
    /// The state right after a swap whose old segment ends at
    /// `end_record_index`.
    pub open spec fn draining(end_record_index: u64) -> Rotation {
        Rotation::Draining {
            end_record_index,
            fold_attempts: 0,
            retry: false,
            fold_capacity_blocked: false,
            successor_due: false,
        }
    }

    /// What a crossed size budget makes of this state.
    pub open spec fn marked(self, due: bool) -> Rotation {
        if !due {
            self
        } else {
            match self {
                Rotation::Idle => Rotation::Due,
                Rotation::Draining {
                    end_record_index,
                    fold_attempts,
                    retry,
                    fold_capacity_blocked,
                    successor_due,
                } => Rotation::Draining {
                    end_record_index,
                    fold_attempts,
                    retry,
                    fold_capacity_blocked,
                    successor_due: true,
                },
                Rotation::Disabled { due: _ } => Rotation::Disabled { due: true },
                Rotation::Due => Rotation::Due,
                Rotation::Sealing => Rotation::Sealing,
            }
        }
    }

    /// A fold of the swapped-out segment may start once all of its records
    /// have completed and neither a retry delay nor a full directory holds it.
    pub open spec fn may_fold(self, next_completion: int) -> bool {
        self matches Rotation::Draining {
            end_record_index,
            retry,
            fold_capacity_blocked,
            ..
        } && !retry && !fold_capacity_blocked && next_completion > end_record_index
    }

    /// Dispatch pauses while rotation is due without a confirmed successor.
    pub open spec fn paused(self) -> bool {
        match self {
            Rotation::Due => true,
            Rotation::Draining { successor_due, .. } => successor_due,
            Rotation::Disabled { due } => due,
            _ => false,
        }
    }

    /// A segment was swapped out and no finalized quorum of it is certain yet.
    pub open spec fn owes_seal(self) -> bool {
        self is Draining || self is Sealing || self is Disabled
    }

    /// The state with its capacity block set to `blocked`.
    pub open spec fn with_capacity_block(self, blocked: bool) -> Rotation {
        match self {
            Rotation::Draining { end_record_index, fold_attempts, retry, successor_due, .. } => {
                Rotation::Draining {
                    end_record_index,
                    fold_attempts,
                    retry,
                    fold_capacity_blocked: blocked,
                    successor_due,
                }
            },
            other => other,
        }
    }

    /// The state with a retry delay armed or elapsed, after `attempts` failed
    /// fold attempts.
    pub open spec fn with_retry(self, retry: bool, attempts: usize) -> Rotation {
        match self {
            Rotation::Draining {
                end_record_index,
                fold_capacity_blocked,
                successor_due,
                ..
            } => Rotation::Draining {
                end_record_index,
                fold_attempts: attempts,
                retry,
                fold_capacity_blocked,
                successor_due,
            },
            other => other,
        }
    }

    /// Value of the rotation-state gauge.
    pub fn metric_value(&self) -> (value: i64)
        ensures
            value == match *self {
                Rotation::Idle => 0i64,
                Rotation::Due => 1,
                Rotation::Draining { .. } => 2,
                Rotation::Sealing => 3,
                Rotation::Disabled { .. } => 4,
            },
    {
        match self {
            Rotation::Idle => 0,
            Rotation::Due => 1,
            Rotation::Draining { .. } => 2,
            Rotation::Sealing => 3,
            Rotation::Disabled { .. } => 4,
        }
    }

    /// Records whether the active segment has crossed its budget.
    pub fn mark_due(&mut self, due: bool)
        ensures
            *final(self) == old(self).marked(due),
    {
        if due {
            match *self {
                Rotation::Idle => {
                    *self = Rotation::Due;
                },
                Rotation::Draining {
                    end_record_index,
                    fold_attempts,
                    retry,
                    fold_capacity_blocked,
                    successor_due: _,
                } => {
                    *self =
                    Rotation::Draining {
                        end_record_index,
                        fold_attempts,
                        retry,
                        fold_capacity_blocked,
                        successor_due: true,
                    };
                },
                Rotation::Disabled { due: _ } => {
                    *self = Rotation::Disabled { due: true };
                },
                Rotation::Due => {},
                Rotation::Sealing => {},
            }
        }
    }

    /// Whether the active segment waits for its swap.
    pub fn swap_ready(&self) -> (ready: bool)
        ensures
            ready == (*self == Rotation::Due),
    {
        match self {
            Rotation::Due => true,
            _ => false,
        }
    }

    /// Whether the fold of the swapped-out segment may start.
    pub fn fold_ready(&self, next_completion: u64) -> (ready: bool)
        ensures
            ready == self.may_fold(next_completion as int),
    {
        match self {
            Rotation::Draining {
                end_record_index,
                retry,
                fold_capacity_blocked,
                ..
            } => !*retry && !*fold_capacity_blocked && next_completion > *end_record_index,
            _ => false,
        }
    }

    /// Whether a swapped-out segment still has to be folded into the manifest.
    pub fn has_pending_fold(&self) -> (pending: bool)
        ensures
            pending == (*self is Draining),
    {
        match self {
            Rotation::Draining { .. } => true,
            _ => false,
        }
    }

    /// Whether a fold retry delay is running.
    pub fn retry_pending(&self) -> (pending: bool)
        ensures
            pending == (*self matches Rotation::Draining { retry, .. } && retry),
    {
        match self {
            Rotation::Draining { retry, .. } => *retry,
            _ => false,
        }
    }

    /// Whether dispatch must wait for rotation to make progress.
    pub fn dispatch_paused(&self) -> (paused: bool)
        ensures
            paused == self.paused(),
    {
        match self {
            Rotation::Due => true,
            Rotation::Draining { successor_due, .. } => *successor_due,
            Rotation::Disabled { due } => *due,
            _ => false,
        }
    }

    /// Arms a retry delay for a failed fold. The result is the number of
    /// earlier failed attempts, from which the caller derives the delay;
    /// `None` where there is no fold to retry.
    pub fn arm_fold_retry(&mut self) -> (attempt: Option<usize>)
        ensures
            match *old(self) {
                Rotation::Draining { fold_attempts, .. } => {
                    &&& attempt == Some(fold_attempts)
                    &&& *final(self) == old(self).with_retry(
                        true,
                        if fold_attempts < usize::MAX {
                            (fold_attempts + 1) as usize
                        } else {
                            usize::MAX
                        },
                    )
                },
                _ => attempt is None && *final(self) == *old(self),
            },
    {
        match *self {
            Rotation::Draining {
                end_record_index,
                fold_attempts,
                retry: _,
                fold_capacity_blocked,
                successor_due,
            } => {
                *self =
                Rotation::Draining {
                    end_record_index,
                    fold_attempts: fold_attempts.saturating_add(1),
                    retry: true,
                    fold_capacity_blocked,
                    successor_due,
                };
                Some(fold_attempts)
            },
            _ => None,
        }
    }

    /// Ends a running retry delay.
    pub fn retry_elapsed(&mut self)
        ensures
            *final(self) == match *old(self) {
                Rotation::Draining { fold_attempts, .. } => old(self).with_retry(
                    false,
                    fold_attempts,
                ),
                other => other,
            },
    {
        match *self {
            Rotation::Draining {
                end_record_index,
                fold_attempts,
                retry: _,
                fold_capacity_blocked,
                successor_due,
            } => {
                *self =
                Rotation::Draining {
                    end_record_index,
                    fold_attempts,
                    retry: false,
                    fold_capacity_blocked,
                    successor_due,
                };
            },
            _ => {},
        }
    }

    /// Parks the fold until the directory may have room again.
    pub fn block_fold_on_capacity(&mut self)
        ensures
            *final(self) == old(self).with_capacity_block(true),
    {
        self.set_capacity_block(true);
    }

    /// Lets a parked fold try again.
    pub fn release_fold_capacity_block(&mut self)
        ensures
            *final(self) == old(self).with_capacity_block(false),
    {
        self.set_capacity_block(false);
    }

    fn set_capacity_block(&mut self, blocked: bool)
        ensures
            *final(self) == old(self).with_capacity_block(blocked),
    {
        match *self {
            Rotation::Draining {
                end_record_index,
                fold_attempts,
                retry,
                fold_capacity_blocked: _,
                successor_due,
            } => {
                *self =
                Rotation::Draining {
                    end_record_index,
                    fold_attempts,
                    retry,
                    fold_capacity_blocked: blocked,
                    successor_due,
                };
            },
            _ => {},
        }
    }
}

/// A crossed budget is never forgotten by marking again: marking with `a` and
/// then with `b` is marking with either.
pub proof fn law_mark_due_accumulates(rotation: Rotation, a: bool, b: bool)
    ensures
        rotation.marked(a).marked(b) == rotation.marked(a || b),
{
}

/// Marking a crossed budget pauses dispatch in every state but `Sealing`,
/// whose end samples the budget again.
pub proof fn law_due_pauses_dispatch(rotation: Rotation)
    ensures
        rotation != Rotation::Sealing ==> rotation.marked(true).paused(),
        rotation == Rotation::Sealing ==> rotation.marked(true) == rotation,
{
}

/// A fold that is parked or waits for its retry does not start, and releasing
/// both makes it start exactly when the old segment has completed.
pub proof fn law_fold_waits_for_release(rotation: Rotation, next_completion: int, attempts: usize)
    ensures
        !rotation.with_capacity_block(true).may_fold(next_completion),
        !rotation.with_retry(true, attempts).may_fold(next_completion),
        rotation.with_capacity_block(false).with_retry(false, attempts).may_fold(next_completion)
            <==> (rotation matches Rotation::Draining { end_record_index, .. } && next_completion
            > end_record_index),
{
}

/// Dispatch is paused by a crossed budget and by nothing else: the budget of the
/// active segment while no swap is possible, or that of its successor before the
/// fold. An idle log and one whose old segment is being sealed keep dispatching.
pub proof fn law_only_a_crossed_budget_pauses_dispatch(rotation: Rotation, paused: bool)
    requires
        call_ensures(Rotation::dispatch_paused, (&rotation,), paused),
    ensures
        paused ==> !(rotation is Idle) && !(rotation is Sealing),
        rotation is Due ==> paused,
        rotation is Draining ==> paused == rotation->successor_due,
        rotation is Disabled ==> paused == rotation->due,
{
}

/// Sampling the budget changes nothing if it is not crossed. A crossed budget is
/// noted where the state has a place for it, and nothing else about the state
/// changes: neither a pending fold nor a seal in flight is forgotten, and a
/// disabled rotation stays so.
pub proof fn law_sample_notes_only_a_crossed_budget(rotation: &mut Rotation, due: bool)
    requires
        call_ensures(Rotation::mark_due, (rotation, due), ()),
    ensures
        !due ==> *final(rotation) == *old(rotation),
        *old(rotation) is Idle && due ==> *final(rotation) is Due,
        *old(rotation) is Due ==> *final(rotation) is Due,
        *old(rotation) is Sealing ==> *final(rotation) is Sealing,
        *old(rotation) is Disabled ==> *final(rotation) is Disabled && (final(rotation)->due <==> old(
            rotation,
        )->due || due),
        *old(rotation) is Draining ==> {
            &&& *final(rotation) is Draining
            &&& final(rotation)->end_record_index == old(rotation)->end_record_index
            &&& final(rotation)->fold_attempts == old(rotation)->fold_attempts
            &&& final(rotation)->retry == old(rotation)->retry
            &&& final(rotation)->fold_capacity_blocked == old(rotation)->fold_capacity_blocked
            &&& (final(rotation)->successor_due <==> old(rotation)->successor_due || due)
        },
{
}

/// What the questions about a rotation ask for: a swap is ready exactly if the
/// budget is crossed and nothing is pending; a fold is pending from the swap to
/// its confirmation; it is ready exactly if every record of the old segment has
/// completed and neither a delay nor a full directory holds it.
pub proof fn law_folds_wait_for_the_last_record(
    rotation: Rotation,
    next_completion: u64,
    swap: bool,
    pending: bool,
    ready: bool,
    delayed: bool,
)
    requires
        call_ensures(Rotation::swap_ready, (&rotation,), swap),
        call_ensures(Rotation::has_pending_fold, (&rotation,), pending),
        call_ensures(Rotation::fold_ready, (&rotation, next_completion), ready),
        call_ensures(Rotation::retry_pending, (&rotation,), delayed),
    ensures
        swap <==> rotation is Due,
        pending <==> rotation is Draining,
        delayed <==> rotation is Draining && rotation->retry,
        ready ==> pending && !delayed && !rotation->fold_capacity_blocked,
        ready ==> rotation->end_record_index < next_completion,
        pending && !delayed && !rotation->fold_capacity_blocked && rotation->end_record_index
            < next_completion ==> ready,
{
}

/// A failed fold is retried after a delay: arming the delay counts one more
/// failure, reports the earlier ones and keeps everything else, and its end
/// keeps the count. A rotation without a pending fold is left alone by both.
pub proof fn law_fold_retries_are_counted(
    armed: &mut Rotation,
    earlier: Option<usize>,
    elapsed: &mut Rotation,
)
    requires
        call_ensures(Rotation::arm_fold_retry, (armed,), earlier),
        call_ensures(Rotation::retry_elapsed, (elapsed,), ()),
        *old(elapsed) == *final(armed),
    ensures
        !(*old(armed) is Draining) ==> earlier is None && *final(armed) == *old(armed)
            && *final(elapsed) == *old(armed),
        *old(armed) is Draining ==> {
            &&& earlier == Some(old(armed)->fold_attempts)
            &&& *final(armed) is Draining && *final(elapsed) is Draining
            &&& final(armed)->retry && !final(elapsed)->retry
            &&& old(armed)->fold_attempts < usize::MAX ==> final(armed)->fold_attempts == old(
                armed,
            )->fold_attempts + 1
            &&& old(armed)->fold_attempts == usize::MAX ==> final(armed)->fold_attempts
                == usize::MAX
            &&& final(elapsed)->fold_attempts == final(armed)->fold_attempts
            &&& final(armed)->end_record_index == old(armed)->end_record_index
            &&& final(elapsed)->end_record_index == old(armed)->end_record_index
            &&& final(armed)->fold_capacity_blocked == old(armed)->fold_capacity_blocked
            &&& final(elapsed)->fold_capacity_blocked == old(armed)->fold_capacity_blocked
            &&& final(armed)->successor_due == old(armed)->successor_due
            &&& final(elapsed)->successor_due == old(armed)->successor_due
        },
{
}

/// Parking a fold on a full directory and releasing it again gives back the
/// state before, apart from an earlier block; no other state is touched.
pub proof fn law_parked_folds_are_released(parked: &mut Rotation, released: &mut Rotation)
    requires
        call_ensures(Rotation::block_fold_on_capacity, (parked,), ()),
        call_ensures(Rotation::release_fold_capacity_block, (released,), ()),
        *old(released) == *final(parked),
    ensures
        !(*old(parked) is Draining) ==> *final(parked) == *old(parked) && *final(released) == *old(
            parked,
        ),
        *old(parked) is Draining ==> {
            &&& *final(parked) is Draining && final(parked)->fold_capacity_blocked
            &&& *final(released) is Draining && !final(released)->fold_capacity_blocked
            &&& final(parked)->end_record_index == old(parked)->end_record_index
            &&& final(parked)->fold_attempts == old(parked)->fold_attempts
            &&& final(parked)->retry == old(parked)->retry
            &&& final(parked)->successor_due == old(parked)->successor_due
            &&& !old(parked)->fold_capacity_blocked ==> *final(released) == *old(parked)
            &&& final(released)->end_record_index == old(parked)->end_record_index
            &&& final(released)->fold_attempts == old(parked)->fold_attempts
            &&& final(released)->retry == old(parked)->retry
            &&& final(released)->successor_due == old(parked)->successor_due
        },
{
}

/// The gauge tells the five states apart, in the order in which a rotation goes
/// through them.
pub proof fn law_gauge_orders_the_states(a: Rotation, b: Rotation, x: i64, y: i64)
    requires
        call_ensures(Rotation::metric_value, (&a,), x),
        call_ensures(Rotation::metric_value, (&b,), y),
    ensures
        0 <= x <= 4,
        a is Idle && b is Due ==> x < y,
        a is Due && b is Draining ==> x < y,
        a is Draining && b is Sealing ==> x < y,
        a is Sealing && b is Disabled ==> x < y,
{
}

} // verus!
