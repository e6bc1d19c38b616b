//! One quantum of work on a claimed request, as a state machine: the
//! decisions between the coordinator's and the store's reads and writes.
//! The caller performs each action and hands back what came of it as an
//! event; the machine says what to do next, until it ends.

use vstd::prelude::*;

use crate::store::coordinator::{quantum_overrun, quantum_overrun_spec, RequestKind};

verus! {

/// How a quantum ended.
#[derive(Debug, Clone, Copy, PartialEq, Eq, Structural)]
pub enum QuantumEnd {
    /// The store already holds the request's terminal effect: nothing ran.
    AlreadyCommitted,
    /// Another holder claimed the request first: nothing ran.
    NotClaimed,
    /// The writer lease or the claim was lost.
    LeaseLost,
    /// The executor failed; the failure is recorded on the request.
    ExecutionFailed,
    /// The quantum ran longer than allowed; the request is queued again.
    DeadlineExceeded { elapsed_ms: i64 },
    /// The quantum's effect is committed.
    Done,
}

/// Where a quantum stands.
#[derive(Debug, Clone, Copy, PartialEq, Eq, Structural)]
pub enum QuantumPhase {
    Reconciling,
    RenewingBeforeClaim,
    Claiming,
    Executing,
    RecordingFailure,
    Requeueing { elapsed_ms: i64 },
    Writing { terminal: bool },
    RenewingBeforeCommit { terminal: bool },
    Committing { terminal: bool },
    RenewingAfterCommit { terminal: bool },
    Finishing { terminal: bool },
    Ended(QuantumEnd),
}

/// What the caller does next.
#[derive(Debug, Clone, Copy, PartialEq, Eq, Structural)]
pub enum QuantumAction {
    /// Reconcile the request with the store.
    Reconcile,
    /// Renew the writer lease.
    RenewLease,
    /// Claim the request for this holder.
    Claim,
    /// Run the executor on the request, from this chunk.
    Execute { next_chunk_index: u64 },
    /// Record the executor's failure on the request.
    RecordFailure,
    /// Put the request back in the queue.
    Requeue,
    /// Write the quantum's store log entry: a terminal one, or progress.
    WriteEntry { terminal: bool },
    /// Commit the store transaction.
    Commit,
    /// Reconcile the request now that its terminal effect is committed.
    ReconcileCompleted,
    /// Renew the claim's heartbeat after a progress quantum.
    RenewClaim,
    /// Stop: the quantum ended so.
    End(QuantumEnd),
}

/// What came of the last action.
#[derive(Debug, Clone, Copy, PartialEq, Eq, Structural)]
pub enum QuantumEvent {
    Reconciled { committed_in_fact: bool, next_chunk_index: u64 },
    LeaseRenewed(bool),
    Claimed(bool),
    /// The executor ran from `started_at` to `finished_at`; `outcome` is
    /// `None` when it failed, else whether the quantum completed the
    /// request.
    Executed { outcome: Option<bool>, started_at: i64, finished_at: i64 },
    FailureRecorded(bool),
    Requeued(bool),
    EntryWritten,
    Committed,
    CompletedReconciled,
    ClaimRenewed(bool),
}

/// The state of one quantum: its phase, the request's kind, the longest
/// quantum allowed, and the chunk the request resumes from.
#[derive(Debug, Clone, Copy, PartialEq, Eq, Structural)]
pub struct QuantumState {
    pub phase: QuantumPhase,
    pub kind: RequestKind,
    pub maximum_quantum_ms: i64,
    pub next_chunk_index: u64,
}

/// The action a phase asks for.
pub open spec fn phase_action(s: QuantumState) -> QuantumAction {
    match s.phase {
        QuantumPhase::Reconciling => QuantumAction::Reconcile,
        QuantumPhase::RenewingBeforeClaim => QuantumAction::RenewLease,
        QuantumPhase::Claiming => QuantumAction::Claim,
        QuantumPhase::Executing => QuantumAction::Execute { next_chunk_index: s.next_chunk_index },
        QuantumPhase::RecordingFailure => QuantumAction::RecordFailure,
        QuantumPhase::Requeueing { .. } => QuantumAction::Requeue,
        QuantumPhase::Writing { terminal } => QuantumAction::WriteEntry { terminal },
        QuantumPhase::RenewingBeforeCommit { .. } => QuantumAction::RenewLease,
        QuantumPhase::Committing { .. } => QuantumAction::Commit,
        QuantumPhase::RenewingAfterCommit { .. } => QuantumAction::RenewLease,
        QuantumPhase::Finishing { terminal } => if terminal {
            QuantumAction::ReconcileCompleted
        } else {
            QuantumAction::RenewClaim
        },
        QuantumPhase::Ended(end) => QuantumAction::End(end),
    }
}

/// `s` moved to `phase`.
pub open spec fn moved(s: QuantumState, phase: QuantumPhase) -> QuantumState {
    QuantumState { phase, ..s }
}

/// The phase that follows `s` on event `e`, or `None` when `e` is not
/// what the phase waits for (the phase then stays and asks again).
pub open spec fn next_phase(s: QuantumState, e: QuantumEvent) -> Option<QuantumPhase> {
    match (s.phase, e) {
        (QuantumPhase::Reconciling, QuantumEvent::Reconciled { committed_in_fact, .. }) => Some(
            if committed_in_fact {
                QuantumPhase::Ended(QuantumEnd::AlreadyCommitted)
            } else {
                QuantumPhase::RenewingBeforeClaim
            },
        ),
        (QuantumPhase::RenewingBeforeClaim, QuantumEvent::LeaseRenewed(held)) => Some(
            if held {
                QuantumPhase::Claiming
            } else {
                QuantumPhase::Ended(QuantumEnd::LeaseLost)
            },
        ),
        (QuantumPhase::Claiming, QuantumEvent::Claimed(claimed)) => Some(
            if claimed {
                QuantumPhase::Executing
            } else {
                QuantumPhase::Ended(QuantumEnd::NotClaimed)
            },
        ),
        (QuantumPhase::Executing, QuantumEvent::Executed { outcome, started_at, finished_at }) => Some(
            match outcome {
                None => QuantumPhase::RecordingFailure,
                Some(terminal) => match quantum_overrun_spec(
                    s.kind,
                    started_at,
                    finished_at,
                    s.maximum_quantum_ms,
                ) {
                    Some(elapsed_ms) => QuantumPhase::Requeueing { elapsed_ms },
                    None => QuantumPhase::Writing { terminal },
                },
            },
        ),
        (QuantumPhase::RecordingFailure, QuantumEvent::FailureRecorded(recorded)) => Some(
            QuantumPhase::Ended(if recorded { QuantumEnd::ExecutionFailed } else { QuantumEnd::LeaseLost }),
        ),
        (QuantumPhase::Requeueing { elapsed_ms }, QuantumEvent::Requeued(requeued)) => Some(
            QuantumPhase::Ended(
                if requeued {
                    QuantumEnd::DeadlineExceeded { elapsed_ms }
                } else {
                    QuantumEnd::LeaseLost
                },
            ),
        ),
        (QuantumPhase::Writing { terminal }, QuantumEvent::EntryWritten) => Some(
            QuantumPhase::RenewingBeforeCommit { terminal },
        ),
        (QuantumPhase::RenewingBeforeCommit { terminal }, QuantumEvent::LeaseRenewed(held)) => Some(
            if held {
                QuantumPhase::Committing { terminal }
            } else {
                QuantumPhase::Ended(QuantumEnd::LeaseLost)
            },
        ),
        (QuantumPhase::Committing { terminal }, QuantumEvent::Committed) => Some(
            QuantumPhase::RenewingAfterCommit { terminal },
        ),
        (QuantumPhase::RenewingAfterCommit { terminal }, QuantumEvent::LeaseRenewed(held)) => Some(
            if held {
                QuantumPhase::Finishing { terminal }
            } else {
                QuantumPhase::Ended(QuantumEnd::LeaseLost)
            },
        ),
        (QuantumPhase::Finishing { terminal }, QuantumEvent::CompletedReconciled) => if terminal {
            Some(QuantumPhase::Ended(QuantumEnd::Done))
        } else {
            None
        },
        (QuantumPhase::Finishing { terminal }, QuantumEvent::ClaimRenewed(renewed)) => if terminal {
            None
        } else {
            Some(QuantumPhase::Ended(if renewed { QuantumEnd::Done } else { QuantumEnd::LeaseLost }))
        },
        _ => None,
    }
}

/// The state and action after event `e` in state `s`: the next phase and
/// its action (the chunk index taken from a reconciliation), or, for an
/// event the phase does not wait for, the same state and its action again.
pub open spec fn quantum_transition(s: QuantumState, e: QuantumEvent) -> (QuantumState, QuantumAction) {
    match next_phase(s, e) {
        Some(phase) => {
            let t = match e {
                QuantumEvent::Reconciled { next_chunk_index, .. } => QuantumState {
                    phase,
                    next_chunk_index,
                    ..s
                },
                _ => moved(s, phase),
            };
            (t, phase_action(t))
        },
        None => (s, phase_action(s)),
    }
}

impl QuantumState {
    /// A quantum on a request of `kind`, with quanta of at most
    /// `maximum_quantum_ms`; it starts by reconciling the request.
    pub fn start(kind: RequestKind, maximum_quantum_ms: i64) -> (r: (QuantumState, QuantumAction))
        ensures
            r.0 == (QuantumState {
                phase: QuantumPhase::Reconciling,
                kind,
                maximum_quantum_ms,
                next_chunk_index: 0,
            }),
            r.1 == QuantumAction::Reconcile,
    {
        (
            QuantumState { phase: QuantumPhase::Reconciling, kind, maximum_quantum_ms, next_chunk_index: 0 },
            QuantumAction::Reconcile,
        )
    }

    /// The action this state asks for.
    pub fn action(&self) -> (r: QuantumAction)
        ensures
            r == phase_action(*self),
    {
        match self.phase {
            QuantumPhase::Reconciling => QuantumAction::Reconcile,
            QuantumPhase::RenewingBeforeClaim => QuantumAction::RenewLease,
            QuantumPhase::Claiming => QuantumAction::Claim,
            QuantumPhase::Executing => QuantumAction::Execute { next_chunk_index: self.next_chunk_index },
            QuantumPhase::RecordingFailure => QuantumAction::RecordFailure,
            QuantumPhase::Requeueing { .. } => QuantumAction::Requeue,
            QuantumPhase::Writing { terminal } => QuantumAction::WriteEntry { terminal },
            QuantumPhase::RenewingBeforeCommit { .. } => QuantumAction::RenewLease,
            QuantumPhase::Committing { .. } => QuantumAction::Commit,
            QuantumPhase::RenewingAfterCommit { .. } => QuantumAction::RenewLease,
            QuantumPhase::Finishing { terminal } => if terminal {
                QuantumAction::ReconcileCompleted
            } else {
                QuantumAction::RenewClaim
            },
            QuantumPhase::Ended(end) => QuantumAction::End(end),
        }
    }
}

/// The phase after event `e`, as `next_phase` says.
fn step_phase(s: &QuantumState, e: QuantumEvent) -> (r: Option<QuantumPhase>)
    ensures
        r == next_phase(*s, e),
{
    match (s.phase, e) {
        (QuantumPhase::Reconciling, QuantumEvent::Reconciled { committed_in_fact, .. }) => Some(
            if committed_in_fact {
                QuantumPhase::Ended(QuantumEnd::AlreadyCommitted)
            } else {
                QuantumPhase::RenewingBeforeClaim
            },
        ),
        (QuantumPhase::RenewingBeforeClaim, QuantumEvent::LeaseRenewed(held)) => Some(
            if held {
                QuantumPhase::Claiming
            } else {
                QuantumPhase::Ended(QuantumEnd::LeaseLost)
            },
        ),
        (QuantumPhase::Claiming, QuantumEvent::Claimed(claimed)) => Some(
            if claimed {
                QuantumPhase::Executing
            } else {
                QuantumPhase::Ended(QuantumEnd::NotClaimed)
            },
        ),
        (QuantumPhase::Executing, QuantumEvent::Executed { outcome, started_at, finished_at }) => Some(
            match outcome {
                None => QuantumPhase::RecordingFailure,
                Some(terminal) => match quantum_overrun(s.kind, started_at, finished_at, s.maximum_quantum_ms) {
                    Some(elapsed_ms) => QuantumPhase::Requeueing { elapsed_ms },
                    None => QuantumPhase::Writing { terminal },
                },
            },
        ),
        (QuantumPhase::RecordingFailure, QuantumEvent::FailureRecorded(recorded)) => Some(
            QuantumPhase::Ended(if recorded { QuantumEnd::ExecutionFailed } else { QuantumEnd::LeaseLost }),
        ),
        (QuantumPhase::Requeueing { elapsed_ms }, QuantumEvent::Requeued(requeued)) => Some(
            QuantumPhase::Ended(
                if requeued {
                    QuantumEnd::DeadlineExceeded { elapsed_ms }
                } else {
                    QuantumEnd::LeaseLost
                },
            ),
        ),
        (QuantumPhase::Writing { terminal }, QuantumEvent::EntryWritten) => Some(
            QuantumPhase::RenewingBeforeCommit { terminal },
        ),
        (QuantumPhase::RenewingBeforeCommit { terminal }, QuantumEvent::LeaseRenewed(held)) => Some(
            if held {
                QuantumPhase::Committing { terminal }
            } else {
                QuantumPhase::Ended(QuantumEnd::LeaseLost)
            },
        ),
        (QuantumPhase::Committing { terminal }, QuantumEvent::Committed) => Some(
            QuantumPhase::RenewingAfterCommit { terminal },
        ),
        (QuantumPhase::RenewingAfterCommit { terminal }, QuantumEvent::LeaseRenewed(held)) => Some(
            if held {
                QuantumPhase::Finishing { terminal }
            } else {
                QuantumPhase::Ended(QuantumEnd::LeaseLost)
            },
        ),
        (QuantumPhase::Finishing { terminal }, QuantumEvent::CompletedReconciled) => if terminal {
            Some(QuantumPhase::Ended(QuantumEnd::Done))
        } else {
            None
        },
        (QuantumPhase::Finishing { terminal }, QuantumEvent::ClaimRenewed(renewed)) => if terminal {
            None
        } else {
            Some(QuantumPhase::Ended(if renewed { QuantumEnd::Done } else { QuantumEnd::LeaseLost }))
        },
        _ => None,
    }
}

/// The next state and action of a quantum after event `e`.
pub fn quantum_next(state: &QuantumState, event: QuantumEvent) -> (r: (QuantumState, QuantumAction))
    ensures
        r == quantum_transition(*state, event),
{
    match step_phase(state, event) {
        Some(phase) => {
            let t = match event {
                QuantumEvent::Reconciled { next_chunk_index, .. } => QuantumState {
                    phase,
                    next_chunk_index,
                    ..*state
                },
                _ => QuantumState { phase, ..*state },
            };
            (t, t.action())
        },
        None => (*state, state.action()),
    }
}

/// A quantum that ended stays ended: every later event leaves it as it is
/// and asks for the same end.
pub proof fn lemma_ended_is_final(s: QuantumState, e: QuantumEvent)
    requires
        s.phase is Ended,
    ensures
        quantum_transition(s, e) == (s, QuantumAction::End(s.phase->0)),
{
}

/// A quantum's effect is written only after the request was claimed and
/// the executor ran within its limit: the step into `Writing` comes from
/// `Executing` on a successful run that did not overrun.
pub proof fn lemma_write_follows_a_timely_run(s: QuantumState, e: QuantumEvent)
    requires
        !(s.phase is Writing),
        quantum_transition(s, e).0.phase is Writing,
    ensures
        s.phase == QuantumPhase::Executing,
        e matches QuantumEvent::Executed { outcome, started_at, finished_at } && outcome is Some
            && quantum_overrun_spec(s.kind, started_at, finished_at, s.maximum_quantum_ms) is None,
{
}

} // verus!
