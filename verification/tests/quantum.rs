use julie_extract_artifact::store::coordinator::RequestKind;
use julie_extract_artifact::store::quantum::{
    quantum_next, QuantumAction, QuantumEnd, QuantumEvent, QuantumPhase, QuantumState,
};

fn run(kind: RequestKind, events: &[QuantumEvent]) -> Vec<QuantumAction> {
    let (mut state, action) = QuantumState::start(kind, 1_000);
    let mut actions = vec![action];
    for event in events {
        let (next, action) = quantum_next(&state, *event);
        state = next;
        actions.push(action);
    }
    actions
}

#[test]
fn quantum_progress_runs_to_a_renewed_claim() {
    let actions = run(
        RequestKind::Import,
        &[
            QuantumEvent::Reconciled { committed_in_fact: false, next_chunk_index: 4 },
            QuantumEvent::LeaseRenewed(true),
            QuantumEvent::Claimed(true),
            QuantumEvent::Executed { outcome: Some(false), started_at: 10, finished_at: 20 },
            QuantumEvent::EntryWritten,
            QuantumEvent::LeaseRenewed(true),
            QuantumEvent::Committed,
            QuantumEvent::LeaseRenewed(true),
            QuantumEvent::ClaimRenewed(true),
        ],
    );
    assert_eq!(
        actions,
        vec![
            QuantumAction::Reconcile,
            QuantumAction::RenewLease,
            QuantumAction::Claim,
            QuantumAction::Execute { next_chunk_index: 4 },
            QuantumAction::WriteEntry { terminal: false },
            QuantumAction::RenewLease,
            QuantumAction::Commit,
            QuantumAction::RenewLease,
            QuantumAction::RenewClaim,
            QuantumAction::End(QuantumEnd::Done),
        ]
    );
}

#[test]
fn quantum_completion_reconciles_after_commit() {
    let actions = run(
        RequestKind::Update,
        &[
            QuantumEvent::Reconciled { committed_in_fact: false, next_chunk_index: 0 },
            QuantumEvent::LeaseRenewed(true),
            QuantumEvent::Claimed(true),
            QuantumEvent::Executed { outcome: Some(true), started_at: 0, finished_at: 5 },
            QuantumEvent::EntryWritten,
            QuantumEvent::LeaseRenewed(true),
            QuantumEvent::Committed,
            QuantumEvent::LeaseRenewed(true),
            QuantumEvent::CompletedReconciled,
        ],
    );
    assert_eq!(actions[4], QuantumAction::WriteEntry { terminal: true });
    assert_eq!(actions[8], QuantumAction::ReconcileCompleted);
    assert_eq!(actions[9], QuantumAction::End(QuantumEnd::Done));
}

#[test]
fn quantum_stops_early() {
    let done = run(
        RequestKind::Import,
        &[QuantumEvent::Reconciled { committed_in_fact: true, next_chunk_index: 0 }],
    );
    assert_eq!(done.last(), Some(&QuantumAction::End(QuantumEnd::AlreadyCommitted)));
    let lost = run(
        RequestKind::Import,
        &[
            QuantumEvent::Reconciled { committed_in_fact: false, next_chunk_index: 0 },
            QuantumEvent::LeaseRenewed(false),
        ],
    );
    assert_eq!(lost.last(), Some(&QuantumAction::End(QuantumEnd::LeaseLost)));
    let taken = run(
        RequestKind::Import,
        &[
            QuantumEvent::Reconciled { committed_in_fact: false, next_chunk_index: 0 },
            QuantumEvent::LeaseRenewed(true),
            QuantumEvent::Claimed(false),
        ],
    );
    assert_eq!(taken.last(), Some(&QuantumAction::End(QuantumEnd::NotClaimed)));
}

#[test]
fn quantum_failure_and_overrun() {
    let start = [
        QuantumEvent::Reconciled { committed_in_fact: false, next_chunk_index: 0 },
        QuantumEvent::LeaseRenewed(true),
        QuantumEvent::Claimed(true),
    ];
    let mut failed = start.to_vec();
    failed.push(QuantumEvent::Executed { outcome: None, started_at: 0, finished_at: 5 });
    failed.push(QuantumEvent::FailureRecorded(true));
    let actions = run(RequestKind::Import, &failed);
    assert_eq!(actions[4], QuantumAction::RecordFailure);
    assert_eq!(actions[5], QuantumAction::End(QuantumEnd::ExecutionFailed));

    let mut slow = start.to_vec();
    slow.push(QuantumEvent::Executed { outcome: Some(false), started_at: 0, finished_at: 5_000 });
    slow.push(QuantumEvent::Requeued(true));
    let actions = run(RequestKind::Import, &slow);
    assert_eq!(actions[4], QuantumAction::Requeue);
    assert_eq!(actions[5], QuantumAction::End(QuantumEnd::DeadlineExceeded { elapsed_ms: 5_000 }));

    // A request whose quanta may renew is not held to the limit.
    let actions = run(RequestKind::FromArtifact, &slow);
    assert_eq!(actions[4], QuantumAction::WriteEntry { terminal: false });
}

#[test]
fn quantum_end_is_final_and_stray_events_repeat_the_ask() {
    let (state, _) = QuantumState::start(RequestKind::Import, 1_000);
    let (same, action) = quantum_next(&state, QuantumEvent::Committed);
    assert_eq!(same, state);
    assert_eq!(action, QuantumAction::Reconcile);
    let ended = QuantumState { phase: QuantumPhase::Ended(QuantumEnd::LeaseLost), ..state };
    let (after, action) = quantum_next(&ended, QuantumEvent::Claimed(true));
    assert_eq!(after, ended);
    assert_eq!(action, QuantumAction::End(QuantumEnd::LeaseLost));
}
