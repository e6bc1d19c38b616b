use julie_extract_artifact::store::coordinator::{live_intent, RequestState};
use std::cmp::Ordering;

use julie_extract_artifact::store::connection::StoreConnectionError;
use julie_extract_artifact::store::coordinator::{
    checked_lease_expiry, compare_versions, next_fencing_token, CoordinatorError, ExistingLease,
    IntentIdentity, LeaseAction, LeaseHolder, MaintenanceOwnerFence, ReconcileOutcome,
    TokenChoice,
};
use julie_extract_artifact::store::factory::{
    fence_clock, raised_writer_floor, GenerationFence, StoreConnectionFactory, WriteIntent,
};
use julie_extract_artifact::store::layout::StoreLayout;
use julie_extract_artifact::store::maintenance::MaintenanceError;
use julie_extract_artifact::store::session::{check_holder, check_owner_fence, StoreCoordinator};

fn layout() -> StoreLayout {
    StoreLayout::open_named_generation(
        "/stores/family",
        "gen-001",
        "/stores/family/gen-001",
        "/stores/family/gen-001/store.db",
        "/stores/family/coordinator.db",
        "/stores/family/spool",
        "/stores/family/scratch",
        "/stores/family/gen-001/bases",
    )
    .expect("a layout inside its root")
}

fn holder() -> LeaseHolder {
    LeaseHolder::new("writer-1".to_string(), "2.0.0".to_string(), 100)
}

#[test]
fn lease_expiry_and_tokens() {
    assert_eq!(checked_lease_expiry(1_000, 5_000).unwrap(), 6_000);
    assert!(checked_lease_expiry(-1, 5_000).is_err());
    assert!(checked_lease_expiry(i64::MAX, 1).is_err());
    assert_eq!(next_fencing_token(5, 1).unwrap(), 6);
    assert_eq!(next_fencing_token(5, 100).unwrap(), 100);
    assert!(next_fencing_token(i64::MAX, 1).is_err());
}

#[test]
fn versions_compare_by_release_order() {
    assert_eq!(compare_versions("1.2.3", "1.10.0").unwrap(), Ordering::Less);
    assert_eq!(compare_versions("1.0.0-alpha", "1.0.0").unwrap(), Ordering::Less);
    assert_eq!(compare_versions("v2.0.0", "2.0.0").unwrap(), Ordering::Equal);
    assert!(matches!(
        compare_versions("x.y", "1.0.0"),
        Err(CoordinatorError::InvalidVersion { value }) if value == "x.y"
    ));
}

#[test]
fn first_lease_is_inserted_then_renewed() {
    let mut coordinator = StoreCoordinator::new(layout(), "family", Some(holder()));
    let plan = coordinator
        .try_acquire_or_takeover(&holder(), None, None, false, 1_000)
        .unwrap();
    assert_eq!(plan.action, LeaseAction::Insert { fencing_token: TokenChoice::AtLeast(1_000) });
    assert_eq!(plan.expires_at, 6_000);
    coordinator.record_acquired(1_000);
    let existing = ExistingLease {
        holder_id: "writer-1".to_string(),
        holder_pid: 100,
        expires_at: 6_000,
        fencing_token: 1_000,
    };
    let renewal = coordinator
        .try_acquire_or_takeover(&holder(), None, Some(&existing), false, 2_000)
        .unwrap();
    assert_eq!(renewal.action, LeaseAction::Renew { fencing_token: 1_000 });
    coordinator.record_release(true, 999);
    assert_eq!(coordinator.held_fencing_token(), Some(1_000));
    coordinator.record_release(true, 1_000);
    assert_eq!(coordinator.held_fencing_token(), None);
}

#[test]
fn expired_lease_is_taken_over_with_a_newer_token() {
    let coordinator = StoreCoordinator::new(layout(), "family", None);
    let existing = ExistingLease {
        holder_id: "writer-0".to_string(),
        holder_pid: 7,
        expires_at: 500,
        fencing_token: 40,
    };
    let plan = coordinator
        .try_acquire_or_takeover(&holder(), None, Some(&existing), false, 1_000)
        .unwrap();
    match plan.action {
        LeaseAction::Takeover { previous_holder_id, fencing_token } => {
            assert_eq!(previous_holder_id, "writer-0");
            assert_eq!(fencing_token, TokenChoice::AtLeast(1_000));
        }
        other => panic!("unexpected {other:?}"),
    }
    let live = ExistingLease { expires_at: 5_000, ..existing.clone() };
    let held = coordinator
        .try_acquire_or_takeover(&holder(), None, Some(&live), false, 1_000)
        .unwrap();
    assert_eq!(held.action, LeaseAction::HeldByOther);
    let dead = coordinator
        .try_acquire_or_takeover(&holder(), None, Some(&live), true, 1_000)
        .unwrap();
    assert!(matches!(dead.action, LeaseAction::Takeover { .. }));
}

#[test]
fn maintenance_intent_excludes_other_writers() {
    let coordinator = StoreCoordinator::new(layout(), "family", None);
    let intent = IntentIdentity {
        run_id: "run-1".to_string(),
        owner_id: "writer-1".to_string(),
        owner_pid: 100,
        fencing_token: 77,
    };
    assert!(matches!(
        coordinator.try_acquire_or_takeover(&holder(), Some(&intent), None, false, 1_000),
        Err(CoordinatorError::StoreConnection(StoreConnectionError::MaintenanceInProgress { run_id }))
            if run_id == "run-1"
    ));
    let owner = MaintenanceOwnerFence {
        run_id: "run-1".to_string(),
        owner_id: "writer-1".to_string(),
        owner_pid: 100,
        fencing_token: 77,
    };
    let plan = coordinator
        .try_acquire_for_maintenance(&holder(), &owner, Some(&intent), None, false, 1_000)
        .unwrap();
    assert_eq!(plan.action, LeaseAction::Insert { fencing_token: TokenChoice::Fixed(77) });
    assert!(matches!(
        coordinator.try_acquire_for_maintenance(&holder(), &owner, None, None, false, 1_000),
        Err(CoordinatorError::InvalidRequest)
    ));
    let stranger = MaintenanceOwnerFence { owner_id: "someone".to_string(), ..owner.clone() };
    assert!(matches!(
        coordinator.try_acquire_for_maintenance(&holder(), &stranger, Some(&intent), None, false, 1_000),
        Err(CoordinatorError::InvalidRequest)
    ));
    let empty = LeaseHolder::new(String::new(), "2.0.0".to_string(), 1);
    assert!(matches!(
        coordinator.try_acquire_or_takeover(&empty, None, None, false, 1_000),
        Err(CoordinatorError::InvalidRequest)
    ));
}

#[test]
fn resolve_commit_needs_a_current_claim_and_a_store_commit() {
    let coordinator = StoreCoordinator::new(layout(), "family", None);
    let committed = ReconcileOutcome { committed_in_fact: true, next_chunk_index: 3 };
    assert_eq!(coordinator.commit_resolve("r1", "owner-1", true, Some(committed.clone())).unwrap(), committed);
    assert!(matches!(
        coordinator.commit_resolve("r1", "owner-1", false, None),
        Err(CoordinatorError::LeaseLost)
    ));
    let pending = ReconcileOutcome { committed_in_fact: false, next_chunk_index: 0 };
    assert!(matches!(
        coordinator.commit_resolve("r1", "owner-1", true, Some(pending)),
        Err(CoordinatorError::CoordinatorAheadOfStore { request_id }) if request_id == "r1"
    ));
    assert!(matches!(
        coordinator.commit_resolve("", "owner-1", true, Some(committed.clone())),
        Err(CoordinatorError::InvalidRequest)
    ));
    assert!(matches!(
        coordinator.commit_resolve("r1", "", true, Some(committed)),
        Err(CoordinatorError::InvalidRequest)
    ));
}

#[test]
fn factory_floors() {
    let factory = StoreConnectionFactory::new(layout(), "family", "2.0.0");
    assert!(factory.check_reader_floor("family", "1.0.0").is_ok());
    assert!(matches!(
        factory.check_reader_floor("other", "1.0.0"),
        Err(StoreConnectionError::FamilyMismatch { expected, found }) if expected == "family" && found == "other"
    ));
    assert!(matches!(
        factory.check_reader_floor("family", "3.0.0"),
        Err(StoreConnectionError::ReaderVersionTooOld { running, required })
            if running == "2.0.0" && required == "3.0.0"
    ));
    assert!(factory.check_writer_floor("family", "1.0.0", "1.5.0", "1.9.0", false).is_ok());
    assert!(matches!(
        factory.check_writer_floor("family", "1.0.0", "1.5.0", "2.5.0", false),
        Err(StoreConnectionError::WriterVersionTooOld { required, .. }) if required == "2.5.0"
    ));
    assert!(factory.check_writer_floor("family", "1.0.0", "1.5.0", "2.5.0", true).is_ok());
    assert!(matches!(
        factory.check_writer_floor("family", "bad", "1.5.0", "1.0.0", false),
        Err(StoreConnectionError::InvalidVersion { field: "min_reader_version", .. })
    ));
    assert!(factory.binary_version_advances("1.9.9").unwrap());
    assert!(!factory.binary_version_advances("2.0.0").unwrap());
}

#[test]
fn write_fence_admits_only_the_maintenance_owner() {
    let factory = StoreConnectionFactory::new(layout(), "family", "2.0.0");
    assert!(factory.check_generation_write_fence("gen-001", "serving", None, 10).is_ok());
    assert!(matches!(
        factory.check_generation_write_fence("gen-002", "serving", None, 10),
        Err(StoreConnectionError::CurrentGenerationChanged { expected, found })
            if expected == "gen-001" && found == "gen-002"
    ));
    assert!(matches!(
        factory.check_generation_write_fence("gen-001", "retired", None, 10),
        Err(StoreConnectionError::GenerationNotServing { state }) if state == "retired"
    ));
    let intent = WriteIntent {
        run_id: "run-1".to_string(),
        owner_id: "owner-1".to_string(),
        owner_pid: 5,
        fencing_token: 9,
        source_generation_name: "gen-001".to_string(),
        expires_at: 100,
    };
    assert!(matches!(
        factory.check_generation_write_fence("gen-001", "serving", Some(&intent), 10),
        Err(StoreConnectionError::MaintenanceInProgress { run_id }) if run_id == "run-1"
    ));
    assert!(factory.check_generation_write_fence("gen-001", "serving", Some(&intent), 100).is_ok());
    let fence = GenerationFence::maintenance(&layout(), "run-1", "owner-1", 5, 9, 10);
    let fenced = factory.clone().with_generation_fence(fence.clone());
    assert!(fenced.check_generation_write_fence("gen-001", "serving", Some(&intent), 10).is_ok());
    assert!(fenced.check_writer_lease(&fence, true).is_ok());
    assert!(matches!(
        fenced.check_writer_lease(&fence, false),
        Err(StoreConnectionError::WriterLeaseLost)
    ));
    let writer = GenerationFence::writer(&layout(), "owner-1", 5, 9, 10);
    assert!(!writer.is_maintenance());
    let wrong = factory.with_generation_fence(writer);
    assert!(wrong.check_generation_write_fence("gen-001", "serving", Some(&intent), 10).is_err());
}

#[test]
fn fence_clock_prefers_the_wall_clock_near_it() {
    assert_eq!(fence_clock(1_000_000, 1_001_000), 1_001_000);
    assert_eq!(fence_clock(1_000, 10_000_000), 1_000);
    assert_eq!(fence_clock(20_000, 10_000), 20_000);
    assert_eq!(fence_clock(14_000, 10_000), 10_000);
}

#[test]
fn maintenance_raises_the_writer_floor() {
    assert_eq!(raised_writer_floor("2.1.0", "2.0.0").unwrap(), "2.1.0");
    assert_eq!(raised_writer_floor("1.0.0", "2.0.0").unwrap(), "2.0.0");
    assert!(matches!(
        raised_writer_floor("nope", "2.0.0"),
        Err(MaintenanceError::Connection(StoreConnectionError::InvalidVersion { .. }))
    ));
}

#[test]
fn holders_and_owner_fences_are_checked_before_any_lease_read() {
    let holder = LeaseHolder::new("w1".to_string(), "2.0.0".to_string(), 42);
    assert!(check_holder(&holder).is_ok());
    let nameless = LeaseHolder::new(String::new(), "2.0.0".to_string(), 42);
    assert_eq!(check_holder(&nameless), Err(CoordinatorError::InvalidRequest));
    let fence = MaintenanceOwnerFence {
        run_id: "run".to_string(),
        owner_id: "w1".to_string(),
        owner_pid: 42,
        fencing_token: 9,
    };
    assert!(check_owner_fence(&holder, &fence).is_ok());
    let other = MaintenanceOwnerFence { owner_pid: 43, ..fence.clone() };
    assert_eq!(check_owner_fence(&holder, &other), Err(CoordinatorError::InvalidRequest));
    let tokenless = MaintenanceOwnerFence { fencing_token: 0, ..fence };
    assert_eq!(check_owner_fence(&holder, &tokenless), Err(CoordinatorError::InvalidRequest));
}

#[test]
fn terminal_states_and_live_intents() {
    assert!(RequestState::Committed.terminal());
    assert!(RequestState::Acknowledged.terminal());
    assert!(RequestState::Failed.terminal());
    assert!(!RequestState::Queued.terminal());
    assert!(!RequestState::Claimed.terminal());
    let intent = IntentIdentity {
        run_id: "run".to_string(),
        owner_id: "owner".to_string(),
        owner_pid: 7,
        fencing_token: 3,
    };
    assert_eq!(live_intent(intent.clone(), 101, 100), Some(intent.clone()));
    assert_eq!(live_intent(intent, 100, 100), None);
}
