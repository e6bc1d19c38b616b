use julie_extract_artifact::store::maintenance::{
    plan_maintenance, AllocatorMark, DemotionCandidate, MaintenanceAction, MaintenanceApplyPolicy,
    MaintenanceApplyReport, MaintenanceError, MaintenancePlan, MaintenancePolicy, MaintenanceRootKind,
    MaintenanceRun, MaintenanceSnapshot, PlanBinding, ProtectionReason, VersionDecision,
};
use julie_extract_artifact::store::upkeep::{
    check_acquisition, check_base_bytes, check_base_digest, check_base_path, check_binding, check_fenced_row,
    check_finish, check_publish_reacquire, gc_steps, intent_mirror_rows, maintenance_grant,
    parse_breach_streak, record_gc_step, record_physical_outcome, requests_completed_before,
    safe_log_sequence, vacuum_progress, vacuum_request, validate_apply_policy, ActiveIntent,
    BindingScope, CursorPosition, GcStep,
};

fn run() -> MaintenanceRun {
    MaintenanceRun::new("run-1".to_string(), "owner-1".to_string(), 42, 10_000, 5_000)
}

fn empty_plan() -> MaintenancePlan {
    plan_maintenance(&MaintenanceSnapshot::default(), &MaintenancePolicy::default(), |_: &MaintenancePlan| {
        b"plan".to_vec()
    })
        .expect("an empty snapshot plans")
}

fn decision(version_id: i64, protected: bool) -> VersionDecision {
    let reasons = if protected {
        vec![ProtectionReason {
            kind: MaintenanceRootKind::CurrentManifest,
            reference: "view:1".to_string(),
        }]
    } else {
        Vec::new()
    };
    VersionDecision {
        version_id,
        path: format!("src/{version_id}.rs"),
        logical_bytes: 10,
        l1_reasons: reasons,
        l2_reasons: Vec::new(),
        l3_reasons: Vec::new(),
    }
}

#[test]
fn apply_policy_limits() {
    assert!(validate_apply_policy(&MaintenanceApplyPolicy::default()).is_ok());
    let mut policy = MaintenanceApplyPolicy::default();
    policy.receipt_limit = 0;
    assert!(matches!(
        validate_apply_policy(&policy),
        Err(MaintenanceError::InvalidPolicy { field: "maintenance_apply_policy" })
    ));
    policy = MaintenanceApplyPolicy::default();
    policy.request_safety_ms = -1;
    assert!(validate_apply_policy(&policy).is_err());
}

#[test]
fn acquisition_needs_a_fitting_plan() {
    let mut plan = empty_plan();
    plan.capacity.gc_fits = true;
    plan.capacity.promotion_fits = false;
    assert!(check_acquisition(&run(), &plan, MaintenanceAction::Gc).is_ok());
    assert!(check_acquisition(&run(), &plan, MaintenanceAction::Repair).is_ok());
    assert!(matches!(
        check_acquisition(&run(), &plan, MaintenanceAction::Promote),
        Err(MaintenanceError::CapacityInsufficient)
    ));
    let bad = MaintenanceRun::new(String::new(), "owner".to_string(), 1, 0, 1);
    assert!(check_acquisition(&bad, &plan, MaintenanceAction::Gc).is_err());
}

#[test]
fn grant_computes_expiry_and_token() {
    let grant = maintenance_grant(&run(), 1_000, None, false, false, false, "1.0.0").unwrap();
    assert_eq!(grant.expires_at, 6_000);
    assert_eq!(grant.fencing_token, 1_042);
    assert_eq!(grant.source_min_writer_version, "1.0.0");
    assert!(!grant.clear_all_intents);
    let low = maintenance_grant(&run(), -100, None, false, false, false, "1.0.0").unwrap();
    assert_eq!(low.fencing_token, 1);
    assert!(matches!(
        maintenance_grant(&run(), i64::MAX, None, false, false, false, "1.0.0"),
        Err(MaintenanceError::InvalidMetadata { field: "maintenance_expiry", .. })
    ));
}

#[test]
fn grant_refuses_a_busy_store() {
    let other = ActiveIntent {
        run_id: "run-9".to_string(),
        owner_id: "owner-9".to_string(),
        owner_pid: 9,
        expires_at: 2_000,
        source_min_writer_version: "0.9.0".to_string(),
    };
    assert!(matches!(
        maintenance_grant(&run(), 1_000, Some(&other), false, false, false, "1.0.0"),
        Err(MaintenanceError::MaintenanceBusy)
    ));
    let taken = maintenance_grant(&run(), 1_000, Some(&other), true, false, false, "1.0.0").unwrap();
    assert!(taken.clear_all_intents);
    assert_eq!(taken.source_min_writer_version, "0.9.0");
    let expired = maintenance_grant(&run(), 3_000, Some(&other), false, false, false, "1.0.0").unwrap();
    assert!(!expired.clear_all_intents);
    assert!(matches!(
        maintenance_grant(&run(), 1_000, None, false, true, false, "1.0.0"),
        Err(MaintenanceError::MaintenanceBusy)
    ));
    assert!(matches!(
        maintenance_grant(&run(), 1_000, None, false, false, true, "1.0.0"),
        Err(MaintenanceError::MaintenanceBusy)
    ));
}

#[test]
fn fenced_rows_and_finish() {
    assert!(check_fenced_row(1).is_ok());
    assert!(matches!(check_fenced_row(0), Err(MaintenanceError::MaintenanceFenceLost)));
    assert!(check_finish(1, 0).is_ok());
    assert!(check_finish(1, 1).is_ok());
    assert!(check_finish(0, 1).is_err());
    assert!(check_finish(1, 2).is_err());
    assert!(check_publish_reacquire(true, false, false).is_ok());
    assert!(matches!(
        check_publish_reacquire(false, false, false),
        Err(MaintenanceError::MaintenanceBusy)
    ));
    assert!(check_publish_reacquire(true, true, false).is_err());
}

#[test]
fn bindings_compare_within_scope() {
    let expected = PlanBinding {
        family_id: "fam".to_string(),
        current_generation: "gen-001".to_string(),
        store_root_fingerprint: "store-a".to_string(),
        coordinator_root_fingerprint: "coord-a".to_string(),
        store_log_max: 7,
        request_watermark: 3,
        allocator_marks: vec![AllocatorMark {
            kind: "store_log".to_string(),
            scope_id: String::new(),
            high_water: 7,
        }],
    };
    let mut actual = expected.clone();
    assert!(check_binding(&expected, &actual, BindingScope::Full).is_ok());
    actual.store_root_fingerprint = "store-b".to_string();
    assert!(matches!(
        check_binding(&expected, &actual, BindingScope::Full),
        Err(MaintenanceError::StalePlan)
    ));
    assert!(check_binding(&expected, &actual, BindingScope::Coordinator).is_ok());
    actual.allocator_marks[0].high_water = 8;
    assert!(check_binding(&expected, &actual, BindingScope::Coordinator).is_err());
    assert!(check_binding(&expected, &actual, BindingScope::Publish).is_ok());
    actual.store_log_max = 8;
    assert!(check_binding(&expected, &actual, BindingScope::Publish).is_err());
}

#[test]
fn gc_prefers_the_demotion_cohort() {
    let mut plan = empty_plan();
    plan.versions = vec![decision(1, false), decision(2, true), decision(3, false)];
    assert_eq!(gc_steps(&plan, 0), vec![GcStep::Purge(1), GcStep::Purge(3)]);
    assert_eq!(gc_steps(&plan, 1), vec![GcStep::Purge(3)]);
    plan.demotion_cohort = vec![
        DemotionCandidate { version_id: 5, estimated_dirty_bytes: 1, drop_l3: true, drop_l2: false },
        DemotionCandidate { version_id: 6, estimated_dirty_bytes: 1, drop_l3: false, drop_l2: true },
        DemotionCandidate { version_id: 7, estimated_dirty_bytes: 1, drop_l3: false, drop_l2: false },
    ];
    assert_eq!(
        gc_steps(&plan, 5),
        vec![GcStep::DemoteL2(6), GcStep::Pass(7)]
    );
    let mut report = MaintenanceApplyReport::default();
    record_gc_step(&mut report, GcStep::DemoteL3(5), 4);
    record_gc_step(&mut report, GcStep::Purge(9), 0);
    assert_eq!(report.demoted_l3, 4);
    assert_eq!(report.last_version_cursor, Some(5));
    record_gc_step(&mut report, GcStep::Purge(10), 1);
    assert_eq!(report.purged_versions, 1);
    assert_eq!(report.last_version_cursor, Some(10));
}

#[test]
fn base_files_must_match_their_records() {
    assert!(check_base_bytes("b1", 10, 10).is_ok());
    assert!(matches!(
        check_base_bytes("b1", -3, 10),
        Err(MaintenanceError::InvalidMetadata { field: "resolution_base_bytes", value }) if value == "-3"
    ));
    assert!(matches!(
        check_base_bytes("b1", 11, 10),
        Err(MaintenanceError::InvalidMetadata { field: "resolution_base_bytes", value }) if value == "b1"
    ));
    assert!(check_base_digest("b1", "aa", "aa").is_ok());
    assert!(matches!(
        check_base_digest("b1", "aa", "ab"),
        Err(MaintenanceError::InvalidMetadata { field: "resolution_base_sha256", value }) if value == "b1"
    ));
}

#[test]
fn vacuum_steps() {
    assert_eq!(vacuum_request(0, 64, 100), Some(64));
    assert_eq!(vacuum_request(60, 64, 100), Some(4));
    assert_eq!(vacuum_request(0, 64, 10), Some(10));
    assert_eq!(vacuum_request(64, 64, 10), None);
    assert_eq!(vacuum_request(0, 64, 0), None);
    assert_eq!(vacuum_progress(4, 10, 7).unwrap(), 7);
    assert!(matches!(
        vacuum_progress(4, 10, 10),
        Err(MaintenanceError::InvalidMetadata { field: "incremental_vacuum", value })
            if value == "freelist did not decrease from 10"
    ));
    let policy = MaintenanceApplyPolicy::default();
    assert_eq!(requests_completed_before(&run(), &policy), 10_000 - policy.request_safety_ms);
}

#[test]
fn safe_sequence_is_the_lowest_cursor() {
    let cursors = vec![
        CursorPosition { consumer_id: "a".to_string(), store_log_sequence: 5 },
        CursorPosition { consumer_id: "b".to_string(), store_log_sequence: 3 },
    ];
    assert_eq!(safe_log_sequence(Some(9), 7, &cursors).unwrap(), (3, 9));
    assert_eq!(safe_log_sequence(None, 7, &Vec::new()).unwrap(), (7, 7));
    let bad = vec![CursorPosition { consumer_id: "c".to_string(), store_log_sequence: 12 }];
    assert!(matches!(
        safe_log_sequence(None, 7, &bad),
        Err(MaintenanceError::InvalidMetadata { field: "consumer_cursor", value }) if value == "c:12:7"
    ));
}

#[test]
fn physical_outcome_tracks_the_breach_streak() {
    assert_eq!(parse_breach_streak(None).unwrap(), 0);
    assert_eq!(parse_breach_streak(Some("2")).unwrap(), 2);
    assert!(parse_breach_streak(Some("-1")).is_err());
    let mut plan = empty_plan();
    plan.retention.physical_target_bytes = 100;
    plan.retention.physical_ceiling_bytes = 200;
    plan.retention.physical_breach_limit = 3;
    let mut report = MaintenanceApplyReport::default();
    record_physical_outcome(&mut report, &plan.retention, 150, 2);
    assert!(report.physical_target_breached);
    assert!(!report.physical_ceiling_breached);
    assert_eq!(report.physical_breach_streak, 3);
    assert!(report.compaction_required);
    record_physical_outcome(&mut report, &plan.retention, 50, 2);
    assert_eq!(report.physical_breach_streak, 0);
    assert!(!report.compaction_required);
    record_physical_outcome(&mut report, &plan.retention, 150, u32::MAX);
    assert_eq!(report.physical_breach_streak, u32::MAX);
}

#[test]
fn intent_mirror_rows_in_order() {
    let rows = intent_mirror_rows(&run(), MaintenanceAction::Gc, "gen-001", 77, 1_000, "fp", "1.0.0");
    let keys: Vec<&str> = rows.iter().map(|(k, _)| k.as_str()).collect();
    assert_eq!(
        keys,
        vec![
            "maintenance_tmp_run_id",
            "maintenance_tmp_action",
            "maintenance_tmp_source_generation_name",
            "maintenance_tmp_owner_id",
            "maintenance_tmp_owner_pid",
            "maintenance_tmp_fencing_token",
            "maintenance_tmp_heartbeat_at",
            "maintenance_tmp_started_at",
            "maintenance_tmp_plan_fingerprint",
            "maintenance_tmp_source_min_writer_version",
        ]
    );
    assert_eq!(rows[1].1, "gc");
    assert_eq!(rows[4].1, "42");
    assert_eq!(rows[5].1, "77");
    assert_eq!(rows[6].1, "1000");
}

#[test]
fn base_paths_must_stay_inside_bases() {
    assert!(check_base_path("bases/abc.sqlite").is_ok());
    assert!(check_base_path("bases/./nested//abc.sqlite").is_ok());
    assert!(check_base_path("bases").is_ok());
    for bad in ["", "/bases/abc", "./bases/abc", "other/abc", "bases/../abc", "bases/a:b", "bases/a\0b"] {
        match check_base_path(bad) {
            Err(MaintenanceError::InvalidMetadata { field, value }) => {
                assert_eq!(field, "resolution_base_path");
                assert_eq!(value, bad);
            }
            other => panic!("{bad:?} gave {other:?}"),
        }
    }
}

#[test]
fn a_plan_is_sealed_with_the_digest_of_its_unsealed_form() {
    let seen = std::cell::RefCell::new(Vec::new());
    let plan = plan_maintenance(&MaintenanceSnapshot::default(), &MaintenancePolicy::default(), |unsealed: &MaintenancePlan| {
        seen.borrow_mut().push((unsealed.fingerprint.clone(), unsealed.max_observed_window));
        b"canonical plan".to_vec()
    })
    .expect("an empty snapshot plans");
    assert_eq!(seen.borrow().as_slice(), &[(String::new(), 0)]);
    assert_eq!(plan.fingerprint, julie_extract_artifact::store::maintenance::plan_fingerprint(b"canonical plan"));
}
