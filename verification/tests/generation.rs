use julie_extract_artifact::store::generation::{
    allocator_sequence_table, checkpoint_report, cleanup_candidates_of, copied_metadata_rows,
    copied_tables, copy_statements, generation_name, generation_number, generation_removable,
    has_named_successor, is_retired_resolution_table, merged_tables, named_successor,
    next_generation_name, owner_marks_publication, previous_generation_name, quote_identifier,
    validate_policy, CopyCounts, GenerationError, GenerationLifecycle, GenerationPolicy,
    RepairDisposition, RepairStep, TableColumn, TableCopyProgress,
};
use julie_extract_artifact::store::maintenance::MaintenanceAction;

fn names(values: &[&str]) -> Vec<String> {
    values.iter().map(|v| v.to_string()).collect()
}

#[test]
fn default_policy_values() {
    let policy = GenerationPolicy::default();
    assert_eq!(policy.copy_window, 512);
    assert_eq!(policy.retained_generation_limit, 2);
    assert_eq!(policy.rollback_safety_ms, 7 * 24 * 60 * 60 * 1000);
    assert!(validate_policy(&policy).is_ok());
}

#[test]
fn policy_errors_name_the_first_bad_field() {
    let mut policy = GenerationPolicy::default();
    policy.copy_window = 2001;
    match validate_policy(&policy) {
        Err(GenerationError::InvalidPolicy { field, value }) => {
            assert_eq!(field, "copy_window");
            assert_eq!(value, 2001);
        }
        other => panic!("unexpected {other:?}"),
    }
    policy.copy_window = 1;
    policy.retained_generation_limit = 0;
    policy.rollback_safety_ms = -5;
    match validate_policy(&policy) {
        Err(GenerationError::InvalidPolicy { field, .. }) => {
            assert_eq!(field, "retained_generation_limit")
        }
        other => panic!("unexpected {other:?}"),
    }
    policy.retained_generation_limit = 1;
    match validate_policy(&policy) {
        Err(GenerationError::InvalidPolicy { field, value }) => {
            assert_eq!(field, "rollback_safety_ms");
            assert_eq!(value, 5);
        }
        other => panic!("unexpected {other:?}"),
    }
    assert_eq!(
        validate_policy(&policy).unwrap_err().code(),
        "generation_invalid_policy"
    );
}

#[test]
fn generation_names_and_numbers() {
    assert_eq!(generation_name(1), "gen-001");
    assert_eq!(generation_name(42), "gen-042");
    assert_eq!(generation_name(1234), "gen-1234");
    assert_eq!(generation_number("gen-007").unwrap(), 7);
    assert_eq!(generation_number("gen-+12").unwrap(), 12);
    assert!(matches!(
        generation_number("generation-1"),
        Err(GenerationError::InvalidGenerationName(name)) if name == "generation-1"
    ));
    assert!(generation_number("gen-").is_err());
    for n in [0u64, 1, 9, 10, 99, 100, 999, 1000, u64::MAX] {
        assert_eq!(generation_number(&generation_name(n)).unwrap(), n);
    }
}

#[test]
fn next_generation_follows_the_largest() {
    assert_eq!(next_generation_name(&names(&[])).unwrap(), "gen-001");
    assert_eq!(
        next_generation_name(&names(&["gen-002", "gen-010", "gen-003"])).unwrap(),
        "gen-011"
    );
    assert!(matches!(
        next_generation_name(&names(&["gen-001", "bad", "worse"])),
        Err(GenerationError::InvalidGenerationName(name)) if name == "bad"
    ));
    let top = format!("gen-{}", u64::MAX);
    assert!(matches!(
        next_generation_name(&names(&[top.as_str()])),
        Err(GenerationError::GenerationOverflow)
    ));
}

#[test]
fn previous_and_successor_generations() {
    let list = names(&["gen-001", "gen-005", "gen-003", "junk", "gen-009"]);
    assert_eq!(previous_generation_name(&list, "gen-005").as_deref(), Some("gen-003"));
    assert_eq!(previous_generation_name(&list, "gen-001"), None);
    assert_eq!(previous_generation_name(&list, "junk"), None);
    assert_eq!(
        named_successor(&list, "gen-003").unwrap().as_deref(),
        Some("gen-005")
    );
    assert_eq!(named_successor(&list, "gen-009").unwrap(), None);
    assert!(named_successor(&list, "junk").is_err());
    assert!(has_named_successor(&list, "gen-005").unwrap());
    assert!(!has_named_successor(&list, "gen-009").unwrap());
    // Ties: the last largest below, the first smallest above.
    let tied = names(&["gen-002", "gen-0002", "gen-004", "gen-0004"]);
    assert_eq!(previous_generation_name(&tied, "gen-003").as_deref(), Some("gen-0002"));
    assert_eq!(named_successor(&tied, "gen-003").unwrap().as_deref(), Some("gen-004"));
}

#[test]
fn cleanup_keeps_the_newest_retired() {
    let list = names(&["gen-004", "gen-001", "gen-003", "gen-002", "gen-005"]);
    assert_eq!(
        cleanup_candidates_of(&list, "gen-005", 2).unwrap(),
        names(&["gen-001", "gen-002"])
    );
    assert!(cleanup_candidates_of(&list, "gen-005", 4).unwrap().is_empty());
    assert!(matches!(
        cleanup_candidates_of(&names(&["gen-001", "oops"]), "gen-001", 1),
        Err(GenerationError::InvalidGenerationName(name)) if name == "oops"
    ));
}

#[test]
fn retired_generation_removal_needs_safety_and_no_pins() {
    assert!(generation_removable(0, Some("1000"), Some(2000), 1000));
    assert!(!generation_removable(0, Some("1000"), Some(1999), 1000));
    assert!(!generation_removable(1, Some("1000"), Some(5000), 1000));
    assert!(!generation_removable(0, None, Some(5000), 0));
    assert!(!generation_removable(0, Some("x"), Some(5000), 0));
    assert!(!generation_removable(0, Some("1000"), None, 0));
    assert!(generation_removable(0, Some("9223372036854775000"), Some(i64::MAX), 10_000));
}

#[test]
fn identifiers_are_quoted() {
    assert_eq!(quote_identifier("file_versions"), "\"file_versions\"");
    assert_eq!(quote_identifier("a\"b"), "\"a\"\"b\"");
}

#[test]
fn copy_statements_order_by_primary_key() {
    let columns = vec![
        TableColumn { name: "view_id".to_string(), primary_key: 2 },
        TableColumn { name: "payload".to_string(), primary_key: 0 },
        TableColumn { name: "generation".to_string(), primary_key: 1 },
    ];
    let statements = copy_statements("manifests", &columns, true).unwrap();
    assert_eq!(
        statements.select,
        "SELECT \"view_id\",\"payload\",\"generation\" FROM \"manifests\" ORDER BY \"generation\",\"view_id\" LIMIT ?1 OFFSET ?2"
    );
    assert_eq!(
        statements.insert,
        "INSERT OR IGNORE INTO \"manifests\"(\"view_id\",\"payload\",\"generation\") VALUES (?1,?2,?3)"
    );
    assert_eq!(
        statements.lookup.as_deref(),
        Some("SELECT \"view_id\",\"payload\",\"generation\" FROM \"manifests\" WHERE \"generation\"=?1 AND \"view_id\"=?2")
    );
    assert_eq!(statements.key_columns, vec![2, 0]);
}

#[test]
fn copy_statements_without_key_order_by_every_column() {
    let columns = vec![
        TableColumn { name: "a".to_string(), primary_key: 0 },
        TableColumn { name: "b".to_string(), primary_key: 0 },
    ];
    let statements = copy_statements("t", &columns, false).unwrap();
    assert_eq!(
        statements.select,
        "SELECT \"a\",\"b\" FROM \"t\" ORDER BY \"a\",\"b\" LIMIT ?1 OFFSET ?2"
    );
    assert_eq!(statements.insert, "INSERT INTO \"t\"(\"a\",\"b\") VALUES (?1,?2)");
    assert_eq!(statements.lookup, None);
    assert!(statements.key_columns.is_empty());
    assert!(copy_statements("t", &Vec::new(), false).is_none());
}

#[test]
fn copy_progress_counts_windows() {
    let mut progress = TableCopyProgress::new();
    progress.record_window(512).unwrap();
    progress.record_window(100).unwrap();
    assert_eq!(progress.rows, 612);
    assert_eq!(progress.max_observed_window, 512);
    assert_eq!(progress.offset, 612);
    progress.offset = i64::MAX;
    assert!(matches!(
        progress.record_window(1),
        Err(GenerationError::GenerationOverflow)
    ));
    let mut counts = CopyCounts::new();
    let mut versions = TableCopyProgress::new();
    versions.record_window(7).unwrap();
    counts.add_table("file_versions", &versions);
    counts.add_table("symbols", &progress);
    assert_eq!(counts.file_versions, 7);
    assert_eq!(counts.rows, 7 + 613);
    assert_eq!(counts.max_observed_window, 512);
}

#[test]
fn table_selection_for_copy_and_merge() {
    let tables = names(&[
        "files",
        "manifest_entries",
        "resolution_bases",
        "store_log",
        "store_meta",
        "views",
    ]);
    assert!(is_retired_resolution_table("resolution_pins"));
    assert!(!is_retired_resolution_table("symbols"));
    assert_eq!(
        copied_tables(&tables),
        names(&["files", "manifest_entries", "store_log", "views"])
    );
    assert_eq!(merged_tables(&tables), names(&["files"]));
}

#[test]
fn metadata_copy_drops_state_and_mirrors() {
    let rows = vec![
        ("family_id".to_string(), "fam".to_string()),
        ("generation_state".to_string(), "serving".to_string()),
        ("maintenance_tmp_run_id".to_string(), "run".to_string()),
        ("min_writer_version".to_string(), "9.9.9".to_string()),
    ];
    assert_eq!(
        copied_metadata_rows(&rows, "1.2.3"),
        vec![
            ("family_id".to_string(), "fam".to_string()),
            ("min_writer_version".to_string(), "1.2.3".to_string()),
        ]
    );
    assert_eq!(allocator_sequence_table("file_version"), Some("file_versions"));
    assert_eq!(allocator_sequence_table("store_log"), Some("store_log"));
    assert_eq!(allocator_sequence_table("manifest_generation"), None);
}

#[test]
fn lifecycle_checks_the_action() {
    assert!(matches!(
        GenerationLifecycle::for_action(MaintenanceAction::Gc),
        Err(GenerationError::InvalidAction(MaintenanceAction::Gc))
    ));
    let policy = GenerationPolicy::default();
    let names = vec!["gen-001".to_string(), "gen-002".to_string()];
    let tables = vec![
        "store_meta".to_string(),
        "file_versions".to_string(),
        "views".to_string(),
        "resolution_bases".to_string(),
        "symbols".to_string(),
    ];
    let promote = GenerationLifecycle::for_action(MaintenanceAction::Promote).unwrap();
    let plan = promote.promote(&policy, "gen-002", &names, &tables).unwrap();
    assert_eq!(plan.source_generation, "gen-002");
    assert_eq!(plan.destination_generation, "gen-003");
    assert_eq!(plan.partial_name, ".gen-003.partial");
    assert_eq!(plan.selected_generation, None);
    assert_eq!(plan.copied_tables, vec!["file_versions", "views", "symbols"]);
    assert!(plan.merged_tables.is_empty());
    assert!(matches!(
        promote.rollback(&policy, "gen-002", "gen-001", "retired", &names, &tables),
        Err(GenerationError::InvalidAction(MaintenanceAction::Promote))
    ));
    let bad_window = GenerationPolicy { copy_window: 0, ..GenerationPolicy::default() };
    assert!(matches!(
        promote.promote(&bad_window, "gen-002", &names, &tables),
        Err(GenerationError::InvalidPolicy { field: "copy_window", value: 0 })
    ));
    let bad_limit = GenerationPolicy { retained_generation_limit: 0, ..GenerationPolicy::default() };
    assert!(matches!(
        promote.promote(&bad_limit, "gen-002", &names, &tables),
        Err(GenerationError::InvalidPolicy { field: "retained_generation_limit", value: 0 })
    ));
    let odd_names = vec!["gen-001".to_string(), "notes".to_string()];
    assert!(matches!(
        promote.promote(&policy, "gen-001", &odd_names, &tables),
        Err(GenerationError::InvalidGenerationName(name)) if name == "notes"
    ));
    let rollback = GenerationLifecycle::for_action(MaintenanceAction::Rollback).unwrap();
    let plan = rollback.rollback(&policy, "gen-002", "gen-001", "retired", &names, &tables).unwrap();
    assert_eq!(plan.destination_generation, "gen-003");
    assert_eq!(plan.selected_generation.as_deref(), Some("gen-001"));
    assert_eq!(plan.merged_tables, vec!["file_versions", "symbols"]);
    assert!(matches!(
        rollback.rollback(&policy, "gen-002", "gen-001", "serving", &names, &tables),
        Err(GenerationError::Validation { check: "rollback_generation_state", detail }) if detail == "gen-001"
    ));
    assert!(matches!(
        rollback.rollback(&policy, "gen-002", "gen-002", "retired", &names, &tables),
        Err(GenerationError::Validation { .. })
    ));
    assert!(matches!(
        rollback.rollback(&policy, "gen-002", "gen-1", "retired", &names, &tables),
        Err(GenerationError::Layout(_))
    ));
    let repair = GenerationLifecycle::for_action(MaintenanceAction::Repair).unwrap();
    assert!(repair.promote(&policy, "gen-002", &names, &tables).is_ok());
    assert_eq!(
        repair.repair(true).unwrap(),
        RepairStep::Rebuild(RepairDisposition::TornStateRecovered)
    );
    assert_eq!(repair.repair(false).unwrap(), RepairStep::Checkpoint);
    assert_eq!(
        repair.repair_after_checkpoint(true, false).unwrap(),
        RepairStep::Finished(RepairDisposition::CheckpointRecovered)
    );
    assert!(matches!(
        repair.repair_after_checkpoint(false, false),
        Err(GenerationError::Maintenance(_))
    ));
    assert_eq!(
        repair.repair_after_checkpoint(false, true).unwrap(),
        RepairStep::Rebuild(RepairDisposition::GenerationRebuilt)
    );
    let report = checkpoint_report("gen-003");
    assert_eq!(report.source_generation, "gen-003");
    assert_eq!(report.destination_generation, "gen-003");
    assert_eq!(report.repair_disposition, Some(RepairDisposition::CheckpointRecovered));
    assert!(owner_marks_publication("run-7"));
    assert!(!owner_marks_publication("layout-create"));
}
