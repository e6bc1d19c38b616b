use julie_extract_artifact::reports::{ReportCode, ReportStatus, RowDomainCounts, sqlite_row_domains};
use julie_extract_artifact::resolution_store::{
    canonical_reference_kind, read_resolution_metadata, resolution_metadata_rows, Outcome,
    ResolutionMetadataError, ResolutionStatus,
};
use julie_extract_artifact::store::layout::{
    current_partial_reapable, join_path, partial_generation_reapable, partial_generation_scaffold,
    path_within_root, valid_generation_name, PartialGenerationOwner, ScaffoldIntent,
};
use julie_extract_artifact::store::log::{
    chunk_index_column, parse_level, record_from_row, validate_next_chunk, StoreLogEntry,
    StoreLogError,
};
use julie_extract_artifact::store::model::StoreLevel;
use julie_extract_artifact::store::reader::{
    ReaderManifestSnapshot, ReaderOwnerIdentity, ReaderRegistration, ReaderReportFacts,
};

#[test]
fn report_codes_and_statuses() {
    assert_eq!(ReportStatus::all().len(), 6);
    assert_eq!(ReportCode::UsageError.as_str(), "usage_error");
    assert!(ReportCode::all().len() >= ReportCode::error_codes().len());
    assert!(!sqlite_row_domains().is_empty());
}

#[test]
fn row_domain_counts_add_up() {
    let mut total = RowDomainCounts::zero();
    assert!(!total.has_rows());
    let mut one = RowDomainCounts::zero();
    one.files = 3;
    one.symbols = 5;
    total.add_counts(&one);
    total.add_counts(&one);
    assert_eq!(total.files, 6);
    assert_eq!(total.symbols, 10);
    assert!(total.has_rows());
}

#[test]
fn resolution_vocabulary() {
    assert_eq!(Outcome::Resolved.as_str(), "resolved");
    assert_eq!(Outcome::parse("no_context"), Some(Outcome::NoContext));
    assert_eq!(Outcome::parse("maybe"), None);
    assert!(Outcome::Resolved.is_resolved());
    assert!(!Outcome::Missing.is_resolved());
    assert_eq!(ResolutionStatus::parse("partial"), Some(ResolutionStatus::Partial));
    assert_eq!(canonical_reference_kind("identifier", "call"), Some("calls"));
    assert_eq!(canonical_reference_kind("identifier", "type_usage"), Some("uses"));
    assert_eq!(canonical_reference_kind("relationship", "extends"), Some("extends"));
    assert_eq!(canonical_reference_kind("relationship", "call"), None);
    assert_eq!(canonical_reference_kind("literal", "call"), None);
}

#[test]
fn resolution_metadata_round_trips() {
    let rows = resolution_metadata_rows(ResolutionStatus::Complete, 3, -1);
    assert_eq!(rows[0], ("reference_resolution_status", "complete".to_string()));
    assert_eq!(rows[1].1, "3");
    assert_eq!(rows[2].1, "-1");
    let read = read_resolution_metadata(Some(&rows[0].1), Some(&rows[1].1), Some(&rows[2].1))
        .unwrap()
        .unwrap();
    assert_eq!(read.status, ResolutionStatus::Complete);
    assert_eq!(read.version, 3);
    assert_eq!(read.last_full_revision, -1);
    assert_eq!(read_resolution_metadata(None, Some("1"), None).unwrap(), None);
    assert!(matches!(
        read_resolution_metadata(Some("weird"), Some("1"), Some("1")),
        Err(ResolutionMetadataError::UnknownStatus { value }) if value == "weird"
    ));
    assert!(matches!(
        read_resolution_metadata(Some("failed"), None, Some("1")),
        Err(ResolutionMetadataError::MissingKey { .. })
    ));
}

#[test]
fn layout_names_and_paths() {
    assert!(valid_generation_name("gen-001"));
    assert!(!valid_generation_name("gen-01"));
    assert!(!valid_generation_name("generation-001"));
    assert!(partial_generation_scaffold(".gen-002.partial"));
    assert!(partial_generation_scaffold(".gen-002.partial-old"));
    assert!(!partial_generation_scaffold(".gen-002.partialx"));
    assert_eq!(join_path("/root", "gen-001"), "/root/gen-001");
    assert_eq!(join_path("/root/", "gen-001"), "/root/gen-001");
    assert!(path_within_root("/root", "/root/gen-001/store.db"));
    assert!(!path_within_root("/root", "/rooted/x"));
}

#[test]
fn scaffolding_reaping_rules() {
    let intent = ScaffoldIntent {
        run_id: "run".to_string(),
        owner_id: "owner".to_string(),
        fencing_token: 3,
        expires_at: 100,
    };
    assert!(!current_partial_reapable(&Some(intent.clone()), 50));
    assert!(current_partial_reapable(&Some(intent.clone()), 100));
    assert!(current_partial_reapable(&None, 0));
    let owner = PartialGenerationOwner {
        run_id: "run".to_string(),
        owner_id: "owner".to_string(),
        owner_pid: 9,
        fencing_token: 3,
        expires_at: 100,
    };
    assert!(partial_generation_reapable(&None, &owner, 0, true));
    assert!(!partial_generation_reapable(&None, &owner, 0, false));
    assert!(partial_generation_reapable(&Some(intent.clone()), &owner, 200, true));
    assert!(!partial_generation_reapable(&Some(intent), &owner, 50, true));
}

#[test]
fn log_entries_and_rows() {
    let entry = StoreLogEntry::new(
        "req".to_string(),
        "manifest_flipped".to_string(),
        "{}".to_string(),
        "2024".to_string(),
    )
    .with_view("view".to_string())
    .with_generation(4)
    .with_level(StoreLevel::L2);
    assert_eq!(entry.view_id.as_deref(), Some("view"));
    assert_eq!(entry.generation, Some(4));
    assert_eq!(parse_level(3).unwrap(), StoreLevel::L3);
    assert_eq!(parse_level(0), Err(StoreLogError::InvalidLevel { value: 0 }));
    assert_eq!(chunk_index_column(5).unwrap(), 5);
    assert!(chunk_index_column(u64::MAX).is_err());
    assert!(validate_next_chunk("req", 2, 2).is_ok());
    assert!(matches!(
        validate_next_chunk("req", 2, 3),
        Err(StoreLogError::ChunkOutOfOrder { expected: 2, actual: 3, .. })
    ));
    let record = record_from_row(
        7,
        "req".to_string(),
        "done".to_string(),
        None,
        Some(2),
        None,
        Some(1),
        true,
        "{}".to_string(),
        "2024".to_string(),
    )
    .unwrap();
    assert_eq!(record.sequence, 7);
    assert_eq!(record.level, Some(StoreLevel::L1));
    assert_eq!(
        record_from_row(7, "r".into(), "e".into(), None, Some(-1), None, None, false, "{}".into(), "t".into()),
        Err(StoreLogError::InvalidEntry)
    );
}

#[test]
fn reader_snapshot_fingerprints() {
    let snapshot = ReaderManifestSnapshot::new(
        "fam".to_string(),
        "view".to_string(),
        3,
        "gen-001".to_string(),
        "hash".to_string(),
        4,
        10,
        2,
    );
    assert_eq!(snapshot.store_instance_id(), "fam:gen-001");
    assert_eq!(snapshot.snapshot_fingerprint().len(), 64);
    assert!(snapshot
        .snapshot_fingerprint()
        .chars()
        .all(|c| c.is_ascii_digit() || ('a'..='f').contains(&c)));
    let same = ReaderManifestSnapshot::new(
        "fam".to_string(),
        "view".to_string(),
        3,
        "gen-001".to_string(),
        "hash".to_string(),
        4,
        10,
        2,
    );
    assert_eq!(same.snapshot_fingerprint(), snapshot.snapshot_fingerprint());
    let later = ReaderManifestSnapshot::new(
        "fam".to_string(),
        "view".to_string(),
        4,
        "gen-001".to_string(),
        "hash".to_string(),
        4,
        10,
        2,
    );
    assert_ne!(later.snapshot_fingerprint(), snapshot.snapshot_fingerprint());
    let identity = ReaderOwnerIdentity::new(
        "pin".to_string(),
        "nonce".to_string(),
        "label".to_string(),
        12,
        "birth".to_string(),
    );
    let registration = ReaderRegistration::new(identity, snapshot, 1, 2, 3);
    let facts = ReaderReportFacts::from_registration(&registration, Some("late".to_string()));
    assert_eq!(facts.pin_id(), "pin");
    assert_eq!(facts.owner_pid(), 12);
    assert_eq!(facts.expires_at(), 3);
    assert_eq!(facts.warning(), Some("late"));
    assert_eq!(facts.protected_manifest_count(), 1);
}

#[test]
fn report_code_spellings_are_distinct() {
    let codes = ReportCode::all();
    assert_eq!(codes.len(), 27);
    let mut texts: Vec<&str> = codes.iter().map(|code| code.as_str()).collect();
    texts.sort();
    texts.dedup();
    assert_eq!(texts.len(), 27);
}
