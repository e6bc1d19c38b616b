use julie_extract_artifact::jsonl::{
    check_required_metadata, compact_json_text, jsonl_record_kinds, metadata_i64, metadata_value,
    optional_metadata_i64, optional_raw_object, require_array, require_object, required_metadata,
    JsonlExportError, JsonlExportSummary, JSONL_SCHEMA_VERSION,
};
use julie_extract_artifact::metadata::{
    required_metadata_keys, ArtifactMetadata, EXTRACT_CONTRACT_VERSION, KEY_INDEX_LEVEL,
    SQLITE_SCHEMA_VERSION,
};
use julie_extract_artifact::store::pragmas::{
    check_integer_pragma, check_text_pragma, eq_ignore_ascii_case, writer_integer_pragmas_list,
    PragmaError, WriterPragmaProfile,
};

fn metadata() -> ArtifactMetadata {
    ArtifactMetadata {
        artifact_id: "art-1".to_string(),
        root_path: "/repo".to_string(),
        binary_version: "2.0.0".to_string(),
        hash_algorithm: "sha256".to_string(),
        parser_inventory_fingerprint: "p".to_string(),
        capability_snapshot_fingerprint: "c".to_string(),
        created_at: "2024-01-01T00:00:00Z".to_string(),
        updated_at: "2024-01-02T00:00:00Z".to_string(),
    }
}

fn rows_of(m: &ArtifactMetadata) -> Vec<(String, String)> {
    let mut rows: Vec<(String, String)> = m
        .rows()
        .into_iter()
        .map(|(k, v)| (k.to_string(), v))
        .collect();
    rows.sort();
    rows
}

#[test]
fn metadata_rows_cover_the_required_keys() {
    let rows = metadata().rows();
    let keys: Vec<&str> = rows.iter().map(|(k, _)| *k).collect();
    assert_eq!(keys, required_metadata_keys());
    assert_eq!(rows[2].1, SQLITE_SCHEMA_VERSION.to_string());
    assert_eq!(rows[3].1, EXTRACT_CONTRACT_VERSION.to_string());
    assert_eq!(rows[2].1, "6");
    assert_eq!(rows[3].1, "4");
    assert_eq!(KEY_INDEX_LEVEL, "index_level");
    assert!(!required_metadata_keys().contains(&KEY_INDEX_LEVEL));
}

#[test]
fn export_requires_every_metadata_key() {
    let rows = rows_of(&metadata());
    assert!(check_required_metadata(&rows).is_ok());
    let missing: Vec<(String, String)> = rows
        .iter()
        .filter(|(k, _)| k != "hash_algorithm" && k != "created_at")
        .cloned()
        .collect();
    assert_eq!(
        check_required_metadata(&missing),
        Err(JsonlExportError::MissingMetadata { key: "hash_algorithm" })
    );
    assert_eq!(required_metadata(&rows, "root_path").unwrap(), "/repo");
    assert_eq!(metadata_i64(&rows, "schema_version").unwrap(), 6);
    assert_eq!(
        metadata_i64(&rows, "root_path"),
        Err(JsonlExportError::InvalidMetadata { key: "root_path", value: "/repo".to_string() })
    );
    assert_eq!(optional_metadata_i64(&rows, "reference_resolution_version").unwrap(), None);
    assert_eq!(metadata_value(&rows, "artifact_id"), Some("art-1"));
    assert_eq!(metadata_value(&rows, "nope"), None);
}

#[test]
fn record_kinds_and_version() {
    let kinds = jsonl_record_kinds();
    assert_eq!(kinds.len(), 22);
    assert_eq!(kinds[0], "artifact");
    assert_eq!(kinds[21], "parse_diagnostic");
    assert_eq!(JSONL_SCHEMA_VERSION, 4);
}

#[test]
fn summary_counts_by_kind() {
    let mut summary = JsonlExportSummary::new();
    summary.record_written("symbol");
    summary.record_written("file");
    summary.record_written("symbol");
    summary.record_written("artifact");
    assert_eq!(summary.total_records, 4);
    assert_eq!(
        summary.records_by_kind,
        vec![
            ("artifact".to_string(), 1),
            ("file".to_string(), 1),
            ("symbol".to_string(), 2),
        ]
    );
    let tally: usize = summary.records_by_kind.iter().map(|(_, n)| *n).sum();
    assert_eq!(tally, summary.total_records);
}

#[test]
fn json_compaction_keeps_strings() {
    assert_eq!(compact_json_text("{ \"a\" : [1, 2],\n \"b\": \"x y\" }"), "{\"a\":[1,2],\"b\":\"x y\"}");
    assert_eq!(compact_json_text("{\"q\": \"a \\\" b\"}"), "{\"q\":\"a \\\" b\"}");
    assert_eq!(compact_json_text("  \t\r\n"), "");
}

#[test]
fn stored_json_columns_are_checked() {
    assert!(require_object("c", "{\"a\":1}").is_ok());
    assert_eq!(
        require_object("c", "[1]"),
        Err(JsonlExportError::InvalidJsonShape { column: "c", expected: "object" })
    );
    assert_eq!(require_object("c", "{"), Err(JsonlExportError::Json { column: "c" }));
    assert!(require_array("c", "[1, 2]").is_ok());
    assert!(require_array("c", "{}").is_err());
    assert_eq!(optional_raw_object("c", None).unwrap(), None);
    assert_eq!(
        optional_raw_object("c", Some("{ \"k\": 1 }")).unwrap().as_deref(),
        Some("{\"k\":1}")
    );
    assert!(optional_raw_object("c", Some("3")).is_err());
}

#[test]
fn writer_pragmas() {
    assert_eq!(WriterPragmaProfile::Routine.wal_autocheckpoint(), 1_000);
    assert_eq!(WriterPragmaProfile::Bulk.wal_autocheckpoint(), 8_000);
    let list = writer_integer_pragmas_list();
    assert_eq!(list[0], ("page_size", 4096));
    assert_eq!(list[1], ("auto_vacuum", 2));
    assert_eq!(list[5], ("journal_size_limit", 268_435_456));
    assert!(check_integer_pragma("page_size", 4096, 4096).is_ok());
    assert_eq!(
        check_integer_pragma("page_size", 4096, 1024),
        Err(PragmaError::IntegerMismatch { pragma: "page_size", expected: 4096, found: 1024 })
    );
    assert!(check_text_pragma("journal_mode", "wal", "WAL").is_ok());
    assert_eq!(
        check_text_pragma("journal_mode", "wal", "delete"),
        Err(PragmaError::TextMismatch {
            pragma: "journal_mode",
            expected: "wal",
            found: "delete".to_string()
        })
    );
    assert!(eq_ignore_ascii_case("Wal", "wAL"));
    assert!(!eq_ignore_ascii_case("wal", "wall"));
}
