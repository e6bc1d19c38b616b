use julie_extract_artifact::jsonl::JsonlExportError;
use julie_extract_artifact::model::FileStatus;
use julie_extract_artifact::store::connection::StoreConnectionError;
use julie_extract_artifact::store::coordinator::CoordinatorError;
use julie_extract_artifact::store::layout::StoreLayoutError;
use julie_extract_artifact::store::log::StoreLogError;
use julie_extract_artifact::store::maintenance::MaintenanceError;
use julie_extract_artifact::store::manifest::ManifestStoreError;
use julie_extract_artifact::store::model::StoreProjectionError;

#[test]
fn coordinator_messages_quote_identifiers() {
    let e = CoordinatorError::IdempotencyConflict {
        idempotency_key: "k\"1".to_string(),
        existing_request_id: "r1".to_string(),
    };
    assert_eq!(e.message(), "idempotency key \"k\\\"1\" belongs to request \"r1\"");
    let e = CoordinatorError::CursorRegression {
        consumer_id: "c".to_string(),
        current: 9,
        requested: -3,
    };
    assert_eq!(e.message(), "consumer cursor \"c\" cannot regress from 9 to -3");
    let e = CoordinatorError::QuantumDeadlineExceeded { elapsed_ms: 4100, maximum_ms: 4000 };
    assert_eq!(e.message(), "coordinator quantum took 4100 ms; maximum is 4000 ms");
    assert_eq!(CoordinatorError::LeaseLost.message(), "store-writer lease fencing check failed");
    let nested = CoordinatorError::StoreConnection(StoreConnectionError::MaintenanceInProgress {
        run_id: "run-7".to_string(),
    });
    assert_eq!(nested.message(), "store maintenance run \"run-7\" is in progress");
}

#[test]
fn connection_and_layout_messages() {
    let e = StoreConnectionError::ReaderVersionTooOld {
        running: "1.0.0".to_string(),
        required: "2.0.0".to_string(),
    };
    assert_eq!(e.message(), "binary 1.0.0 cannot read this store; version 2.0.0 is required");
    let e = StoreConnectionError::PragmaMismatch { pragma: "page_size", expected: 4096, found: 1024 };
    assert_eq!(e.message(), "SQLite pragma page_size is 1024, expected 4096");
    let e = StoreLayoutError::CurrentRecoveryRequired {
        generations: vec!["gen-001".to_string(), "gen-002".to_string()],
    };
    assert_eq!(e.message(), "store CURRENT is missing beside published generations: gen-001, gen-002");
    let e = StoreLayoutError::TextPragmaMismatch {
        pragma: "journal_mode",
        expected: "wal",
        found: "delete".to_string(),
    };
    assert_eq!(e.message(), "SQLite pragma journal_mode is \"delete\", expected \"wal\"");
}

#[test]
fn log_and_manifest_messages() {
    let e = StoreLogError::ChunkOutOfOrder { request_id: "r".to_string(), expected: 2, actual: 5 };
    assert_eq!(e.message(), "request \"r\" chunk 5 is out of order; expected 2");
    let e = ManifestStoreError::GenerationMismatch { expected: Some(3), actual: None };
    assert_eq!(e.message(), "manifest generation None does not match expected Some(3)");
    let e = ManifestStoreError::Log(StoreLogError::InvalidEntry);
    assert_eq!(e.message(), "store-log entry is invalid");
    let e = ManifestStoreError::ViewRootMismatch {
        view_id: "v".to_string(),
        expected: "/a".to_string(),
        found: "/b".to_string(),
    };
    assert_eq!(e.message(), "view \"v\" root \"/b\" does not match \"/a\"");
}

#[test]
fn maintenance_projection_and_export_messages() {
    let e = MaintenanceError::InvalidMetadata { field: "plan", value: "x y".to_string() };
    assert_eq!(e.message(), "invalid maintenance metadata plan=\"x y\"");
    let e = MaintenanceError::InspectionRaced { database: "store" };
    assert_eq!(e.message(), "store changed during maintenance inspection");
    let e = StoreProjectionError::FileNotIndexed(FileStatus::Unsupported);
    assert_eq!(e.message(), "store versions require indexed files, found unsupported");
    let e = StoreProjectionError::NegativeLineCount(-4);
    assert_eq!(e.message(), "line count must be non-negative, found -4");
    let e = JsonlExportError::InvalidJsonShape { column: "files.metadata_json", expected: "object" };
    assert_eq!(e.message(), "invalid JSON shape in files.metadata_json: expected object");
    let e = JsonlExportError::InvalidMetadata { key: "schema_version", value: "six".to_string() };
    assert_eq!(e.message(), "invalid artifact metadata value for schema_version: six");
}
