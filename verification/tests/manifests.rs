use julie_extract_artifact::sorted::keys_strictly_sorted;
use julie_extract_artifact::store::manifest::{
    canonical_path, ManifestEntry, ManifestEntryStatus, ManifestPublishDisposition,
    ManifestStoreError,
};
use julie_extract_artifact::store::manifest_build::{
    canonicalize_entry, check_publish_request, encode_manifest, prepare_entries, publish_attempt,
    publish_target, retry_delay_ms, validate_entry, PublishBase, VersionIdentity, VersionLookup,
    MANIFEST_HASH_ALGORITHM,
};

fn indexed(path: &str, version: i64) -> ManifestEntry {
    ManifestEntry::indexed(
        path.to_string(),
        "rust".to_string(),
        version,
        format!("hash-{version}"),
        "2024-01-01T00:00:00Z".to_string(),
    )
}

fn identity(path: &str, version: i64) -> VersionIdentity {
    VersionIdentity {
        path: path.to_string(),
        language: "rust".to_string(),
        content_hash: format!("hash-{version}"),
        extraction_epoch: 4,
    }
}

#[test]
fn entries_are_checked_by_status() {
    assert!(validate_entry(&indexed("a.rs", 1)).is_ok());
    let mut bad = indexed("a.rs", 1);
    bad.language = String::new();
    assert_eq!(
        validate_entry(&bad),
        Err(ManifestStoreError::InvalidEntry { path: "a.rs".to_string() })
    );
    let failed = ManifestEntry::failed(
        "b.rs".to_string(),
        "rust".to_string(),
        "h".to_string(),
        "t".to_string(),
        "parse".to_string(),
        "{\"line\":1}".to_string(),
    );
    assert!(validate_entry(&failed).is_ok());
    let mut broken = failed.clone();
    broken.error_json = Some("{".to_string());
    assert!(validate_entry(&broken).is_err());
    let mut with_version = failed.clone();
    with_version.version_id = Some(3);
    assert!(validate_entry(&with_version).is_err());
    assert_eq!(with_version.status, ManifestEntryStatus::Failed);
}

#[test]
fn canonical_entries_are_sorted_and_unique() {
    let entries = vec![indexed("./src/b.rs", 2), indexed("src//a.rs", 1)];
    let prepared = prepare_entries(entries).unwrap();
    let paths: Vec<&str> = prepared.iter().map(|e| e.path.as_str()).collect();
    assert_eq!(paths, vec!["src/a.rs", "src/b.rs"]);
    let duplicated = vec![
        indexed("z.rs", 1),
        indexed("b.rs", 2),
        indexed("./b.rs", 3),
        indexed("z.rs", 4),
    ];
    assert_eq!(
        prepare_entries(duplicated),
        Err(ManifestStoreError::DuplicatePath { path: "b.rs".to_string() })
    );
    assert!(matches!(
        prepare_entries(vec![indexed("ok.rs", 1), indexed("/abs.rs", 2)]),
        Err(ManifestStoreError::InvalidPath { path }) if path == "/abs.rs"
    ));
}

#[test]
fn error_json_is_written_back_canonically() {
    let failed = ManifestEntry::failed(
        "./b.rs".to_string(),
        "rust".to_string(),
        "h".to_string(),
        "t".to_string(),
        "parse".to_string(),
        "{ \"z\": 1, \"a\": [true] }".to_string(),
    );
    let canonical = canonicalize_entry(failed).unwrap();
    assert_eq!(canonical.path, "b.rs");
    assert_eq!(canonical.error_json.as_deref(), Some("{\"a\":[true],\"z\":1}"));
    assert_eq!(canonical_path("a/./b/../c").ok(), None);
}

#[test]
fn manifests_hash_their_canonical_bytes() {
    let entries = prepare_entries(vec![indexed("b.rs", 2), indexed("a.rs", 1)]).unwrap();
    let lookups = vec![
        Some(VersionLookup::Found(identity("a.rs", 1))),
        Some(VersionLookup::Found(identity("b.rs", 2))),
    ];
    let built = encode_manifest(entries.clone(), &lookups).unwrap();
    assert_eq!(built.manifest_hash.len(), 64);
    assert!(built.manifest_hash.chars().all(|c| c.is_ascii_hexdigit() && !c.is_ascii_uppercase()));
    assert_eq!(built.entries, entries);
    let again = encode_manifest(entries.clone(), &lookups).unwrap();
    assert_eq!(again.manifest_hash, built.manifest_hash);
    let other = prepare_entries(vec![indexed("a.rs", 1)]).unwrap();
    let other_built = encode_manifest(other, &vec![Some(VersionLookup::Found(identity("a.rs", 1)))]).unwrap();
    assert_ne!(other_built.manifest_hash, built.manifest_hash);
    assert_eq!(MANIFEST_HASH_ALGORITHM, "sha256");
}

#[test]
fn manifests_refuse_disagreeing_versions() {
    let entries = prepare_entries(vec![indexed("a.rs", 1)]).unwrap();
    assert_eq!(
        encode_manifest(entries.clone(), &vec![Some(VersionLookup::Missing)]),
        Err(ManifestStoreError::VersionNotFound { version_id: 1 })
    );
    assert_eq!(
        encode_manifest(entries.clone(), &vec![Some(VersionLookup::Incomplete)]),
        Err(ManifestStoreError::VersionIncomplete { version_id: 1 })
    );
    assert_eq!(
        encode_manifest(entries.clone(), &vec![Some(VersionLookup::Found(identity("./b.rs", 1)))]),
        Err(ManifestStoreError::VersionPathMismatch {
            path: "a.rs".to_string(),
            version_path: "b.rs".to_string()
        })
    );
    let mut other_hash = identity("a.rs", 1);
    other_hash.content_hash = "different".to_string();
    assert_eq!(
        encode_manifest(entries.clone(), &vec![Some(VersionLookup::Found(other_hash))]),
        Err(ManifestStoreError::ObservedHashMismatch { path: "a.rs".to_string() })
    );
    let mut other_language = identity("a.rs", 1);
    other_language.language = "go".to_string();
    assert!(matches!(
        encode_manifest(entries, &vec![Some(VersionLookup::Found(other_language))]),
        Err(ManifestStoreError::VersionLanguageMismatch { version_language, .. }) if version_language == "go"
    ));
}

#[test]
fn publication_decisions() {
    assert_eq!(check_publish_request("view", ""), Err(ManifestStoreError::EmptyRequestId));
    assert_eq!(check_publish_request("", "req"), Err(ManifestStoreError::EmptyViewId));
    assert!(check_publish_request("view", "req").is_ok());
    assert_eq!(publish_attempt(Some(3), Some(3), false).unwrap(), (PublishBase::Desired, true));
    assert_eq!(
        publish_attempt(Some(3), Some(4), false),
        Err(ManifestStoreError::GenerationMismatch { expected: Some(3), actual: Some(4) })
    );
    assert_eq!(publish_attempt(Some(3), Some(4), true).unwrap(), (PublishBase::Rebased, true));
    let reused = publish_target(Some(4), Some(4), Some(9)).unwrap();
    assert_eq!(reused.generation, 4);
    assert_eq!(reused.disposition, ManifestPublishDisposition::Reused);
    assert!(!reused.flip_view);
    let back = publish_target(Some(2), Some(4), Some(9)).unwrap();
    assert!(back.flip_view && !back.insert_manifest);
    let created = publish_target(None, Some(4), Some(9)).unwrap();
    assert_eq!(created.generation, 10);
    assert_eq!(created.disposition, ManifestPublishDisposition::Created);
    assert_eq!(publish_target(None, None, None).unwrap().generation, 1);
    assert!(matches!(
        publish_target(None, None, Some(i64::MAX)),
        Err(ManifestStoreError::GenerationOutOfRange { .. })
    ));
    assert_eq!(retry_delay_ms(0), 10);
    assert_eq!(retry_delay_ms(2), 40);
    assert_eq!(retry_delay_ms(9), 80);
}

#[test]
fn manifest_hash_ignores_the_time_of_indexing() {
    let at = |t: &str| {
        prepare_entries(vec![ManifestEntry::indexed(
            "a.rs".to_string(),
            "rust".to_string(),
            1,
            "hash-1".to_string(),
            t.to_string(),
        )])
        .unwrap()
    };
    let lookups = vec![Some(VersionLookup::Found(identity("a.rs", 1)))];
    let early = encode_manifest(at("2024-01-01T00:00:00Z"), &lookups).unwrap();
    let late = encode_manifest(at("2025-06-30T12:00:00Z"), &lookups).unwrap();
    assert_eq!(early.manifest_hash, late.manifest_hash);
}

#[test]
fn canonical_paths_are_their_own_canonical_form() {
    for raw in ["./a\\b//c/./d.rs", "src/lib.rs", "x/./y/"] {
        let once = canonical_path(raw).unwrap();
        let twice = canonical_path(&once).unwrap();
        assert_eq!(once, twice);
    }
    assert_eq!(canonical_path("./a\\b//c/./d.rs").unwrap(), "a/b/c/d.rs");
    assert_eq!(canonical_path("x/./y/").unwrap(), "x/y");
}

#[test]
fn sortedness_of_entry_paths_is_checked() {
    assert!(keys_strictly_sorted::<ManifestEntry>(&Vec::new()));
    assert!(keys_strictly_sorted(&vec![indexed("a.rs", 1), indexed("b.rs", 2)]));
    assert!(!keys_strictly_sorted(&vec![indexed("b.rs", 1), indexed("a.rs", 2)]));
    assert!(!keys_strictly_sorted(&vec![indexed("a.rs", 1), indexed("a.rs", 2)]));
}
