use julie_extract_artifact::store::generation::{
    check_partial_owner, owner_marks_publication, partial_owner_record, GenerationError,
};
use julie_extract_artifact::store::layout::PartialGenerationOwner;
use julie_extract_artifact::store::maintenance::MaintenanceRun;
use julie_extract_artifact::store::manifest::ManifestEntry;
use julie_extract_artifact::store::manifest_delta::ManifestDelta;

fn indexed(path: &str, version: i64, at: &str) -> ManifestEntry {
    ManifestEntry::indexed(
        path.to_string(),
        "rust".to_string(),
        version,
        format!("hash-{version}"),
        at.to_string(),
    )
}

fn paths(entries: &[ManifestEntry]) -> Vec<String> {
    entries.iter().map(|e| e.path.clone()).collect()
}

#[test]
fn delta_replayed_on_its_base_gives_the_desired_manifest() {
    let base = vec![indexed("a.rs", 1, "t0"), indexed("b.rs", 1, "t0"), indexed("c.rs", 1, "t0")];
    let desired = vec![indexed("a.rs", 1, "t0"), indexed("c.rs", 2, "t1"), indexed("d.rs", 1, "t1")];
    let delta = ManifestDelta::between(&base, &desired);
    let out = delta.apply(base.clone());
    assert_eq!(out, desired);
}

#[test]
fn delta_of_equal_manifests_changes_nothing() {
    let base = vec![indexed("a.rs", 1, "t0"), indexed("b.rs", 3, "t0")];
    let delta = ManifestDelta::between(&base, &base);
    let head = vec![indexed("z.rs", 9, "t9")];
    assert_eq!(delta.apply(head.clone()), head);
}

#[test]
fn delta_ignores_only_the_time_of_indexing() {
    let base = vec![indexed("a.rs", 1, "t0")];
    let desired = vec![indexed("a.rs", 1, "t5")];
    let delta = ManifestDelta::between(&base, &desired);
    // The entry says the same thing, so no change is recorded.
    let out = delta.apply(base.clone());
    assert_eq!(out[0].indexed_at, "t0");
}

#[test]
fn delta_rebases_onto_a_newer_head() {
    let base = vec![indexed("a.rs", 1, "t0"), indexed("b.rs", 1, "t0")];
    let desired = vec![indexed("a.rs", 2, "t1")];
    let delta = ManifestDelta::between(&base, &desired);
    // Another writer published e.rs meanwhile; our changes keep it.
    let head = vec![indexed("a.rs", 1, "t0"), indexed("b.rs", 1, "t0"), indexed("e.rs", 1, "t0")];
    let out = delta.apply(head);
    assert_eq!(paths(&out), vec!["a.rs".to_string(), "e.rs".to_string()]);
    assert_eq!(out[0].version_id, Some(2));
}

#[test]
fn delta_from_an_empty_base_adds_every_entry() {
    let desired = vec![indexed("a.rs", 1, "t0"), indexed("b.rs", 1, "t0")];
    let delta = ManifestDelta::between(&Vec::new(), &desired);
    assert_eq!(delta.apply(Vec::new()), desired);
}

fn run() -> MaintenanceRun {
    MaintenanceRun::new("run-1".to_string(), "owner-1".to_string(), 42, 1_000, 5_000)
}

#[test]
fn partial_owner_record_names_the_run_and_token() {
    let owner = partial_owner_record(&run(), 7, 2_000);
    assert_eq!(owner.run_id, "run-1");
    assert_eq!(owner.owner_id, "owner-1");
    assert_eq!(owner.owner_pid, 42);
    assert_eq!(owner.fencing_token, 7);
    assert_eq!(owner.expires_at, 7_000);
}

#[test]
fn partial_owned_by_this_run_may_be_replaced() {
    let owner = partial_owner_record(&run(), 7, 2_000);
    assert!(check_partial_owner(Some(&owner), false, "gen-002.partial", &run(), 7).is_ok());
}

#[test]
fn partial_of_another_live_run_is_refused() {
    let owner = PartialGenerationOwner {
        run_id: "run-2".to_string(),
        owner_id: "owner-1".to_string(),
        owner_pid: 42,
        fencing_token: 7,
        expires_at: 0,
    };
    let r = check_partial_owner(Some(&owner), false, "gen-002.partial", &run(), 7);
    assert!(matches!(r, Err(GenerationError::PartialOwned(ref p)) if p == "gen-002.partial"));
    assert!(check_partial_owner(Some(&owner), true, "gen-002.partial", &run(), 7).is_ok());
}

#[test]
fn partial_without_owner_record_is_refused() {
    let r = check_partial_owner(None, true, "gen-003.partial", &run(), 1);
    assert!(matches!(r, Err(GenerationError::PartialOwned(ref p)) if p == "gen-003.partial"));
}

#[test]
fn layout_creation_owner_does_not_mark_a_publication() {
    assert!(!owner_marks_publication("layout-create"));
    assert!(owner_marks_publication("run-1"));
}
