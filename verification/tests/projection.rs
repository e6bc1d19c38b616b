use julie_extract_artifact::model::FileStatus;
use julie_extract_artifact::store::model::{StoreProjectionError, StoreReferenceSite};
use julie_extract_artifact::store::projection::{check_store_projection, project_reference_sites};

fn site(id: &str, containing: &str, level: i64) -> StoreReferenceSite {
    StoreReferenceSite {
        reference_site_id: id.to_string(),
        path: "src/lib.rs".to_string(),
        language: "rust".to_string(),
        containing_symbol_id: Some(containing.to_string()),
        start_line: Some(3),
        start_column: Some(4),
        end_line: Some(3),
        end_column: Some(9),
        start_byte: Some(40),
        end_byte: Some(45),
        is_exact: true,
        provenance: "parser".to_string(),
        level,
    }
}

#[test]
fn projection_accepts_an_indexed_file() {
    assert_eq!(
        check_store_projection(7, FileStatus::Indexed, "abc", 120, Some(12)),
        Ok(())
    );
    assert_eq!(check_store_projection(1, FileStatus::Indexed, "abc", 0, None), Ok(()));
}

#[test]
fn projection_reports_the_first_fault() {
    assert_eq!(
        check_store_projection(0, FileStatus::Unsupported, "", -1, Some(-1)),
        Err(StoreProjectionError::FileNotIndexed(FileStatus::Unsupported))
    );
    assert_eq!(
        check_store_projection(0, FileStatus::Indexed, "", -1, Some(-1)),
        Err(StoreProjectionError::MissingContentHash)
    );
    assert_eq!(
        check_store_projection(0, FileStatus::Indexed, "abc", -1, Some(-1)),
        Err(StoreProjectionError::InvalidExtractionEpoch(0))
    );
    assert_eq!(
        check_store_projection(3, FileStatus::Indexed, "abc", -1, Some(-1)),
        Err(StoreProjectionError::NegativeContentBytes(-1))
    );
    assert_eq!(
        check_store_projection(3, FileStatus::Indexed, "abc", 10, Some(-2)),
        Err(StoreProjectionError::NegativeLineCount(-2))
    );
    assert_eq!(
        check_store_projection(3, FileStatus::FailedPreserved, "abc", 10, None),
        Err(StoreProjectionError::FileNotIndexed(FileStatus::FailedPreserved))
    );
}

#[test]
fn projection_keeps_the_first_site_for_each_identifier() {
    let candidates = vec![
        site("s1", "first", 2),
        site("s2", "only", 2),
        site("s1", "second", 2),
    ];
    let (l1, l2) = project_reference_sites(candidates);
    assert!(l1.is_empty());
    assert_eq!(l2.len(), 2);
    assert_eq!(l2[0].reference_site_id, "s1");
    assert_eq!(l2[0].containing_symbol_id.as_deref(), Some("first"));
    assert_eq!(l2[1].reference_site_id, "s2");
}

#[test]
fn projection_raises_a_site_claimed_at_level_one() {
    let candidates = vec![
        site("s1", "identifier", 2),
        site("s2", "identifier", 2),
        site("s3", "relationship", 1),
        site("s1", "relationship", 1),
    ];
    let (l1, l2) = project_reference_sites(candidates);
    let l1_ids: Vec<&str> = l1.iter().map(|s| s.reference_site_id.as_str()).collect();
    let l2_ids: Vec<&str> = l2.iter().map(|s| s.reference_site_id.as_str()).collect();
    assert_eq!(l1_ids, vec!["s1", "s3"]);
    assert_eq!(l2_ids, vec!["s2"]);
    // The raised site keeps the fields of its first candidate.
    assert_eq!(l1[0].containing_symbol_id.as_deref(), Some("identifier"));
    assert_eq!(l1[0].level, 1);
}

#[test]
fn projection_of_no_candidates_is_empty() {
    let (l1, l2) = project_reference_sites(Vec::new());
    assert!(l1.is_empty());
    assert!(l2.is_empty());
}
