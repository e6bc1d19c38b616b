use julie_extract_artifact::store::coordinator::{
    decide_reconcile, CoordinatorError, CoordinatorRequest, RequestKind, RequestState,
    StoreTerminal,
};
use julie_extract_artifact::store::inspector::root_fingerprint;
use julie_extract_artifact::store::maintenance::plan_fingerprint;
use sha2::Digest;

#[test]
fn plan_fingerprint_is_the_sha256_of_the_canonical_bytes() {
    assert_eq!(
        plan_fingerprint(b"abc"),
        "sha256:ba7816bf8f01cfea414140de5dae2223b00361a396177a9cb410ff61f20015ad"
    );
    assert_eq!(
        plan_fingerprint(b""),
        "sha256:e3b0c44298fc1c149afbf4c8996fb92427ae41e4649b934ca495991b7852b855"
    );
}

fn committed(request_id: &str, sequence: i64, result: &str) -> CoordinatorRequest {
    let mut request = CoordinatorRequest::new(
        request_id.to_string(),
        format!("key-{request_id}"),
        RequestKind::Import,
        "{}".to_string(),
        "requester".to_string(),
        10_000,
        1,
    );
    request.state = RequestState::Committed;
    request.terminal_log_sequence = Some(sequence);
    request.result_json = Some(result.to_string());
    request
}

#[test]
fn reconcile_reports_a_disagreeing_terminal_with_the_quoted_request() {
    let request = committed("r\"1", 7, "{\"ok\":true}");
    let terminal = StoreTerminal { sequence: 8, payload_json: "{\"ok\":true}".to_string() };
    let r = decide_reconcile("r\"1", Some(&terminal), Some(&request), 3);
    assert_eq!(
        r,
        Err(CoordinatorError::CorruptRequest {
            detail: "request \"r\\\"1\" terminal coordinator fields do not match store_log".to_string(),
        })
    );
}

#[test]
fn reconcile_of_an_agreeing_terminal_is_committed_in_fact() {
    let request = committed("r1", 7, "{\"ok\":true}");
    let terminal = StoreTerminal { sequence: 7, payload_json: "{\"ok\":true}".to_string() };
    let plan = decide_reconcile("r1", Some(&terminal), Some(&request), 3).unwrap();
    assert!(plan.committed_in_fact);
    assert!(!plan.mark_committed);
    assert_eq!(plan.next_chunk_index, Some(3));
}

#[test]
fn reconcile_of_a_committed_request_without_terminal_is_ahead_of_the_store() {
    let request = committed("r1", 7, "{}");
    assert_eq!(
        decide_reconcile("r1", None, Some(&request), 0),
        Err(CoordinatorError::CoordinatorAheadOfStore { request_id: "r1".to_string() })
    );
    assert_eq!(
        decide_reconcile("r9", None, None, 0),
        Err(CoordinatorError::RequestNotFound { request_id: "r9".to_string() })
    );
}

#[test]
fn root_fingerprint_digests_the_path_and_the_length() {
    let mut data = b"/srv/store/coord.db".to_vec();
    data.extend_from_slice(&4096u64.to_le_bytes());
    let expected: String = sha2::Sha256::digest(&data).iter().map(|b| format!("{b:02x}")).collect();
    assert_eq!(root_fingerprint("/srv/store/coord.db", 4096), format!("sha256:{expected}"));
    assert_ne!(root_fingerprint("/srv/store/coord.db", 4096), root_fingerprint("/srv/store/coord.db", 4097));
}
