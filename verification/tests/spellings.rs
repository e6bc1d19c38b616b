use julie_extract_artifact::resolution_store::{Outcome, ResolutionStatus};
use julie_extract_artifact::store::coordinator::{RequestKind, RequestState};
use julie_extract_artifact::store::manifest::{parse_status, ManifestEntryStatus};

#[test]
fn request_kinds_read_back_from_their_spelling() {
    for kind in [
        RequestKind::Import,
        RequestKind::Update,
        RequestKind::Delete,
        RequestKind::Resolve,
        RequestKind::Export,
        RequestKind::FromArtifact,
    ] {
        assert_eq!(RequestKind::parse(kind.as_str()), Ok(kind));
    }
    assert!(RequestKind::parse("Import").is_err());
}

#[test]
fn request_states_read_back_from_their_spelling() {
    for state in [
        RequestState::Queued,
        RequestState::Claimed,
        RequestState::Committed,
        RequestState::Acknowledged,
        RequestState::Failed,
    ] {
        assert_eq!(RequestState::parse(state.as_str()), Ok(state));
    }
    assert!(RequestState::parse("done").is_err());
}

#[test]
fn entry_statuses_read_back_from_their_spelling() {
    for status in [
        ManifestEntryStatus::Indexed,
        ManifestEntryStatus::FailedPreserved,
        ManifestEntryStatus::Failed,
    ] {
        assert_eq!(parse_status(status.as_str()), Some(status));
    }
    assert_eq!(parse_status("ok"), None);
}

#[test]
fn resolution_spellings_read_back() {
    for outcome in [Outcome::Resolved, Outcome::Ambiguous, Outcome::Missing, Outcome::NoContext] {
        assert_eq!(Outcome::parse(outcome.as_str()), Some(outcome));
    }
    for status in [
        ResolutionStatus::Complete,
        ResolutionStatus::Partial,
        ResolutionStatus::Failed,
        ResolutionStatus::Absent,
    ] {
        assert_eq!(ResolutionStatus::parse(status.as_str()), Some(status));
    }
}
