//! The reference-resolution overlay's value types: outcomes, the durable
//! status, per-table counts, report rows, and the canonical reference kind.

use vstd::prelude::*;

use crate::text::{chars_of, i64_text, int_text, owned, parse_i64, parse_i64_spec, str_eq, string_of};

verus! {

/// The metadata key of the durable resolution status.
pub const KEY_RESOLUTION_STATUS: &'static str = "reference_resolution_status";

/// The metadata key of the resolver version.
pub const KEY_RESOLUTION_VERSION: &'static str = "reference_resolution_version";

/// The metadata key of the last revision a full pass covered.
pub const KEY_RESOLUTION_LAST_FULL_REVISION: &'static str = "reference_resolution_last_full_revision";

/// What resolving a reference found.
#[derive(Debug, Clone, Copy, PartialEq, Eq, Structural)]
pub enum Outcome {
    Resolved,
    Ambiguous,
    Missing,
    NoContext,
}

/// The stored spelling of an outcome.
pub open spec fn outcome_text(o: Outcome) -> Seq<char> {
    match o {
        Outcome::Resolved => "resolved"@,
        Outcome::Ambiguous => "ambiguous"@,
        Outcome::Missing => "missing"@,
        Outcome::NoContext => "no_context"@,
    }
}

impl Outcome {
    pub fn as_str(self) -> (r: &'static str)
        ensures
            r@ == outcome_text(self),
    {
        proof {
            reveal_strlit("resolved");
            reveal_strlit("ambiguous");
            reveal_strlit("missing");
            reveal_strlit("no_context");
        }
        match self {
            Outcome::Resolved => "resolved",
            Outcome::Ambiguous => "ambiguous",
            Outcome::Missing => "missing",
            Outcome::NoContext => "no_context",
        }
    }

    pub fn parse(value: &str) -> (r: Option<Self>)
        ensures
            match r {
                Some(o) => value@ == outcome_text(o),
                None => value@ != "resolved"@ && value@ != "ambiguous"@ && value@ != "missing"@ && value@
                    != "no_context"@,
            },
    {
        if str_eq(value, "resolved") {
            Some(Outcome::Resolved)
        } else if str_eq(value, "ambiguous") {
            Some(Outcome::Ambiguous)
        } else if str_eq(value, "missing") {
            Some(Outcome::Missing)
        } else if str_eq(value, "no_context") {
            Some(Outcome::NoContext)
        } else {
            None
        }
    }

    pub fn is_resolved(self) -> (r: bool)
        ensures
            r == (self == Outcome::Resolved),
    {
        match self {
            Outcome::Resolved => true,
            _ => false,
        }
    }
}

/// Durable resolution-availability status published to the artifact's
/// metadata.
#[derive(Debug, Clone, Copy, PartialEq, Eq, Structural)]
pub enum ResolutionStatus {
    Complete,
    Partial,
    Failed,
    Absent,
}

/// The stored spelling of a status.
pub open spec fn status_text(s: ResolutionStatus) -> Seq<char> {
    match s {
        ResolutionStatus::Complete => "complete"@,
        ResolutionStatus::Partial => "partial"@,
        ResolutionStatus::Failed => "failed"@,
        ResolutionStatus::Absent => "absent"@,
    }
}

impl ResolutionStatus {
    pub fn as_str(self) -> (r: &'static str)
        ensures
            r@ == status_text(self),
    {
        proof {
            reveal_strlit("complete");
            reveal_strlit("partial");
            reveal_strlit("failed");
            reveal_strlit("absent");
        }
        match self {
            ResolutionStatus::Complete => "complete",
            ResolutionStatus::Partial => "partial",
            ResolutionStatus::Failed => "failed",
            ResolutionStatus::Absent => "absent",
        }
    }

    pub fn parse(value: &str) -> (r: Option<Self>)
        ensures
            match r {
                Some(s) => value@ == status_text(s),
                None => value@ != "complete"@ && value@ != "partial"@ && value@ != "failed"@ && value@
                    != "absent"@,
            },
    {
        if str_eq(value, "complete") {
            Some(ResolutionStatus::Complete)
        } else if str_eq(value, "partial") {
            Some(ResolutionStatus::Partial)
        } else if str_eq(value, "failed") {
            Some(ResolutionStatus::Failed)
        } else if str_eq(value, "absent") {
            Some(ResolutionStatus::Absent)
        } else {
            None
        }
    }
}

/// Rows written per overlay table during a resolution pass.
#[derive(Debug, Clone, Copy, Default, PartialEq, Eq)]
pub struct ResolutionCounts {
    pub pending_resolutions: u64,
    pub identifier_resolutions: u64,
}


impl ResolutionCounts {
    /// Rows written across both overlay tables.
    pub fn total(self) -> (r: u64)
        requires
            self.pending_resolutions + self.identifier_resolutions <= u64::MAX,
        ensures
            r == self.pending_resolutions + self.identifier_resolutions,
    {
        self.pending_resolutions + self.identifier_resolutions
    }
}

/// One row of the resolution report: a language, an origin table, the
/// raw and canonical kinds, how it resolved, and how many rows agree.
#[derive(Debug, Clone, PartialEq, Eq)]
pub struct ResolutionReportRow {
    pub language: String,
    pub origin: String,
    pub raw_kind: String,
    pub canonical_kind: String,
    pub tier: Option<u8>,
    pub method: Option<String>,
    pub outcome: String,
    pub span_present: bool,
    pub count: i64,
}

/// The canonical relationship kind of a reference: identifier calls,
/// type usages and member or variable references map to `calls`, `uses`
/// and `references`; relationship kinds stand for themselves; anything
/// else has none.
pub open spec fn canonical_kind_spec(origin: Seq<char>, raw_kind: Seq<char>) -> Option<Seq<char>> {
    if origin == "identifier"@ {
        if raw_kind == "call"@ {
            Some("calls"@)
        } else if raw_kind == "type_usage"@ {
            Some("uses"@)
        } else if raw_kind == "member_access"@ || raw_kind == "variable_ref"@ {
            Some("references"@)
        } else {
            None
        }
    } else if origin == "relationship"@ || origin == "pending_relationship"@ {
        if raw_kind == "calls"@ || raw_kind == "extends"@ || raw_kind == "implements"@ || raw_kind
            == "imports"@ || raw_kind == "instantiates"@ || raw_kind == "references"@ || raw_kind
            == "uses"@ {
            Some(raw_kind)
        } else {
            None
        }
    } else {
        None
    }
}

/// Law: what an identifier's reference kind stands for. A call is
/// `calls`, a type usage is `uses`, and a member access or a variable
/// reference is `references`, whatever the language.
pub proof fn lemma_identifier_reference_kinds()
    ensures
        canonical_kind_spec("identifier"@, "call"@) == Some("calls"@),
        canonical_kind_spec("identifier"@, "type_usage"@) == Some("uses"@),
        canonical_kind_spec("identifier"@, "member_access"@) == Some("references"@),
        canonical_kind_spec("identifier"@, "variable_ref"@) == Some("references"@),
{
    reveal_strlit("identifier");
    reveal_strlit("relationship");
    reveal_strlit("pending_relationship");
    reveal_strlit("call");
    reveal_strlit("calls");
    reveal_strlit("type_usage");
    reveal_strlit("uses");
    reveal_strlit("member_access");
    reveal_strlit("variable_ref");
    reveal_strlit("references");
    reveal_strlit("extends");
    reveal_strlit("implements");
    reveal_strlit("imports");
    reveal_strlit("instantiates");
    assert("identifier"@.len() == 10);
    assert("relationship"@.len() == 12);
    assert("pending_relationship"@.len() == 20);
    assert("call"@.len() == 4);
    assert("calls"@.len() == 5);
    assert("type_usage"@.len() == 10);
    assert("uses"@.len() == 4);
    assert("member_access"@.len() == 13);
    assert("variable_ref"@.len() == 12);
    assert("references"@.len() == 10);
    assert("extends"@.len() == 7);
    assert("implements"@.len() == 10);
    assert("imports"@.len() == 7);
    assert("instantiates"@.len() == 12);
    assert("type_usage"@[0] != "identifier"@[0]);
    assert("uses"@[0] != "call"@[0]);
    assert("variable_ref"@[0] != "relationship"@[0]);
    assert("references"@[0] != "identifier"@[0]);
    assert("references"@[0] != "type_usage"@[0]);
    assert("implements"@[1] != "identifier"@[1]);
    assert("implements"@[0] != "type_usage"@[0]);
    assert("implements"@[0] != "references"@[0]);
    assert("imports"@[0] != "extends"@[0]);
    assert("instantiates"@[0] != "relationship"@[0]);
    assert("instantiates"@[0] != "variable_ref"@[0]);
}

/// Law: a canonical kind is one of `calls`, `extends`, `implements`,
/// `imports`, `instantiates`, `references` and `uses`, and it is its own
/// canonical kind when a relationship carries it: canonicalizing twice
/// changes nothing.
pub proof fn lemma_canonical_kinds_are_fixed(origin: Seq<char>, raw_kind: Seq<char>)
    ensures
        canonical_kind_spec(origin, raw_kind) matches Some(c) ==> {
            &&& c == "calls"@ || c == "extends"@ || c == "implements"@ || c == "imports"@
                || c == "instantiates"@ || c == "references"@ || c == "uses"@
            &&& canonical_kind_spec("relationship"@, c) == Some(c)
            &&& canonical_kind_spec("pending_relationship"@, c) == Some(c)
        },
{
    reveal_strlit("identifier");
    reveal_strlit("relationship");
    reveal_strlit("pending_relationship");
    reveal_strlit("call");
    reveal_strlit("calls");
    reveal_strlit("type_usage");
    reveal_strlit("uses");
    reveal_strlit("member_access");
    reveal_strlit("variable_ref");
    reveal_strlit("references");
    reveal_strlit("extends");
    reveal_strlit("implements");
    reveal_strlit("imports");
    reveal_strlit("instantiates");
    assert("identifier"@.len() == 10);
    assert("relationship"@.len() == 12);
    assert("pending_relationship"@.len() == 20);
    assert("call"@.len() == 4);
    assert("calls"@.len() == 5);
    assert("type_usage"@.len() == 10);
    assert("uses"@.len() == 4);
    assert("member_access"@.len() == 13);
    assert("variable_ref"@.len() == 12);
    assert("references"@.len() == 10);
    assert("extends"@.len() == 7);
    assert("implements"@.len() == 10);
    assert("imports"@.len() == 7);
    assert("instantiates"@.len() == 12);
    assert("type_usage"@[0] != "identifier"@[0]);
    assert("uses"@[0] != "call"@[0]);
    assert("variable_ref"@[0] != "relationship"@[0]);
    assert("references"@[0] != "identifier"@[0]);
    assert("references"@[0] != "type_usage"@[0]);
    assert("implements"@[1] != "identifier"@[1]);
    assert("implements"@[0] != "type_usage"@[0]);
    assert("implements"@[0] != "references"@[0]);
    assert("imports"@[0] != "extends"@[0]);
    assert("instantiates"@[0] != "relationship"@[0]);
    assert("instantiates"@[0] != "variable_ref"@[0]);
}

/// The canonical relationship kind of a reference.
pub fn canonical_reference_kind<'a>(origin: &str, raw_kind: &'a str) -> (r: Option<&'a str>)
    ensures
        match canonical_kind_spec(origin@, raw_kind@) {
            Some(k) => r matches Some(t) && t@ == k,
            None => r is None,
        },
{
    proof {
        reveal_strlit("identifier");
        reveal_strlit("call");
        reveal_strlit("calls");
        reveal_strlit("type_usage");
        reveal_strlit("uses");
        reveal_strlit("member_access");
        reveal_strlit("variable_ref");
        reveal_strlit("references");
        reveal_strlit("relationship");
        reveal_strlit("pending_relationship");
        reveal_strlit("extends");
        reveal_strlit("implements");
        reveal_strlit("imports");
        reveal_strlit("instantiates");
    }
    if str_eq(origin, "identifier") {
        if str_eq(raw_kind, "call") {
            Some("calls")
        } else if str_eq(raw_kind, "type_usage") {
            Some("uses")
        } else if str_eq(raw_kind, "member_access") || str_eq(raw_kind, "variable_ref") {
            Some("references")
        } else {
            None
        }
    } else if str_eq(origin, "relationship") || str_eq(origin, "pending_relationship") {
        if str_eq(raw_kind, "calls") || str_eq(raw_kind, "extends") || str_eq(raw_kind, "implements")
            || str_eq(raw_kind, "imports") || str_eq(raw_kind, "instantiates") || str_eq(
            raw_kind,
            "references",
        ) || str_eq(raw_kind, "uses") {
            Some(raw_kind)
        } else {
            None
        }
    } else {
        None
    }
}

/// Durable resolution-status metadata, mirrored from the three
/// resolution keys of the artifact's metadata.
#[derive(Debug, Clone, Copy, PartialEq, Eq)]
pub struct ResolutionMetadata {
    pub status: ResolutionStatus,
    pub version: i64,
    pub last_full_revision: i64,
}

/// Why stored resolution metadata cannot be read.
#[derive(Debug, Clone, PartialEq, Eq)]
pub enum ResolutionMetadataError {
    UnknownStatus { value: String },
    MissingKey { key: &'static str },
    InvalidInteger { key: &'static str, value: String },
}

/// The stored value of an integer key, read.
pub open spec fn metadata_integer(value: Option<Seq<char>>) -> Option<i64> {
    match value {
        Some(v) => parse_i64_spec(v),
        None => None,
    }
}

fn integer_value(value: Option<&str>, key: &'static str) -> (r: Result<i64, ResolutionMetadataError>)
    ensures
        match value {
            None => r == Err::<i64, ResolutionMetadataError>(ResolutionMetadataError::MissingKey { key }),
            Some(v) => match parse_i64_spec(v@) {
                Some(n) => r == Ok::<i64, ResolutionMetadataError>(n),
                None => r matches Err(ResolutionMetadataError::InvalidInteger { key: k, value: t }) && k == key
                    && t@ == v@,
            },
        },
{
    match value {
        None => Err(ResolutionMetadataError::MissingKey { key }),
        Some(v) => {
            let cs = chars_of(v);
            match parse_i64(cs.as_slice()) {
                Some(n) => Ok(n),
                None => Err(ResolutionMetadataError::InvalidInteger { key, value: owned(v) }),
            }
        },
    }
}

/// Reads the stored resolution metadata from the values of its three
/// keys: none when no status was ever written; otherwise the status must
/// be known and both integers present and well formed.
pub fn read_resolution_metadata(
    status: Option<&str>,
    version: Option<&str>,
    last_full_revision: Option<&str>,
) -> (r: Result<Option<ResolutionMetadata>, ResolutionMetadataError>)
    ensures
        status is None ==> r == Ok::<Option<ResolutionMetadata>, ResolutionMetadataError>(None),
        status matches Some(s) ==> match r {
            Ok(Some(m)) => status_text(m.status) == s@ && Some(m.version) == metadata_integer(
                match version {
                    Some(v) => Some(v@),
                    None => None,
                },
            ) && Some(m.last_full_revision) == metadata_integer(
                match last_full_revision {
                    Some(v) => Some(v@),
                    None => None,
                },
            ),
            Ok(None) => false,
            Err(_) => s@ != "complete"@ && s@ != "partial"@ && s@ != "failed"@ && s@ != "absent"@
                || metadata_integer(
                match version {
                    Some(v) => Some(v@),
                    None => None,
                },
            ) is None || metadata_integer(
                match last_full_revision {
                    Some(v) => Some(v@),
                    None => None,
                },
            ) is None,
        },
{
    let raw = match status {
        Some(raw) => raw,
        None => {
            return Ok(None);
        },
    };
    let status = match ResolutionStatus::parse(raw) {
        Some(s) => s,
        None => {
            return Err(ResolutionMetadataError::UnknownStatus { value: owned(raw) });
        },
    };
    let version = match integer_value(version, KEY_RESOLUTION_VERSION) {
        Ok(n) => n,
        Err(e) => {
            return Err(e);
        },
    };
    let last_full_revision = match integer_value(last_full_revision, KEY_RESOLUTION_LAST_FULL_REVISION) {
        Ok(n) => n,
        Err(e) => {
            return Err(e);
        },
    };
    Ok(Some(ResolutionMetadata { status, version, last_full_revision }))
}

/// The three metadata rows that record a resolution pass: the status and
/// the two integers in decimal.
pub fn resolution_metadata_rows(status: ResolutionStatus, version: i64, last_full_revision: i64) -> (r: Vec<
    (&'static str, String),
>)
    ensures
        r@.len() == 3,
        r@[0].0@ == "reference_resolution_status"@ && r@[0].1@ == status_text(status),
        r@[1].0@ == "reference_resolution_version"@ && r@[1].1@ == int_text(version as int),
        r@[2].0@ == "reference_resolution_last_full_revision"@ && r@[2].1@ == int_text(
            last_full_revision as int,
        ),
{
    proof {
        reveal_strlit("reference_resolution_status");
        reveal_strlit("reference_resolution_version");
        reveal_strlit("reference_resolution_last_full_revision");
    }
    let mut rows: Vec<(&'static str, String)> = Vec::new();
    rows.push((KEY_RESOLUTION_STATUS, owned(status.as_str())));
    rows.push((KEY_RESOLUTION_VERSION, string_of(i64_text(version).as_slice())));
    rows.push((KEY_RESOLUTION_LAST_FULL_REVISION, string_of(i64_text(last_full_revision).as_slice())));
    rows
}


/// Law: each outcome has its own stored spelling, so a stored outcome
/// reads back as the outcome that wrote it.
pub proof fn lemma_outcome_text_round_trip(a: Outcome, b: Outcome)
    ensures
        outcome_text(a) == outcome_text(b) ==> a == b,
{
    reveal_strlit("resolved");
    reveal_strlit("ambiguous");
    reveal_strlit("missing");
    reveal_strlit("no_context");
    assert("resolved"@.len() == 8);
    assert("ambiguous"@.len() == 9);
    assert("missing"@.len() == 7);
    assert("no_context"@.len() == 10);
}

/// Law: each resolution status has its own stored spelling, so a stored
/// status reads back as the status that wrote it.
pub proof fn lemma_resolution_status_round_trip(a: ResolutionStatus, b: ResolutionStatus)
    ensures
        status_text(a) == status_text(b) ==> a == b,
{
    reveal_strlit("complete");
    reveal_strlit("partial");
    reveal_strlit("failed");
    reveal_strlit("absent");
    assert("complete"@.len() == 8);
    assert("partial"@.len() == 7);
    assert("failed"@.len() == 6);
    assert("absent"@.len() == 6);
    assert("failed"@[0] != "absent"@[0]);
}

} // verus!
