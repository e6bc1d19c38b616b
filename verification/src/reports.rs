//! Report shapes: statuses, operations, modes, codes, the per-domain
//! row counts a report carries, and how they add up.

use vstd::prelude::*;

use crate::model::RowCounts;

verus! {

/// The report schema version.
pub const REPORT_SCHEMA_VERSION: i64 = 3;

/// The SQLite row domains a report counts, in report order.
pub open spec fn row_domains() -> Seq<Seq<char>> {
    seq![
        "artifact_metadata"@,
        "parser_inventory"@,
        "language_capabilities"@,
        "language_capability_fixtures"@,
        "language_capability_gaps"@,
        "extraction_revisions"@,
        "revision_file_changes"@,
        "files"@,
        "symbols"@,
        "symbol_annotations"@,
        "reference_sites"@,
        "identifiers"@,
        "relationships"@,
        "pending_relationships"@,
        "type_facts"@,
        "type_argument_usages"@,
        "type_arguments"@,
        "literals"@,
        "source_regions"@,
        "structural_facts"@,
        "complexity_metrics"@,
        "parse_diagnostics"@,
        "pending_resolutions"@,
        "identifier_resolutions"@,
    ]
}

/// The SQLite row domains a report counts, in report order.
pub fn sqlite_row_domains() -> (r: Vec<&'static str>)
    ensures
        r@.map_values(|d: &'static str| d@) == row_domains(),
{
    let v = vec![
        "artifact_metadata",
        "parser_inventory",
        "language_capabilities",
        "language_capability_fixtures",
        "language_capability_gaps",
        "extraction_revisions",
        "revision_file_changes",
        "files",
        "symbols",
        "symbol_annotations",
        "reference_sites",
        "identifiers",
        "relationships",
        "pending_relationships",
        "type_facts",
        "type_argument_usages",
        "type_arguments",
        "literals",
        "source_regions",
        "structural_facts",
        "complexity_metrics",
        "parse_diagnostics",
        "pending_resolutions",
        "identifier_resolutions",
    ];
    assert(v@.map_values(|d: &'static str| d@) =~= row_domains());
    v
}

#[derive(Debug, Clone, Copy, PartialEq, Eq, Structural)]
pub enum ReportStatus {
    Okay,
    NoChange,
    Unsupported,
    NotFound,
    Partial,
    Failed,
}

impl ReportStatus {
    /// Every status, in declaration order.
    pub fn all() -> (r: Vec<ReportStatus>)
        ensures
            r@ == seq![
                ReportStatus::Okay,
                ReportStatus::NoChange,
                ReportStatus::Unsupported,
                ReportStatus::NotFound,
                ReportStatus::Partial,
                ReportStatus::Failed,
            ],
    {
        let v = vec![
            ReportStatus::Okay,
            ReportStatus::NoChange,
            ReportStatus::Unsupported,
            ReportStatus::NotFound,
            ReportStatus::Partial,
            ReportStatus::Failed,
        ];
        assert(v@ =~= seq![
            ReportStatus::Okay,
            ReportStatus::NoChange,
            ReportStatus::Unsupported,
            ReportStatus::NotFound,
            ReportStatus::Partial,
            ReportStatus::Failed,
        ]);
        v
    }
}

#[derive(Debug, Clone, Copy, PartialEq, Eq, Structural)]
pub enum ReportOperation {
    Scan,
    Update,
    Delete,
    Info,
    Export,
    Languages,
    Rebind,
}

#[derive(Debug, Clone, Copy, PartialEq, Eq, Structural)]
pub enum ReportMode {
    Incremental,
    Force,
    SingleFile,
    ReadOnly,
    Jsonl,
    CapabilitySnapshot,
    /// A write that touches artifact metadata only, never extracted rows.
    Metadata,
}

/// The `rebind` report section: what the artifact recorded before the
/// retarget, what it records now, and whether anything was written.
#[derive(Debug, Clone, PartialEq, Eq)]
pub struct RebindReport {
    pub previous_root: String,
    pub new_root: String,
    pub previous_artifact_id: String,
    pub new_artifact_id: String,
    pub changed: bool,
}

#[derive(Debug, Clone, PartialEq, Eq)]
pub struct ReportInput {
    pub db_path: Option<String>,
    pub root_path: Option<String>,
    pub file_path: Option<String>,
    pub root_relative_path: Option<String>,
    pub format: Option<String>,
    pub output_path: Option<String>,
}

#[derive(Debug, Clone, PartialEq, Eq)]
pub struct ArtifactReport {
    pub db_path: String,
    pub root_path: String,
    pub artifact_id: String,
    pub schema_version: i64,
    pub extract_contract_version: i64,
    pub sqlite_schema_version: i64,
    pub jsonl_schema_version: Option<i64>,
    pub hash_algorithm: String,
    pub parser_inventory_fingerprint: String,
    pub capability_snapshot_fingerprint: String,
    /// The artifact's extraction level: `symbols` or `full`.
    pub index_level: String,
}

#[derive(Debug, Clone, PartialEq, Eq)]
pub struct ToolReport {
    pub binary_name: String,
    pub binary_version: String,
}

#[derive(Debug, Clone, Copy, PartialEq, Eq)]
pub struct ReportRevision {
    pub latest_revision_id: Option<i64>,
    pub created_revision_id: Option<i64>,
}

/// Per-phase and per-language timings, keyed by name in ascending order.
#[derive(Debug, Clone, Default, PartialEq, Eq)]
pub struct ReportProfile {
    pub total_duration_ms: u64,
    pub phases: Vec<(String, u64)>,
    pub languages: Vec<(String, ReportLanguageProfile)>,
}

#[derive(Debug, Clone, Copy, Default, PartialEq, Eq)]
pub struct ReportLanguageProfile {
    pub files: i64,
    pub changed_files: i64,
    pub unchanged_files: i64,
    pub failed_files: i64,
    pub bytes: i64,
    pub read_duration_ms: u64,
    pub extract_duration_ms: u64,
    pub spool_write_duration_ms: u64,
}

#[derive(Debug, Clone, Default, PartialEq, Eq)]
pub struct ReportCounts {
    pub files_scanned: i64,
    pub files_changed: i64,
    pub files_unchanged: i64,
    pub files_unsupported: i64,
    pub files_deleted: i64,
    pub files_failed: i64,
    pub rows_written: RowDomainCounts,
    pub totals: RowDomainCounts,
    pub file_rows_truncated: bool,
    pub file_rows: Vec<ReportFileRows>,
}

#[derive(Debug, Clone, Default, PartialEq, Eq)]
pub struct ReportFileRows {
    pub path: String,
    pub language: String,
    pub status: String,
    pub total_rows: i64,
    pub rows: RowDomainCounts,
}

/// Row counts per SQLite domain.
#[derive(Debug, Clone, Copy, Default, PartialEq, Eq)]
pub struct RowDomainCounts {
    pub artifact_metadata: i64,
    pub parser_inventory: i64,
    pub language_capabilities: i64,
    pub language_capability_fixtures: i64,
    pub language_capability_gaps: i64,
    pub extraction_revisions: i64,
    pub revision_file_changes: i64,
    pub files: i64,
    pub symbols: i64,
    pub symbol_annotations: i64,
    pub reference_sites: i64,
    pub identifiers: i64,
    pub relationships: i64,
    pub pending_relationships: i64,
    pub type_facts: i64,
    pub type_argument_usages: i64,
    pub type_arguments: i64,
    pub literals: i64,
    pub source_regions: i64,
    pub structural_facts: i64,
    pub complexity_metrics: i64,
    pub parse_diagnostics: i64,
    pub pending_resolutions: i64,
    pub identifier_resolutions: i64,
}

/// The counts of a report, one per domain in report order.
pub open spec fn domain_values(c: RowDomainCounts) -> Seq<int> {
    seq![
        c.artifact_metadata as int,
        c.parser_inventory as int,
        c.language_capabilities as int,
        c.language_capability_fixtures as int,
        c.language_capability_gaps as int,
        c.extraction_revisions as int,
        c.revision_file_changes as int,
        c.files as int,
        c.symbols as int,
        c.symbol_annotations as int,
        c.reference_sites as int,
        c.identifiers as int,
        c.relationships as int,
        c.pending_relationships as int,
        c.type_facts as int,
        c.type_argument_usages as int,
        c.type_arguments as int,
        c.literals as int,
        c.source_regions as int,
        c.structural_facts as int,
        c.complexity_metrics as int,
        c.parse_diagnostics as int,
        c.pending_resolutions as int,
        c.identifier_resolutions as int,
    ]
}

/// Every domain total of `a + b` fits in an `i64`.
pub open spec fn sums_fit(a: RowDomainCounts, b: RowDomainCounts) -> bool {
    forall|i: int| 0 <= i < 24 ==> i64::MIN <= #[trigger] domain_values(a)[i] + domain_values(b)[i] <= i64::MAX
}

impl RowDomainCounts {
    /// Counts that are all zero.
    pub open spec fn zero_spec() -> RowDomainCounts {
        RowDomainCounts {
            artifact_metadata: 0,
            parser_inventory: 0,
            language_capabilities: 0,
            language_capability_fixtures: 0,
            language_capability_gaps: 0,
            extraction_revisions: 0,
            revision_file_changes: 0,
            files: 0,
            symbols: 0,
            symbol_annotations: 0,
            reference_sites: 0,
            identifiers: 0,
            relationships: 0,
            pending_relationships: 0,
            type_facts: 0,
            type_argument_usages: 0,
            type_arguments: 0,
            literals: 0,
            source_regions: 0,
            structural_facts: 0,
            complexity_metrics: 0,
            parse_diagnostics: 0,
            pending_resolutions: 0,
            identifier_resolutions: 0,
        }
    }

    /// Counts that are all zero.
    pub fn zero() -> (r: RowDomainCounts)
        ensures
            r == RowDomainCounts::zero_spec(),
    {
        RowDomainCounts {
            artifact_metadata: 0,
            parser_inventory: 0,
            language_capabilities: 0,
            language_capability_fixtures: 0,
            language_capability_gaps: 0,
            extraction_revisions: 0,
            revision_file_changes: 0,
            files: 0,
            symbols: 0,
            symbol_annotations: 0,
            reference_sites: 0,
            identifiers: 0,
            relationships: 0,
            pending_relationships: 0,
            type_facts: 0,
            type_argument_usages: 0,
            type_arguments: 0,
            literals: 0,
            source_regions: 0,
            structural_facts: 0,
            complexity_metrics: 0,
            parse_diagnostics: 0,
            pending_resolutions: 0,
            identifier_resolutions: 0,
        }
    }

    /// Whether any domain holds a row, or a negative adjustment.
    pub fn has_rows(&self) -> (r: bool)
        ensures
            r == exists|i: int| 0 <= i < 24 && domain_values(*self)[i] != 0,
    {
        let r = self.artifact_metadata != 0 || self.parser_inventory != 0 || self.language_capabilities != 0 || self.language_capability_fixtures != 0 || self.language_capability_gaps != 0 || self.extraction_revisions != 0 || self.revision_file_changes != 0 || self.files != 0 || self.symbols != 0 || self.symbol_annotations != 0 || self.reference_sites != 0 || self.identifiers != 0 || self.relationships != 0 || self.pending_relationships != 0 || self.type_facts != 0 || self.type_argument_usages != 0 || self.type_arguments != 0 || self.literals != 0 || self.source_regions != 0 || self.structural_facts != 0 || self.complexity_metrics != 0 || self.parse_diagnostics != 0 || self.pending_resolutions != 0 || self.identifier_resolutions != 0;
        proof {
            let d = domain_values(*self);
            if !r {
                assert forall|i: int| 0 <= i < 24 implies d[i] == 0 by {}
            } else {
                assert(exists|i: int| 0 <= i < 24 && d[i] != 0) by {
                    if self.artifact_metadata != 0 { assert(d[0] != 0); }
                    if self.parser_inventory != 0 { assert(d[1] != 0); }
                    if self.language_capabilities != 0 { assert(d[2] != 0); }
                    if self.language_capability_fixtures != 0 { assert(d[3] != 0); }
                    if self.language_capability_gaps != 0 { assert(d[4] != 0); }
                    if self.extraction_revisions != 0 { assert(d[5] != 0); }
                    if self.revision_file_changes != 0 { assert(d[6] != 0); }
                    if self.files != 0 { assert(d[7] != 0); }
                    if self.symbols != 0 { assert(d[8] != 0); }
                    if self.symbol_annotations != 0 { assert(d[9] != 0); }
                    if self.reference_sites != 0 { assert(d[10] != 0); }
                    if self.identifiers != 0 { assert(d[11] != 0); }
                    if self.relationships != 0 { assert(d[12] != 0); }
                    if self.pending_relationships != 0 { assert(d[13] != 0); }
                    if self.type_facts != 0 { assert(d[14] != 0); }
                    if self.type_argument_usages != 0 { assert(d[15] != 0); }
                    if self.type_arguments != 0 { assert(d[16] != 0); }
                    if self.literals != 0 { assert(d[17] != 0); }
                    if self.source_regions != 0 { assert(d[18] != 0); }
                    if self.structural_facts != 0 { assert(d[19] != 0); }
                    if self.complexity_metrics != 0 { assert(d[20] != 0); }
                    if self.parse_diagnostics != 0 { assert(d[21] != 0); }
                    if self.pending_resolutions != 0 { assert(d[22] != 0); }
                    if self.identifier_resolutions != 0 { assert(d[23] != 0); }
                }
            }
        }
        r
    }

    /// Adds `other` into these counts, domain by domain.
    pub fn add_counts(&mut self, other: &Self)
        requires
            sums_fit(*old(self), *other),
        ensures
            forall|i: int| 0 <= i < 24 ==> #[trigger] domain_values(*final(self))[i] == domain_values(*old(self))[i]
                + domain_values(*other)[i],
    {
        proof {
            let a = domain_values(*self);
            let b = domain_values(*other);
            assert(i64::MIN <= a[0] + b[0] <= i64::MAX);
            assert(i64::MIN <= a[1] + b[1] <= i64::MAX);
            assert(i64::MIN <= a[2] + b[2] <= i64::MAX);
            assert(i64::MIN <= a[3] + b[3] <= i64::MAX);
            assert(i64::MIN <= a[4] + b[4] <= i64::MAX);
            assert(i64::MIN <= a[5] + b[5] <= i64::MAX);
            assert(i64::MIN <= a[6] + b[6] <= i64::MAX);
            assert(i64::MIN <= a[7] + b[7] <= i64::MAX);
            assert(i64::MIN <= a[8] + b[8] <= i64::MAX);
            assert(i64::MIN <= a[9] + b[9] <= i64::MAX);
            assert(i64::MIN <= a[10] + b[10] <= i64::MAX);
            assert(i64::MIN <= a[11] + b[11] <= i64::MAX);
            assert(i64::MIN <= a[12] + b[12] <= i64::MAX);
            assert(i64::MIN <= a[13] + b[13] <= i64::MAX);
            assert(i64::MIN <= a[14] + b[14] <= i64::MAX);
            assert(i64::MIN <= a[15] + b[15] <= i64::MAX);
            assert(i64::MIN <= a[16] + b[16] <= i64::MAX);
            assert(i64::MIN <= a[17] + b[17] <= i64::MAX);
            assert(i64::MIN <= a[18] + b[18] <= i64::MAX);
            assert(i64::MIN <= a[19] + b[19] <= i64::MAX);
            assert(i64::MIN <= a[20] + b[20] <= i64::MAX);
            assert(i64::MIN <= a[21] + b[21] <= i64::MAX);
            assert(i64::MIN <= a[22] + b[22] <= i64::MAX);
            assert(i64::MIN <= a[23] + b[23] <= i64::MAX);
        }
        self.artifact_metadata = self.artifact_metadata + other.artifact_metadata;
        self.parser_inventory = self.parser_inventory + other.parser_inventory;
        self.language_capabilities = self.language_capabilities + other.language_capabilities;
        self.language_capability_fixtures = self.language_capability_fixtures + other.language_capability_fixtures;
        self.language_capability_gaps = self.language_capability_gaps + other.language_capability_gaps;
        self.extraction_revisions = self.extraction_revisions + other.extraction_revisions;
        self.revision_file_changes = self.revision_file_changes + other.revision_file_changes;
        self.files = self.files + other.files;
        self.symbols = self.symbols + other.symbols;
        self.symbol_annotations = self.symbol_annotations + other.symbol_annotations;
        self.reference_sites = self.reference_sites + other.reference_sites;
        self.identifiers = self.identifiers + other.identifiers;
        self.relationships = self.relationships + other.relationships;
        self.pending_relationships = self.pending_relationships + other.pending_relationships;
        self.type_facts = self.type_facts + other.type_facts;
        self.type_argument_usages = self.type_argument_usages + other.type_argument_usages;
        self.type_arguments = self.type_arguments + other.type_arguments;
        self.literals = self.literals + other.literals;
        self.source_regions = self.source_regions + other.source_regions;
        self.structural_facts = self.structural_facts + other.structural_facts;
        self.complexity_metrics = self.complexity_metrics + other.complexity_metrics;
        self.parse_diagnostics = self.parse_diagnostics + other.parse_diagnostics;
        self.pending_resolutions = self.pending_resolutions + other.pending_resolutions;
        self.identifier_resolutions = self.identifier_resolutions + other.identifier_resolutions;
    }

    /// The counts an extraction wrote: its row counts, with the metadata,
    /// inventory, capability, revision and resolution domains at zero.
    pub fn from_extraction_rows(row_counts: &RowCounts) -> (r: Self)
        ensures
            r == (RowDomainCounts {
                revision_file_changes: row_counts.revision_file_changes,
                files: row_counts.files,
                symbols: row_counts.symbols,
                symbol_annotations: row_counts.symbol_annotations,
                reference_sites: row_counts.reference_sites,
                identifiers: row_counts.identifiers,
                relationships: row_counts.relationships,
                pending_relationships: row_counts.pending_relationships,
                type_facts: row_counts.type_facts,
                type_argument_usages: row_counts.type_argument_usages,
                type_arguments: row_counts.type_arguments,
                literals: row_counts.literals,
                source_regions: row_counts.source_regions,
                structural_facts: row_counts.structural_facts,
                complexity_metrics: row_counts.complexity_metrics,
                parse_diagnostics: row_counts.parse_diagnostics,
                ..RowDomainCounts::zero_spec()
            }),
    {
        RowDomainCounts {
            artifact_metadata: 0,
            parser_inventory: 0,
            language_capabilities: 0,
            language_capability_fixtures: 0,
            language_capability_gaps: 0,
            extraction_revisions: 0,
            revision_file_changes: row_counts.revision_file_changes,
            files: row_counts.files,
            symbols: row_counts.symbols,
            symbol_annotations: row_counts.symbol_annotations,
            reference_sites: row_counts.reference_sites,
            identifiers: row_counts.identifiers,
            relationships: row_counts.relationships,
            pending_relationships: row_counts.pending_relationships,
            type_facts: row_counts.type_facts,
            type_argument_usages: row_counts.type_argument_usages,
            type_arguments: row_counts.type_arguments,
            literals: row_counts.literals,
            source_regions: row_counts.source_regions,
            structural_facts: row_counts.structural_facts,
            complexity_metrics: row_counts.complexity_metrics,
            parse_diagnostics: row_counts.parse_diagnostics,
            pending_resolutions: 0,
            identifier_resolutions: 0,
        }
    }
}

#[derive(Debug, Clone, Copy, PartialEq, Eq, Structural)]
pub enum ReportCode {
    UsageError,
    InvalidPath,
    FileOutsideRoot,
    FileNotFound,
    RootMismatch,
    SchemaMigrationRequired,
    SchemaIncompatible,
    ContractIncompatible,
    DbOpenFailed,
    DbWriteFailed,
    UnsupportedFormat,
    UnsupportedFile,
    ReadFailed,
    ParseFailed,
    DataLossGuard,
    ExportFailed,
    InternalError,
    MetadataMissing,
    CapabilityGap,
    SlowFileSkipped,
    ReferenceSitePayloadConflict,
    ParentExited,
    SpoolDirExcluded,
    SpoolLockUnavailable,
    FingerprintMismatch,
    NoCommittedRevision,
    ArtifactChanged,
}

/// The snake-case spelling of a code, identical to its JSON form.
pub open spec fn code_text(c: ReportCode) -> Seq<char> {
    match c {
        ReportCode::UsageError => "usage_error"@,
        ReportCode::InvalidPath => "invalid_path"@,
        ReportCode::FileOutsideRoot => "file_outside_root"@,
        ReportCode::FileNotFound => "file_not_found"@,
        ReportCode::RootMismatch => "root_mismatch"@,
        ReportCode::SchemaMigrationRequired => "schema_migration_required"@,
        ReportCode::SchemaIncompatible => "schema_incompatible"@,
        ReportCode::ContractIncompatible => "contract_incompatible"@,
        ReportCode::DbOpenFailed => "db_open_failed"@,
        ReportCode::DbWriteFailed => "db_write_failed"@,
        ReportCode::UnsupportedFormat => "unsupported_format"@,
        ReportCode::UnsupportedFile => "unsupported_file"@,
        ReportCode::ReadFailed => "read_failed"@,
        ReportCode::ParseFailed => "parse_failed"@,
        ReportCode::DataLossGuard => "data_loss_guard"@,
        ReportCode::ExportFailed => "export_failed"@,
        ReportCode::InternalError => "internal_error"@,
        ReportCode::MetadataMissing => "metadata_missing"@,
        ReportCode::CapabilityGap => "capability_gap"@,
        ReportCode::SlowFileSkipped => "slow_file_skipped"@,
        ReportCode::ReferenceSitePayloadConflict => "reference_site_payload_conflict"@,
        ReportCode::ParentExited => "parent_exited"@,
        ReportCode::SpoolDirExcluded => "spool_dir_excluded"@,
        ReportCode::SpoolLockUnavailable => "spool_lock_unavailable"@,
        ReportCode::FingerprintMismatch => "fingerprint_mismatch"@,
        ReportCode::NoCommittedRevision => "no_committed_revision"@,
        ReportCode::ArtifactChanged => "artifact_changed"@,
    }
}

/// Law: no two codes share a spelling.
pub proof fn lemma_code_texts_distinct(a: ReportCode, b: ReportCode)
    ensures
        code_text(a) == code_text(b) ==> a == b,
{
    reveal_strlit("artifact_changed");
    reveal_strlit("capability_gap");
    reveal_strlit("contract_incompatible");
    reveal_strlit("data_loss_guard");
    reveal_strlit("db_open_failed");
    reveal_strlit("db_write_failed");
    reveal_strlit("export_failed");
    reveal_strlit("file_not_found");
    reveal_strlit("file_outside_root");
    reveal_strlit("fingerprint_mismatch");
    reveal_strlit("internal_error");
    reveal_strlit("invalid_path");
    reveal_strlit("metadata_missing");
    reveal_strlit("no_committed_revision");
    reveal_strlit("parent_exited");
    reveal_strlit("parse_failed");
    reveal_strlit("read_failed");
    reveal_strlit("reference_site_payload_conflict");
    reveal_strlit("root_mismatch");
    reveal_strlit("schema_incompatible");
    reveal_strlit("schema_migration_required");
    reveal_strlit("slow_file_skipped");
    reveal_strlit("spool_dir_excluded");
    reveal_strlit("spool_lock_unavailable");
    reveal_strlit("unsupported_file");
    reveal_strlit("unsupported_format");
    reveal_strlit("usage_error");
    assert("artifact_changed"@.len() == 16);
    assert("capability_gap"@.len() == 14);
    assert("contract_incompatible"@.len() == 21);
    assert("data_loss_guard"@.len() == 15);
    assert("db_open_failed"@.len() == 14);
    assert("db_write_failed"@.len() == 15);
    assert("export_failed"@.len() == 13);
    assert("file_not_found"@.len() == 14);
    assert("file_outside_root"@.len() == 17);
    assert("fingerprint_mismatch"@.len() == 20);
    assert("internal_error"@.len() == 14);
    assert("invalid_path"@.len() == 12);
    assert("metadata_missing"@.len() == 16);
    assert("no_committed_revision"@.len() == 21);
    assert("parent_exited"@.len() == 13);
    assert("parse_failed"@.len() == 12);
    assert("read_failed"@.len() == 11);
    assert("reference_site_payload_conflict"@.len() == 31);
    assert("root_mismatch"@.len() == 13);
    assert("schema_incompatible"@.len() == 19);
    assert("schema_migration_required"@.len() == 25);
    assert("slow_file_skipped"@.len() == 17);
    assert("spool_dir_excluded"@.len() == 18);
    assert("spool_lock_unavailable"@.len() == 22);
    assert("unsupported_file"@.len() == 16);
    assert("unsupported_format"@.len() == 18);
    assert("usage_error"@.len() == 11);
    assert("db_open_failed"@[0] != "file_not_found"@[0]);
    assert("read_failed"@[0] != "usage_error"@[0]);
    assert("parse_failed"@[0] != "invalid_path"@[0]);
    assert("data_loss_guard"@[1] != "db_write_failed"@[1]);
    assert("export_failed"@[0] != "root_mismatch"@[0]);
    assert("internal_error"@[0] != "file_not_found"@[0]);
    assert("internal_error"@[0] != "db_open_failed"@[0]);
    assert("metadata_missing"@[0] != "unsupported_file"@[0]);
    assert("capability_gap"@[0] != "file_not_found"@[0]);
    assert("capability_gap"@[0] != "db_open_failed"@[0]);
    assert("capability_gap"@[0] != "internal_error"@[0]);
    assert("slow_file_skipped"@[0] != "file_outside_root"@[0]);
    assert("parent_exited"@[0] != "root_mismatch"@[0]);
    assert("parent_exited"@[0] != "export_failed"@[0]);
    assert("spool_dir_excluded"@[0] != "unsupported_format"@[0]);
    assert("no_committed_revision"@[0] != "contract_incompatible"@[0]);
    assert("artifact_changed"@[0] != "unsupported_file"@[0]);
    assert("artifact_changed"@[0] != "metadata_missing"@[0]);
    match a {
        ReportCode::ArtifactChanged => {},
        ReportCode::CapabilityGap => {},
        ReportCode::ContractIncompatible => {},
        ReportCode::DataLossGuard => {},
        ReportCode::DbOpenFailed => {},
        ReportCode::DbWriteFailed => {},
        ReportCode::ExportFailed => {},
        ReportCode::FileNotFound => {},
        ReportCode::FileOutsideRoot => {},
        ReportCode::FingerprintMismatch => {},
        ReportCode::InternalError => {},
        ReportCode::InvalidPath => {},
        ReportCode::MetadataMissing => {},
        ReportCode::NoCommittedRevision => {},
        ReportCode::ParentExited => {},
        ReportCode::ParseFailed => {},
        ReportCode::ReadFailed => {},
        ReportCode::ReferenceSitePayloadConflict => {},
        ReportCode::RootMismatch => {},
        ReportCode::SchemaIncompatible => {},
        ReportCode::SchemaMigrationRequired => {},
        ReportCode::SlowFileSkipped => {},
        ReportCode::SpoolDirExcluded => {},
        ReportCode::SpoolLockUnavailable => {},
        ReportCode::UnsupportedFile => {},
        ReportCode::UnsupportedFormat => {},
        ReportCode::UsageError => {},
    }
}

/// Every code, in declaration order.
pub open spec fn all_codes() -> Seq<ReportCode> {
    seq![
        ReportCode::UsageError,
        ReportCode::InvalidPath,
        ReportCode::FileOutsideRoot,
        ReportCode::FileNotFound,
        ReportCode::RootMismatch,
        ReportCode::SchemaMigrationRequired,
        ReportCode::SchemaIncompatible,
        ReportCode::ContractIncompatible,
        ReportCode::DbOpenFailed,
        ReportCode::DbWriteFailed,
        ReportCode::UnsupportedFormat,
        ReportCode::UnsupportedFile,
        ReportCode::ReadFailed,
        ReportCode::ParseFailed,
        ReportCode::DataLossGuard,
        ReportCode::ExportFailed,
        ReportCode::InternalError,
        ReportCode::MetadataMissing,
        ReportCode::CapabilityGap,
        ReportCode::SlowFileSkipped,
        ReportCode::ReferenceSitePayloadConflict,
        ReportCode::ParentExited,
        ReportCode::SpoolDirExcluded,
        ReportCode::SpoolLockUnavailable,
        ReportCode::FingerprintMismatch,
        ReportCode::NoCommittedRevision,
        ReportCode::ArtifactChanged,
    ]
}

/// The codes that mark a failed operation, in declaration order.
pub open spec fn error_codes_spec() -> Seq<ReportCode> {
    seq![
        ReportCode::UsageError,
        ReportCode::InvalidPath,
        ReportCode::FileOutsideRoot,
        ReportCode::FileNotFound,
        ReportCode::RootMismatch,
        ReportCode::SchemaMigrationRequired,
        ReportCode::SchemaIncompatible,
        ReportCode::ContractIncompatible,
        ReportCode::DbOpenFailed,
        ReportCode::DbWriteFailed,
        ReportCode::UnsupportedFormat,
        ReportCode::UnsupportedFile,
        ReportCode::ReadFailed,
        ReportCode::ParseFailed,
        ReportCode::DataLossGuard,
        ReportCode::ExportFailed,
        ReportCode::InternalError,
        ReportCode::ParentExited,
        ReportCode::FingerprintMismatch,
        ReportCode::NoCommittedRevision,
        ReportCode::ArtifactChanged,
    ]
}

impl ReportCode {
    /// Every code, in declaration order.
    pub fn all() -> (r: Vec<ReportCode>)
        ensures
            r@ == all_codes(),
    {
        let v = vec![
            ReportCode::UsageError,
            ReportCode::InvalidPath,
            ReportCode::FileOutsideRoot,
            ReportCode::FileNotFound,
            ReportCode::RootMismatch,
            ReportCode::SchemaMigrationRequired,
            ReportCode::SchemaIncompatible,
            ReportCode::ContractIncompatible,
            ReportCode::DbOpenFailed,
            ReportCode::DbWriteFailed,
            ReportCode::UnsupportedFormat,
            ReportCode::UnsupportedFile,
            ReportCode::ReadFailed,
            ReportCode::ParseFailed,
            ReportCode::DataLossGuard,
            ReportCode::ExportFailed,
            ReportCode::InternalError,
            ReportCode::MetadataMissing,
            ReportCode::CapabilityGap,
            ReportCode::SlowFileSkipped,
            ReportCode::ReferenceSitePayloadConflict,
            ReportCode::ParentExited,
            ReportCode::SpoolDirExcluded,
            ReportCode::SpoolLockUnavailable,
            ReportCode::FingerprintMismatch,
            ReportCode::NoCommittedRevision,
            ReportCode::ArtifactChanged,
        ];
        assert(v@ =~= all_codes());
        v
    }

    /// The codes that mark a failed operation.
    pub fn error_codes() -> (r: Vec<ReportCode>)
        ensures
            r@ == error_codes_spec(),
    {
        let v = vec![
            ReportCode::UsageError,
            ReportCode::InvalidPath,
            ReportCode::FileOutsideRoot,
            ReportCode::FileNotFound,
            ReportCode::RootMismatch,
            ReportCode::SchemaMigrationRequired,
            ReportCode::SchemaIncompatible,
            ReportCode::ContractIncompatible,
            ReportCode::DbOpenFailed,
            ReportCode::DbWriteFailed,
            ReportCode::UnsupportedFormat,
            ReportCode::UnsupportedFile,
            ReportCode::ReadFailed,
            ReportCode::ParseFailed,
            ReportCode::DataLossGuard,
            ReportCode::ExportFailed,
            ReportCode::InternalError,
            ReportCode::ParentExited,
            ReportCode::FingerprintMismatch,
            ReportCode::NoCommittedRevision,
            ReportCode::ArtifactChanged,
        ];
        assert(v@ =~= error_codes_spec());
        v
    }

    /// Snake-case spelling of the code, identical to its JSON form.
    pub fn as_str(self) -> (r: &'static str)
        ensures
            r@ == code_text(self),
    {
        proof {
            reveal_strlit("usage_error");
            reveal_strlit("invalid_path");
            reveal_strlit("file_outside_root");
            reveal_strlit("file_not_found");
            reveal_strlit("root_mismatch");
            reveal_strlit("schema_migration_required");
            reveal_strlit("schema_incompatible");
            reveal_strlit("contract_incompatible");
            reveal_strlit("db_open_failed");
            reveal_strlit("db_write_failed");
            reveal_strlit("unsupported_format");
            reveal_strlit("unsupported_file");
            reveal_strlit("read_failed");
            reveal_strlit("parse_failed");
            reveal_strlit("data_loss_guard");
            reveal_strlit("export_failed");
            reveal_strlit("internal_error");
            reveal_strlit("metadata_missing");
            reveal_strlit("capability_gap");
            reveal_strlit("slow_file_skipped");
            reveal_strlit("reference_site_payload_conflict");
            reveal_strlit("parent_exited");
            reveal_strlit("spool_dir_excluded");
            reveal_strlit("spool_lock_unavailable");
            reveal_strlit("fingerprint_mismatch");
            reveal_strlit("no_committed_revision");
            reveal_strlit("artifact_changed");
        }
        match self {
            ReportCode::UsageError => "usage_error",
            ReportCode::InvalidPath => "invalid_path",
            ReportCode::FileOutsideRoot => "file_outside_root",
            ReportCode::FileNotFound => "file_not_found",
            ReportCode::RootMismatch => "root_mismatch",
            ReportCode::SchemaMigrationRequired => "schema_migration_required",
            ReportCode::SchemaIncompatible => "schema_incompatible",
            ReportCode::ContractIncompatible => "contract_incompatible",
            ReportCode::DbOpenFailed => "db_open_failed",
            ReportCode::DbWriteFailed => "db_write_failed",
            ReportCode::UnsupportedFormat => "unsupported_format",
            ReportCode::UnsupportedFile => "unsupported_file",
            ReportCode::ReadFailed => "read_failed",
            ReportCode::ParseFailed => "parse_failed",
            ReportCode::DataLossGuard => "data_loss_guard",
            ReportCode::ExportFailed => "export_failed",
            ReportCode::InternalError => "internal_error",
            ReportCode::MetadataMissing => "metadata_missing",
            ReportCode::CapabilityGap => "capability_gap",
            ReportCode::SlowFileSkipped => "slow_file_skipped",
            ReportCode::ReferenceSitePayloadConflict => "reference_site_payload_conflict",
            ReportCode::ParentExited => "parent_exited",
            ReportCode::SpoolDirExcluded => "spool_dir_excluded",
            ReportCode::SpoolLockUnavailable => "spool_lock_unavailable",
            ReportCode::FingerprintMismatch => "fingerprint_mismatch",
            ReportCode::NoCommittedRevision => "no_committed_revision",
            ReportCode::ArtifactChanged => "artifact_changed",
        }
    }
}

} // verus!
