//! Extraction row model: write operations and modes, file statuses, the
//! per-domain row counts a write produced, and the plain artifact rows.

use vstd::prelude::*;

use crate::text::{i64_text, int_text, push_chars, push_str};

verus! {

#[derive(Debug, Clone, Copy, PartialEq, Eq)]
pub enum WriteOperation {
    Scan,
    Update,
    Delete,
}

impl WriteOperation {
    pub fn as_str(self) -> (r: &'static str)
        ensures
            r@ == match self {
                WriteOperation::Scan => "scan"@,
                WriteOperation::Update => "update"@,
                WriteOperation::Delete => "delete"@,
            },
    {
        match self {
            WriteOperation::Scan => "scan",
            WriteOperation::Update => "update",
            WriteOperation::Delete => "delete",
        }
    }
}

#[derive(Debug, Clone, Copy, PartialEq, Eq)]
pub enum WriteMode {
    Incremental,
    Force,
    SingleFile,
}

impl WriteMode {
    pub fn as_str(self) -> (r: &'static str)
        ensures
            r@ == match self {
                WriteMode::Incremental => "incremental"@,
                WriteMode::Force => "force"@,
                WriteMode::SingleFile => "single_file"@,
            },
    {
        match self {
            WriteMode::Incremental => "incremental",
            WriteMode::Force => "force",
            WriteMode::SingleFile => "single_file",
        }
    }
}

#[derive(Debug, Clone, Copy, PartialEq, Eq)]
pub enum FileStatus {
    Indexed,
    Unsupported,
    FailedPreserved,
}

impl FileStatus {
    pub fn as_str(self) -> (r: &'static str)
        ensures
            r@ == match self {
                FileStatus::Indexed => "indexed"@,
                FileStatus::Unsupported => "unsupported"@,
                FileStatus::FailedPreserved => "failed_preserved"@,
            },
    {
        match self {
            FileStatus::Indexed => "indexed",
            FileStatus::Unsupported => "unsupported",
            FileStatus::FailedPreserved => "failed_preserved",
        }
    }
}

#[derive(Debug, Clone, Copy, PartialEq, Eq)]
pub enum RevisionChangeKind {
    Inserted,
    Updated,
    Deleted,
    Unsupported,
}

impl RevisionChangeKind {
    pub fn as_str(self) -> (r: &'static str)
        ensures
            r@ == match self {
                RevisionChangeKind::Inserted => "inserted"@,
                RevisionChangeKind::Updated => "updated"@,
                RevisionChangeKind::Deleted => "deleted"@,
                RevisionChangeKind::Unsupported => "unsupported"@,
            },
    {
        match self {
            RevisionChangeKind::Inserted => "inserted",
            RevisionChangeKind::Updated => "updated",
            RevisionChangeKind::Deleted => "deleted",
            RevisionChangeKind::Unsupported => "unsupported",
        }
    }
}

#[derive(Debug, Clone, PartialEq, Eq)]
pub struct RevisionInput {
    pub operation: WriteOperation,
    pub mode: Option<WriteMode>,
    pub started_at: String,
    pub completed_at: String,
    pub binary_version: String,
    pub input_root: Option<String>,
}

/// Rows written per extraction table by one write.
#[derive(Debug, Clone, Copy, Default, PartialEq, Eq)]
pub struct RowCounts {
    pub files: i64,
    pub symbols: i64,
    pub symbol_annotations: i64,
    pub reference_sites: i64,
    pub identifiers: i64,
    pub relationships: i64,
    pub pending_relationships: i64,
    pub type_facts: i64,
    pub type_argument_usages: i64,
    pub type_arguments: i64,
    pub literals: i64,
    pub source_regions: i64,
    pub structural_facts: i64,
    pub complexity_metrics: i64,
    pub parse_diagnostics: i64,
    pub revision_file_changes: i64,
}

/// The sum of a run of integers.
pub open spec fn sum(vals: Seq<int>) -> int
    decreases vals.len(),
{
    if vals.len() == 0 {
        0
    } else {
        sum(vals.drop_last()) + vals.last()
    }
}

/// Every running total of `vals`, left to right, fits in an `i64`.
pub open spec fn running_totals_fit(vals: Seq<int>) -> bool {
    forall|k: int| 0 < k <= vals.len() ==> i64::MIN <= #[trigger] sum(vals.take(k)) <= i64::MAX
}

/// Adds `vals` left to right, as a chain of `+` does.
pub fn checked_running_sum(vals: &[i64]) -> (r: i64)
    requires
        running_totals_fit(vals@.map_values(|v: i64| v as int)),
    ensures
        r == sum(vals@.map_values(|v: i64| v as int)),
{
    let ghost ints = vals@.map_values(|v: i64| v as int);
    let mut acc: i64 = 0;
    let mut i: usize = 0;
    assert(ints.take(0) =~= Seq::<int>::empty());
    while i < vals.len()
        invariant
            ints == vals@.map_values(|v: i64| v as int),
            running_totals_fit(ints),
            i <= vals@.len(),
            acc == sum(ints.take(i as int)),
        decreases vals@.len() - i,
    {
        assert(ints.take(i + 1).drop_last() =~= ints.take(i as int));
        assert(i64::MIN <= sum(ints.take(i + 1)) <= i64::MAX);
        acc = acc + vals[i];
        i = i + 1;
    }
    assert(ints.take(i as int) =~= ints);
    acc
}

impl RowCounts {
    /// The extraction tables in the order their counts are added.
    pub open spec fn extraction_terms(&self) -> Seq<int> {
        seq![
            self.files as int,
            self.symbols as int,
            self.symbol_annotations as int,
            self.identifiers as int,
            self.relationships as int,
            self.pending_relationships as int,
            self.type_facts as int,
            self.type_argument_usages as int,
            self.type_arguments as int,
            self.literals as int,
            self.source_regions as int,
            self.structural_facts as int,
            self.complexity_metrics as int,
            self.parse_diagnostics as int,
        ]
    }

    /// The rows written to the extraction tables: every count but the
    /// reference sites and the revision file changes.
    pub fn extraction_rows(&self) -> (r: i64)
        requires
            running_totals_fit(self.extraction_terms()),
        ensures
            r == sum(self.extraction_terms()),
    {
        let vals = [
            self.files,
            self.symbols,
            self.symbol_annotations,
            self.identifiers,
            self.relationships,
            self.pending_relationships,
            self.type_facts,
            self.type_argument_usages,
            self.type_arguments,
            self.literals,
            self.source_regions,
            self.structural_facts,
            self.complexity_metrics,
            self.parse_diagnostics,
        ];
        assert(vals@.map_values(|v: i64| v as int) =~= self.extraction_terms());
        checked_running_sum(&vals)
    }

    /// The counts as a compact JSON object, keys in table order.
    pub open spec fn counts_json_text(&self) -> Seq<char> {
        "{\"files\":"@ + int_text(self.files as int) + ",\"symbols\":"@ + int_text(self.symbols as int)
            + ",\"symbol_annotations\":"@ + int_text(self.symbol_annotations as int)
            + ",\"identifiers\":"@ + int_text(self.identifiers as int) + ",\"relationships\":"@
            + int_text(self.relationships as int) + ",\"pending_relationships\":"@ + int_text(
            self.pending_relationships as int,
        ) + ",\"type_facts\":"@ + int_text(self.type_facts as int) + ",\"type_argument_usages\":"@
            + int_text(self.type_argument_usages as int) + ",\"type_arguments\":"@ + int_text(
            self.type_arguments as int,
        ) + ",\"literals\":"@ + int_text(self.literals as int) + ",\"source_regions\":"@ + int_text(
            self.source_regions as int,
        ) + ",\"structural_facts\":"@ + int_text(self.structural_facts as int)
            + ",\"complexity_metrics\":"@ + int_text(self.complexity_metrics as int)
            + ",\"parse_diagnostics\":"@ + int_text(self.parse_diagnostics as int)
            + ",\"revision_file_changes\":"@ + int_text(self.revision_file_changes as int) + "}"@
    }

    pub fn counts_json(&self) -> (r: String)
        ensures
            r@ == self.counts_json_text(),
    {
        let mut out = String::new();
        push_str(&mut out, "{\"files\":");
        push_chars(&mut out, i64_text(self.files).as_slice());
        push_str(&mut out, ",\"symbols\":");
        push_chars(&mut out, i64_text(self.symbols).as_slice());
        push_str(&mut out, ",\"symbol_annotations\":");
        push_chars(&mut out, i64_text(self.symbol_annotations).as_slice());
        push_str(&mut out, ",\"identifiers\":");
        push_chars(&mut out, i64_text(self.identifiers).as_slice());
        push_str(&mut out, ",\"relationships\":");
        push_chars(&mut out, i64_text(self.relationships).as_slice());
        push_str(&mut out, ",\"pending_relationships\":");
        push_chars(&mut out, i64_text(self.pending_relationships).as_slice());
        push_str(&mut out, ",\"type_facts\":");
        push_chars(&mut out, i64_text(self.type_facts).as_slice());
        push_str(&mut out, ",\"type_argument_usages\":");
        push_chars(&mut out, i64_text(self.type_argument_usages).as_slice());
        push_str(&mut out, ",\"type_arguments\":");
        push_chars(&mut out, i64_text(self.type_arguments).as_slice());
        push_str(&mut out, ",\"literals\":");
        push_chars(&mut out, i64_text(self.literals).as_slice());
        push_str(&mut out, ",\"source_regions\":");
        push_chars(&mut out, i64_text(self.source_regions).as_slice());
        push_str(&mut out, ",\"structural_facts\":");
        push_chars(&mut out, i64_text(self.structural_facts).as_slice());
        push_str(&mut out, ",\"complexity_metrics\":");
        push_chars(&mut out, i64_text(self.complexity_metrics).as_slice());
        push_str(&mut out, ",\"parse_diagnostics\":");
        push_chars(&mut out, i64_text(self.parse_diagnostics).as_slice());
        push_str(&mut out, ",\"revision_file_changes\":");
        push_chars(&mut out, i64_text(self.revision_file_changes).as_slice());
        push_str(&mut out, "}");
        out
    }
}

#[derive(Debug, Clone, Default, PartialEq, Eq)]
pub struct WriteResult {
    pub revision_id: Option<i64>,
    pub rows_written: RowCounts,
    pub files_changed: usize,
    pub files_deleted: usize,
    pub files_skipped: usize,
    pub transactions_committed: usize,
    pub resolution: ResolutionWriteOutcome,
}

/// What a write reports of the resolution hook that ran inside it.
#[derive(Debug, Clone, Default, PartialEq, Eq)]
pub struct ResolutionWriteOutcome {
    pub counts: crate::resolution_store::ResolutionCounts,
    pub failed: Option<String>,
}

#[derive(Debug, Clone, Copy, Default, PartialEq, Eq)]
pub struct ArtifactCapabilityFlags {
    pub symbols: bool,
    pub relationships: bool,
    pub pending_relationships: bool,
    pub identifiers: bool,
    pub types: bool,
}

#[derive(Debug, Clone, PartialEq, Eq)]
pub struct ArtifactLanguageCapabilityFixtureRow {
    pub fixture_name: String,
    pub source_path: String,
    pub expected_path: String,
}

#[derive(Debug, Clone, Default, PartialEq, Eq)]
pub struct ArtifactSymbolAnnotation {
    pub annotation_id: String,
    pub symbol_id: String,
    pub annotation: String,
    pub annotation_key: String,
    pub raw_text: Option<String>,
    pub carrier: Option<String>,
    pub metadata_json: Option<String>,
}

#[derive(Debug, Clone, PartialEq, Eq)]
pub struct ArtifactTypeFact {
    pub type_fact_id: String,
    pub symbol_id: String,
    pub resolved_type: String,
    pub generic_params_json: Option<String>,
    pub constraints_json: Option<String>,
    pub is_inferred: bool,
    pub metadata_json: Option<String>,
}

#[derive(Debug, Clone, Default, PartialEq, Eq)]
pub struct ArtifactTypeArgumentUsage {
    pub usage_id: String,
    pub identifier_id: String,
    pub metadata_json: Option<String>,
}

#[derive(Debug, Clone, Default, PartialEq, Eq)]
pub struct ArtifactTypeArgument {
    pub type_argument_id: String,
    pub usage_id: String,
    pub parent_type_argument_id: Option<String>,
    pub ordinal: i64,
    pub argument_type: String,
}

#[derive(Debug, Clone, PartialEq, Eq)]
pub struct ArtifactSourceRegion {
    pub source_region_id: String,
    pub kind: String,
    pub containing_symbol_id: Option<String>,
    pub start_line: i64,
    pub start_column: i64,
    pub end_line: i64,
    pub end_column: i64,
    pub start_byte: i64,
    pub end_byte: i64,
    pub metadata_json: Option<String>,
}

#[derive(Debug, Clone, PartialEq, Eq)]
pub struct ArtifactComplexityMetric {
    pub complexity_metric_id: String,
    pub scope: String,
    pub symbol_id: Option<String>,
    pub algorithm_id: String,
    pub covered_lines: i64,
    pub covered_bytes: i64,
    pub decision_count: i64,
    pub loop_count: i64,
    pub max_nesting_depth: i64,
    pub parameter_count: Option<i64>,
    pub start_line: i64,
    pub start_column: i64,
    pub end_line: i64,
    pub end_column: i64,
    pub start_byte: i64,
    pub end_byte: i64,
    pub metadata_json: Option<String>,
}

#[derive(Debug, Clone, Default, PartialEq, Eq)]
pub struct ArtifactParseDiagnostic {
    pub diagnostic_id: String,
    pub kind: String,
    pub message: Option<String>,
    pub start_line: i64,
    pub start_column: i64,
    pub end_line: i64,
    pub end_column: i64,
    pub start_byte: i64,
    pub end_byte: i64,
    pub metadata_json: Option<String>,
}

impl ArtifactSourceRegion {
    /// A comment region on line one, column zero, with no bytes.
    pub fn default_region() -> (r: Self)
        ensures
            r.source_region_id@ == Seq::<char>::empty(),
            r.kind@ == "comment"@,
            r.containing_symbol_id is None,
            r.start_line == 1 && r.start_column == 0 && r.end_line == 1 && r.end_column == 0,
            r.start_byte == 0 && r.end_byte == 0,
            r.metadata_json is None,
    {
        ArtifactSourceRegion {
            source_region_id: String::new(),
            kind: crate::text::owned("comment"),
            containing_symbol_id: None,
            start_line: 1,
            start_column: 0,
            end_line: 1,
            end_column: 0,
            start_byte: 0,
            end_byte: 0,
            metadata_json: None,
        }
    }
}

impl ArtifactComplexityMetric {
    /// A file-scope metric of the AST complexity algorithm, all counts zero.
    pub fn default_metric() -> (r: Self)
        ensures
            r.complexity_metric_id@ == Seq::<char>::empty(),
            r.scope@ == "file"@,
            r.symbol_id is None,
            r.algorithm_id@ == "julie-ast-complexity-v1"@,
            r.covered_lines == 0 && r.covered_bytes == 0 && r.decision_count == 0,
            r.loop_count == 0 && r.max_nesting_depth == 0 && r.parameter_count is None,
            r.start_line == 1 && r.start_column == 0 && r.end_line == 1 && r.end_column == 0,
            r.start_byte == 0 && r.end_byte == 0,
            r.metadata_json is None,
    {
        ArtifactComplexityMetric {
            complexity_metric_id: String::new(),
            scope: crate::text::owned("file"),
            symbol_id: None,
            algorithm_id: crate::text::owned("julie-ast-complexity-v1"),
            covered_lines: 0,
            covered_bytes: 0,
            decision_count: 0,
            loop_count: 0,
            max_nesting_depth: 0,
            parameter_count: None,
            start_line: 1,
            start_column: 0,
            end_line: 1,
            end_column: 0,
            start_byte: 0,
            end_byte: 0,
            metadata_json: None,
        }
    }
}

} // verus!
